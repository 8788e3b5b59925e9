//! Verified core of a Wayland compositor backend.

pub mod backdrop;
pub mod background;
pub mod behind;
pub mod cache;
pub mod capture;
pub mod clip;
pub mod cursor;
pub mod damage;
pub mod effects;
pub mod formats;
pub mod frame;
pub mod geometry;
pub mod layerpass;
pub mod layers;
pub mod modes;
pub mod notes;
pub mod order;
pub mod pass;
pub mod placements;
pub mod probes;
pub mod records;
pub mod redraw;
pub mod region;
pub mod scanout;
pub mod scene;
pub mod session;
pub mod signature;
pub mod slots;
pub mod table;
pub mod text;
pub mod timing;
pub mod visual;
pub mod windows;
