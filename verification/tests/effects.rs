use shojiwm_backend::backdrop::{
    backdrop_area, backdrop_scene, blur_padding, effect_input, lower_layer_signature,
    protocol_signature, relevant_source_damage, shader_signature, takes_picture,
    upper_layer_signature, BackdropArea, InputPicture, PicturesTaken, SceneBehind, ShaderItem,
    SourceDamage,
};
use shojiwm_backend::background::{
    configured_background_effect_elements_for_layer, custom_background, layer_background_path,
    layer_framebuffer_key, lower_layer_background_elements, lower_layer_background_step,
    lower_layer_capture, lower_layer_damage, lower_layer_pipeline_key, lower_layer_stable_key, plan_layer_background,
    upper_layer_background_step, upper_layer_pipeline_key, upper_layer_stable_key, BackgroundPath,
    Captured, LayerBackground, LayerError, LayerReply, LayerScene, LayerStep, LowerCapture,
    LowerScene,
};
use shojiwm_backend::behind::{
    backdrop_shader_elements_for_window, below, captured_items,
    configured_background_effect_elements_for_window,
    configured_background_framebuffer_effect_elements_for_window, output_cache_key,
    protocol_backdrop_step, protocol_framebuffer_key, protocol_pipeline_key, protocol_stable_key,
    render_as_backdrop, sampled_area, settle_shader_backdrop, shader_backdrop_step,
    shader_cache_key, window_backdrop_pipeline_key, BackdropStep, EffectReply, SampledArea,
    WindowScene,
};
use shojiwm_backend::cache::{
    cached_backdrop, effect_element_state, layer_effect_element_state, rect_key,
    reuse_layer_backdrop, store_backdrop, store_layer_backdrop, window_effect_element_state,
    BackdropElement, ElementState, LayerBackdrop,
};
use shojiwm_backend::damage::OwnedDamageRect;
use shojiwm_backend::effects::{BlurStage, EffectInput, EffectSlot, EffectTraits, WindowEffectConfig};
use shojiwm_backend::geometry::{EffectOutsets, LogicalPoint, LogicalRect};
use shojiwm_backend::signature::{
    contributor_window_scene_rect, hash_layer_scene_contributors, hash_window_scene_contributors,
    window_effect_signature, EffectScene, LayerPlace, SceneHasher, WindowPlace,
};
use shojiwm_backend::table::NameTable;
use std::collections::hash_map::DefaultHasher;
use std::hash::{Hash, Hasher};

const OUTPUT: LogicalRect = LogicalRect { x: 0, y: 0, width: 1920, height: 1080 };
const CORNER: LogicalPoint = LogicalPoint { x: 0, y: 0 };

fn effect() -> EffectTraits {
    EffectTraits {
        input: EffectInput::Other,
        blur: None,
        uses_backdrop: true,
        uses_xray: false,
        uses_layer_source: false,
        uses_popup_source: false,
        is_backdrop: true,
        supports_framebuffer_backdrop: false,
        supports_popup_framebuffer_backdrop: false,
        always_invalidated: false,
    }
}

fn outsets(all: i32) -> EffectOutsets {
    EffectOutsets { left: all, right: all, top: all, bottom: all }
}

fn window_at(id: &str, rect: LogicalRect) -> WindowPlace {
    WindowPlace {
        decorated: Some((id.to_string(), rect)),
        location: None,
        bbox: LogicalRect::new(0, 0, 0, 0),
        protocol_id: None,
    }
}

fn scene(windows: &[WindowPlace]) -> SceneBehind<'_> {
    SceneBehind {
        lower_generation: 1,
        windows,
        lower_layers: &[],
        upper_layers: &[],
        output_loc: CORNER,
    }
}

fn item(effect: EffectTraits) -> ShaderItem<'static> {
    ShaderItem {
        order: 3,
        stable_key: "shader",
        rect: LogicalRect::new(100, 100, 50, 50),
        clip_radius: 4,
        texture_backed: true,
        effect,
        effect_text: "blur",
    }
}

fn area(effect: &EffectTraits) -> BackdropArea {
    backdrop_area(LogicalRect::new(100, 100, 50, 50), effect, OUTPUT)
}

fn scene_of_effect(placement: &str, signature: u64) -> u64 {
    window_effect_signature(&EffectScene {
        placement,
        rect: LogicalRect::new(1, 2, 3, 4),
        outsets: outsets(5),
        effect: "blur",
        scale_bits: (6, 7),
        scene_signature: signature,
    })
}

#[test]
fn signatures_are_those_of_the_standard_hasher() {
    let mut expected = DefaultHasher::new();
    "behind".hash(&mut expected);
    for n in [1i32, 2, 3, 4, 5, 5, 5, 5] {
        n.hash(&mut expected);
    }
    "blur".hash(&mut expected);
    for n in [6u64, 7, 9] {
        n.hash(&mut expected);
    }
    assert_eq!(scene_of_effect("behind", 9), expected.finish());
}

#[test]
fn signatures_tell_scenes_apart() {
    assert_eq!(scene_of_effect("behind", 9), scene_of_effect("behind", 9));
    assert_ne!(scene_of_effect("behind", 9), scene_of_effect("in-front", 9));
    assert_ne!(scene_of_effect("behind", 9), scene_of_effect("behind", 10));
}

#[test]
fn windows_without_a_decoration_count_with_their_surfaces() {
    let place = |location, protocol_id| WindowPlace {
        decorated: None,
        location,
        bbox: LogicalRect::new(-5, -5, 30, 20),
        protocol_id,
    };
    let at = Some(LogicalPoint { x: 100, y: 200 });
    let known = contributor_window_scene_rect(&place(at, Some(42))).unwrap();
    assert_eq!(known.id, "42");
    assert_eq!(known.rect, LogicalRect::new(95, 195, 30, 20));
    assert_eq!(contributor_window_scene_rect(&place(at, None)).unwrap().id, "unknown");
    assert!(contributor_window_scene_rect(&place(None, Some(42))).is_none());
    let decorated = window_at("w", LogicalRect::new(1, 1, 2, 2));
    assert_eq!(contributor_window_scene_rect(&decorated).unwrap().id, "w");
}

#[test]
fn only_what_lies_under_an_effect_is_collected() {
    let rect = LogicalRect::new(0, 0, 10, 10);
    let collect = |windows: &[WindowPlace], layers: &[LayerPlace]| {
        let mut hasher = SceneHasher::new();
        hash_window_scene_contributors(&mut hasher, windows, rect);
        hash_layer_scene_contributors(&mut hasher, layers, LogicalPoint { x: 5, y: 5 }, rect);
        hasher.finish()
    };
    let under = window_at("a", LogicalRect::new(5, 5, 10, 10));
    let apart = window_at("b", LogicalRect::new(50, 5, 10, 10));
    let layer = |x| LayerPlace { protocol_id: 3, geometry: Some(LogicalRect::new(x, 0, 4, 4)) };
    let unplaced = LayerPlace { protocol_id: 3, geometry: None };
    assert_eq!(collect(&[apart], &[layer(9), unplaced]), collect(&[], &[]));
    assert_ne!(collect(&[under], &[]), collect(&[], &[]));
    assert_ne!(collect(&[], &[layer(0)]), collect(&[], &[]));
}

#[test]
fn commits_follow_contents() {
    let mut cache: NameTable<ElementState> = NameTable::new();
    assert_eq!(effect_element_state(&mut cache, "k", 7, 100), (100, 1));
    assert_eq!(effect_element_state(&mut cache, "k", 7, 101), (100, 1));
    assert_eq!(effect_element_state(&mut cache, "k", 8, 102), (100, 2));
    assert_eq!(window_effect_element_state(&mut cache, "w", 0, 103), (103, 0));
    cache.set("l", ElementState { signature: 1, id: 5, commit: usize::MAX });
    assert_eq!(layer_effect_element_state(&mut cache, "l", 2, 104), (5, 0));
}

#[test]
fn pictures_are_reused_until_something_changes() {
    let mut cache: NameTable<ElementState> = NameTable::new();
    assert_eq!(cached_backdrop(&cache, "k", 7, false, false), None);
    let stored = store_backdrop(&mut cache, "k", 7, 100);
    assert_eq!(stored, ElementState { signature: 7, id: 100, commit: 0 });
    assert_eq!(cached_backdrop(&cache, "k", 7, false, false), Some(stored));
    assert_eq!(cached_backdrop(&cache, "k", 8, false, false), None);
    assert_eq!(cached_backdrop(&cache, "k", 7, true, false), None);
    assert_eq!(cached_backdrop(&cache, "k", 7, false, true), None);
    let again = store_backdrop(&mut cache, "k", 8, 101);
    assert_eq!(again, ElementState { signature: 8, id: 101, commit: 1 });
}

#[test]
fn parts_of_a_redrawn_layer_background_are_seen() {
    let mut cache: NameTable<LayerBackdrop> = NameTable::new();
    let rects = [LogicalRect::new(10, 10, 5, 5), LogicalRect::new(20, 10, 5, 5)];
    let corner = LogicalPoint { x: 10, y: 0 };
    let first = store_layer_backdrop(&mut cache, "k", 1, 50, &rects, &[51, 52], corner);
    assert_eq!((first[0].id, first[0].commit), (51, 0));
    assert_eq!(first[1].local_rect, LogicalRect::new(10, 10, 5, 5));
    let shown = reuse_layer_backdrop(&cache, "k", 1, false, false, &rects, &[61, 62], corner);
    assert_eq!(shown, Some(first));
    let second = store_layer_backdrop(&mut cache, "k", 2, 70, &rects[..1], &[71], corner);
    assert_eq!((second[0].id, second[0].commit), (51, 1));
    let entry = cache.get_ref("k").unwrap();
    assert_eq!(entry.state, ElementState { signature: 2, id: 50, commit: 1 });
    assert_eq!((entry.parts[1].id, entry.parts[1].commit), (52, 0));
    let other = [LogicalRect::new(0, 0, 1, 1)];
    let unknown = reuse_layer_backdrop(&cache, "k", 2, false, false, &other, &[80], CORNER).unwrap();
    assert_eq!((unknown[0].id, unknown[0].commit), (80, 0));
    assert!(reuse_layer_backdrop(&cache, "k", 1, false, false, &rects, &[1, 2], corner).is_none());
}

#[test]
fn parts_are_named_by_their_rectangle() {
    assert_eq!(rect_key("panel", LogicalRect::new(-1, 2, 30, 40)), "panel:-1:2:30:40");
    assert_ne!(
        rect_key("panel", LogicalRect::new(1, 23, 4, 5)),
        rect_key("panel", LogicalRect::new(12, 3, 4, 5))
    );
}

#[test]
fn blurs_reach_beyond_the_effect() {
    assert_eq!(blur_padding(None), 0);
    assert_eq!(blur_padding(Some(BlurStage { radius: 2, passes: 3 })), 176);
    assert_eq!(blur_padding(Some(BlurStage { radius: 0, passes: -1 })), 56);
    let blurred = EffectTraits { blur: Some(BlurStage { radius: 1, passes: 1 }), ..effect() };
    let area = backdrop_area(LogicalRect::new(10, 10, 20, 20), &blurred, OUTPUT);
    assert_eq!(area.capture, LogicalRect::new(-46, -46, 132, 132));
    assert_eq!(area.visible, LogicalRect::new(0, 0, 86, 86));
    let outside = backdrop_area(LogicalRect::new(5000, 10, 20, 20), &blurred, OUTPUT);
    assert_eq!(outside.visible, outside.capture);
}

#[test]
fn effect_signatures_depend_on_the_scene_they_show() {
    let near = [window_at("a", LogicalRect::new(120, 120, 10, 10))];
    let far = [window_at("a", LogicalRect::new(500, 120, 10, 10))];
    let sign = |windows: &[WindowPlace], effect: EffectTraits| {
        shader_signature(&item(effect), &area(&effect), &scene(windows), OUTPUT, CORNER)
    };
    assert_ne!(sign(&near, effect()), sign(&[], effect()));
    assert_eq!(sign(&far, effect()), sign(&[], effect()));
    let plain = EffectTraits { uses_backdrop: false, ..effect() };
    assert_eq!(sign(&near, plain), sign(&[], plain));
    let area = area(&effect());
    let later = SceneBehind { lower_generation: 2, ..scene(&[]) };
    assert_ne!(
        protocol_signature("p", &effect(), "blur", &area, &scene(&[]), OUTPUT),
        protocol_signature("p", &effect(), "blur", &area, &later, OUTPUT)
    );
    assert_ne!(
        upper_layer_signature("p", &effect(), "blur", &area, &scene(&near)),
        upper_layer_signature("p", &effect(), "blur", &area, &scene(&[]))
    );
    assert_ne!(
        lower_layer_signature("p", 1, "blur", &area),
        lower_layer_signature("p", 2, "blur", &area)
    );
}

#[test]
fn effects_look_at_the_damage_of_what_they_show() {
    let damage = |owner: &str| {
        [OwnedDamageRect { owner: owner.to_string(), rect: LogicalRect::new(0, 0, 1, 1) }]
    };
    let (windows, lower, upper) = (damage("w"), damage("4"), damage("5"));
    let source = SourceDamage { windows: &windows, lower_layers: &lower, upper_layers: &upper };
    let owners = |effect: &EffectTraits| -> Vec<String> {
        relevant_source_damage(effect, &[Some("w".to_string())], &[4], &[5], &source)
            .into_iter()
            .map(|entry| entry.owner)
            .collect()
    };
    assert_eq!(owners(&effect()), vec!["w", "4", "5"]);
    let xray = EffectTraits { uses_backdrop: false, uses_xray: true, ..effect() };
    assert_eq!(owners(&xray), vec!["4"]);
    let plain = EffectTraits { uses_backdrop: false, ..effect() };
    assert!(owners(&plain).is_empty());
}

#[test]
fn captured_scenes_run_from_front_to_back() {
    let scene = backdrop_scene(
        vec![Some(vec![1]), None],
        vec![Some(vec![2, 3])],
        vec![None, Some(vec![4])],
    );
    assert_eq!(scene, vec![1, 2, 3, 4]);
    let both = EffectTraits { uses_xray: true, ..effect() };
    let all = PicturesTaken { backdrop: true, xray: true, white: true };
    let one = [1];
    let input = |effect: &EffectTraits, behind: &[i32], xray: &[i32], taken| {
        effect_input(effect, behind, xray, taken)
    };
    assert_eq!(input(&both, &one, &one, all), Some(InputPicture::Backdrop));
    assert_eq!(input(&both, &[], &one, all), Some(InputPicture::Xray));
    let failed = PicturesTaken { backdrop: false, ..all };
    assert_eq!(input(&both, &one, &one, failed), Some(InputPicture::Xray));
    assert_eq!(input(&both, &[], &[], all), Some(InputPicture::White));
    assert_eq!(input(&effect(), &[], &one, all), Some(InputPicture::White));
    assert_eq!(input(&both, &[], &[], PicturesTaken { white: false, ..all }), None);
    assert!(takes_picture(true, &one) && !takes_picture(false, &one));
    assert!(!takes_picture::<i32>(true, &[]));
    assert_eq!(below(&[1, 2, 3], 0), &[2, 3]);
    assert!(below(&[1, 2, 3], 2).is_empty() && below(&[1, 2, 3], 9).is_empty());
}

#[test]
fn effects_drawn_from_the_frame_are_not_captured() {
    let supported = EffectTraits { supports_framebuffer_backdrop: true, ..effect() };
    let untextured = ShaderItem { texture_backed: false, ..item(effect()) };
    let items = [item(effect()), item(supported), untextured];
    assert_eq!(captured_items(&items, true), vec![0]);
    assert_eq!(captured_items(&items, false), vec![0, 1]);
    assert!(render_as_backdrop(&effect()));
    assert!(!render_as_backdrop(&EffectTraits { uses_backdrop: false, ..effect() }));
}

const ROOT: LogicalPoint = LogicalPoint { x: 90, y: 80 };

fn window_scene<'a>(output: &'a str, windows: &'a [WindowPlace]) -> WindowScene<'a> {
    WindowScene {
        output,
        output_geo: OUTPUT,
        output_loc: CORNER,
        root: ROOT,
        windows,
        index: 0,
        lower_layers: &[],
        lower_generation: 1,
    }
}

fn reply(fresh_id: u64) -> EffectReply {
    EffectReply { origin: CORNER, damaged: false, drawn: Some(fresh_id), shown: true }
}

#[test]
fn drawn_effects_are_shown_again() {
    let mut pictures: NameTable<ElementState> = NameTable::new();
    let scene = window_scene("DP-1", &[]);
    let item = item(effect());
    let decide = |pictures: &NameTable<ElementState>, damaged| {
        shader_backdrop_step(&scene, pictures, &item, false, CORNER, damaged)
    };
    let step = decide(&pictures, false);
    let BackdropStep::Redraw(signature) = step else {
        panic!("nothing was drawn yet");
    };
    let drawn =
        settle_shader_backdrop(&scene, &mut pictures, &item, false, step, reply(9)).unwrap();
    assert!(drawn.render_as_backdrop);
    assert_eq!((drawn.element.order, drawn.element.id, drawn.element.commit), (3, 9, 0));
    assert_eq!(drawn.element.local_rect, LogicalRect::new(10, 20, 50, 50));
    assert_eq!(drawn.element.sample_rect, LogicalRect::new(100, 100, 50, 50));
    assert!(pictures.contains("shader@DP-1@raw"));
    assert_eq!(decide(&pictures, false), BackdropStep::Reuse(drawn.element));
    assert_eq!(decide(&pictures, true), BackdropStep::Redraw(signature));
}

#[test]
fn only_windows_below_are_seen_through_an_effect() {
    let pictures: NameTable<ElementState> = NameTable::new();
    let windows = [
        window_at("above", LogicalRect::new(100, 100, 50, 50)),
        window_at("own", LogicalRect::new(100, 100, 50, 50)),
        window_at("below", LogicalRect::new(100, 100, 50, 50)),
    ];
    let decide = |windows: &[WindowPlace], index| {
        let scene = WindowScene { index, ..window_scene("DP-1", windows) };
        shader_backdrop_step(&scene, &pictures, &item(effect()), false, CORNER, false)
    };
    assert_eq!(decide(&windows, 1), decide(&windows[1..], 0));
    assert_eq!(decide(&windows, 2), decide(&[], 0));
    assert_ne!(decide(&windows, 1), decide(&windows, 2));

    let damage = |owner: &str| OwnedDamageRect {
        owner: owner.to_string(),
        rect: LogicalRect::new(0, 0, 1, 1),
    };
    let reported = [damage("above"), damage("below"), damage("own")];
    let source = SourceDamage { windows: &reported, lower_layers: &[], upper_layers: &[] };
    let scene = WindowScene { index: 1, ..window_scene("DP-1", &windows) };
    let entries = scene.damage_behind(&effect(), &source);
    assert_eq!(entries.len(), 1);
    assert_eq!(entries[0].owner, "below");
}

#[test]
fn effects_of_a_decoration_are_listed_in_order() {
    let mut pictures: NameTable<ElementState> = NameTable::new();
    let scene = window_scene("DP-1", &[]);
    let plain = EffectTraits { uses_backdrop: false, ..effect() };
    let supported = EffectTraits { supports_framebuffer_backdrop: true, ..effect() };
    let items = [
        ShaderItem { order: 7, stable_key: "a", ..item(effect()) },
        ShaderItem { order: 1, stable_key: "b", ..item(supported) },
        ShaderItem { order: 5, stable_key: "c", ..item(plain) },
        ShaderItem { order: 6, stable_key: "d", ..item(effect()) },
        ShaderItem { order: 8, stable_key: "a", ..item(effect()) },
    ];
    let mut replies = [reply(1), reply(2), reply(3), reply(4), reply(5)];
    replies[3].drawn = None;
    let shown = backdrop_shader_elements_for_window(
        &scene,
        &mut pictures,
        &items,
        &replies,
        true,
        false,
    );
    let listed: Vec<_> = shown
        .iter()
        .map(|effect| (effect.element.order, effect.element.id, effect.render_as_backdrop))
        .collect();
    assert_eq!(listed, vec![(7, 1, true), (5, 3, false), (8, 1, true)]);
    assert!(!pictures.contains("b@DP-1@raw") && !pictures.contains("d@DP-1@raw"));
    replies[0].damaged = true;
    replies[4].shown = false;
    let shown = backdrop_shader_elements_for_window(
        &scene,
        &mut pictures,
        &items,
        &replies,
        true,
        false,
    );
    let listed: Vec<_> =
        shown.iter().map(|effect| (effect.element.id, effect.element.commit)).collect();
    assert_eq!(listed, vec![(1, 1), (3, 0)]);
}

#[test]
fn effects_sample_the_picture_where_they_are_shown() {
    let area = sampled_area(
        LogicalPoint { x: 100, y: 50 },
        LogicalRect::new(5, 6, 30, 40),
        LogicalPoint { x: 90, y: 60 },
    );
    assert_eq!(
        area,
        SampledArea {
            screen: LogicalRect::new(105, 56, 30, 40),
            sample: LogicalRect::new(15, -4, 30, 40),
        }
    );
}

#[test]
fn protocol_effects_are_kept_by_output() {
    let mut pictures: NameTable<ElementState> = NameTable::new();
    let rects = [LogicalRect::new(100, 100, 50, 50), LogicalRect::new(200, 100, 50, 50)];
    let shown = configured_background_effect_elements_for_window(
        &window_scene("DP-1", &[]),
        &mut pictures,
        &rects,
        &effect(),
        "blur",
        &[reply(1), reply(2)],
    );
    let listed: Vec<_> =
        shown.iter().map(|element| (element.order, element.id, element.local_rect)).collect();
    assert_eq!(
        listed,
        vec![
            (0, 1, LogicalRect::new(10, 20, 50, 50)),
            (1, 2, LogicalRect::new(110, 20, 50, 50))
        ]
    );
    let key = output_cache_key(&protocol_stable_key(0), "DP-1");
    assert_eq!(key, "__protocol_background_effect_0@DP-1");
    assert!(pictures.contains(&key));
    let decide = |output| {
        let scene = window_scene(output, &[]);
        protocol_backdrop_step(&scene, &pictures, 0, rects[0], &effect(), "blur", false)
    };
    assert_eq!(decide("DP-1"), BackdropStep::Reuse(shown[0]));
    assert!(matches!(decide("DP-2"), BackdropStep::Redraw(_)));
}

#[test]
fn effects_have_names_of_their_own() {
    let rect = LogicalRect::new(1, 2, 30, 40);
    assert_eq!(shader_cache_key("s", "DP-1", true), "s@DP-1@visual");
    assert_eq!(shader_cache_key("s", "DP-1", false), "s@DP-1@raw");
    assert_eq!(protocol_framebuffer_key(2), "__protocol_background_effect_framebuffer_2");
    let effects = configured_background_framebuffer_effect_elements_for_window(&[rect, OUTPUT]);
    assert_eq!(effects.len(), 2);
    assert_eq!((effects[1].order, effects[1].rect), (1, OUTPUT));
    assert_eq!(effects[1].key, "__protocol_background_effect_framebuffer_1");
    assert_eq!(
        upper_layer_stable_key("DP-1", 7, rect),
        "__layer_background_effect_DP-1_7_top_30x40"
    );
    assert_eq!(
        lower_layer_stable_key("DP-1", "id", 2, rect),
        "__layer_background_effect_DP-1_id_2_30x40"
    );
    assert_eq!(upper_layer_pipeline_key("DP-1", "id", rect), "tty:layer-top:DP-1:id:30x40");
    assert_eq!(layer_framebuffer_key("DP-1", "id"), "tty:layer-top-framebuffer:DP-1:id");
    assert_eq!(window_backdrop_pipeline_key("w", "s@DP-1@raw"), "tty:window-backdrop:w:s@DP-1@raw");
    assert_eq!(protocol_pipeline_key("w", "p@DP-1"), "tty:protocol-window:w:p@DP-1");
    assert_eq!(lower_layer_pipeline_key("k"), "tty:layer-lower:k");
}

#[test]
fn layer_surfaces_prefer_their_own_effect() {
    let own = EffectSlot { effect: effect(), outsets: outsets(2) };
    let config = |behind| {
        Some(WindowEffectConfig { behind, behind_root_surface: None, in_front: None, replace: None })
    };
    assert_eq!(custom_background(&config(Some(own))), Some(own));
    let not_behind =
        EffectSlot { effect: EffectTraits { is_backdrop: false, ..effect() }, outsets: outsets(2) };
    assert_eq!(custom_background(&config(Some(not_behind))), None);
    assert_eq!(custom_background(&None), None);

    let layer_rect = Some(LogicalRect::new(10, 10, 20, 20));
    let asked = vec![LogicalRect::new(0, 0, 5, 5), LogicalRect::new(10, 0, 5, 5)];
    let plan = plan_layer_background(Some(own), None, layer_rect, asked.clone(), OUTPUT).unwrap();
    assert_eq!(plan.rects, vec![LogicalRect::new(8, 8, 24, 24)]);
    let shared =
        plan_layer_background(None, Some(effect()), layer_rect, asked.clone(), OUTPUT).unwrap();
    assert_eq!(shared.rects, asked);
    assert_eq!(shared.area.effect_rect, LogicalRect::new(0, 0, 15, 5));
    assert!(plan_layer_background(None, None, layer_rect, asked.clone(), OUTPUT).is_none());
    assert!(plan_layer_background(Some(own), None, None, asked, OUTPUT).is_none());
    assert!(plan_layer_background(None, Some(effect()), layer_rect, Vec::new(), OUTPUT).is_none());

    let supported = EffectTraits { supports_framebuffer_backdrop: true, ..effect() };
    assert_eq!(layer_background_path(None, Some(supported)), BackgroundPath::Framebuffer);
    assert_eq!(layer_background_path(Some(own), Some(supported)), BackgroundPath::Texture);
    assert_eq!(layer_background_path(None, Some(effect())), BackgroundPath::Texture);
}

#[test]
fn layer_backgrounds_are_drawn_or_shown_again() {
    let mut cache: NameTable<LayerBackdrop> = NameTable::new();
    let background = |effect: EffectTraits| LayerBackground {
        effect,
        rects: vec![LogicalRect::new(100, 100, 50, 50)],
        area: area(&effect),
    };
    let scene = layer_scene(&[], &[]);
    let decide = |cache: &NameTable<LayerBackdrop>, effect, has_input, source| {
        upper_layer_background_step(
            &scene,
            cache,
            7,
            &background(effect),
            "blur",
            has_input,
            source,
            false,
            &[11],
        )
    };
    let (taken, missing) = (Captured::Taken, Captured::Missing);
    assert!(matches!(decide(&cache, effect(), false, taken), LayerStep::Nothing));
    let sampling = EffectTraits { uses_layer_source: true, ..effect() };
    assert!(matches!(decide(&cache, sampling, true, missing), LayerStep::Nothing));
    assert!(matches!(decide(&cache, sampling, true, Captured::Failed), LayerStep::Failed));
    let LayerStep::Redraw(signature) = decide(&cache, effect(), true, missing) else {
        panic!("nothing was drawn yet");
    };
    let rects = background(effect()).rects;
    let upper = upper_layer_stable_key("DP-1", 7, rects[0]);
    let drawn = store_layer_backdrop(&mut cache, &upper, signature, 10, &rects, &[11], CORNER);
    match decide(&cache, effect(), true, Captured::Failed) {
        LayerStep::Reuse(elements) => assert_eq!(elements, drawn),
        _ => panic!("the picture can be used again"),
    }
    assert!(matches!(decide(&cache, sampling, true, taken), LayerStep::Redraw(_)));

    let lower = |cache: &NameTable<LayerBackdrop>, generation| {
        lower_layer_background_step(
            &LowerScene { output: "DP-1", output_loc: CORNER, generation },
            cache,
            "id",
            0,
            &background(effect()),
            "blur",
            false,
            &[21],
        )
    };
    let LayerStep::Redraw(signature) = lower(&cache, 1) else {
        panic!("nothing was drawn yet");
    };
    let key = lower_layer_stable_key("DP-1", "id", 0, rects[0]);
    store_layer_backdrop(&mut cache, &key, signature, 20, &rects, &[21], CORNER);
    assert!(matches!(lower(&cache, 1), LayerStep::Reuse(_)));
    assert!(matches!(lower(&cache, 2), LayerStep::Redraw(_)));
}

fn layer_scene<'a>(windows: &'a [WindowPlace], upper_layers: &'a [LayerPlace]) -> LayerScene<'a> {
    LayerScene {
        output: "DP-1",
        output_geo: OUTPUT,
        output_loc: CORNER,
        upper_layers,
        index: 0,
        windows,
        lower_layers: &[],
        lower_generation: 1,
    }
}

fn layer_reply(ids: &[u64]) -> LayerReply<'_> {
    LayerReply {
        damaged: false,
        layer_source: Captured::Missing,
        drawn: true,
        shown: true,
        fresh_id: 40,
        fresh_ids: ids,
    }
}

#[test]
fn layer_surfaces_have_an_element_for_each_rectangle() {
    let rects = vec![LogicalRect::new(100, 100, 50, 50), LogicalRect::new(160, 100, 50, 50)];
    let plan = plan_layer_background(None, Some(effect()), None, rects, OUTPUT);
    let mut cache: NameTable<LayerBackdrop> = NameTable::new();
    let mut upper = |scene: &LayerScene, has_input, reply: &LayerReply| {
        configured_background_effect_elements_for_layer(
            scene, &mut cache, 7, &plan, "blur", has_input, reply,
        )
    };
    let scene = layer_scene(&[], &[]);
    let ids = [41, 42];
    let failing = LayerReply { drawn: false, ..layer_reply(&ids) };
    assert_eq!(upper(&scene, false, &layer_reply(&ids)), Ok(Vec::new()));
    assert_eq!(upper(&scene, true, &failing), Err(LayerError::Drawing));
    let listed = |r: Result<Vec<BackdropElement>, LayerError>| -> Vec<(u64, usize)> {
        r.unwrap().iter().map(|element| (element.id, element.commit)).collect()
    };
    assert_eq!(listed(upper(&scene, true, &layer_reply(&ids))), vec![(41, 0), (42, 0)]);
    let others = [51, 52];
    assert_eq!(listed(upper(&scene, true, &layer_reply(&others))), vec![(41, 0), (42, 0)]);
    let damaged = LayerReply { damaged: true, ..layer_reply(&others) };
    assert_eq!(listed(upper(&scene, true, &damaged)), vec![(41, 1), (42, 1)]);
    let place = LayerPlace { protocol_id: 8, geometry: Some(LogicalRect::new(100, 100, 9, 9)) };
    let own = [place];
    assert_eq!(
        listed(upper(&layer_scene(&[], &own), true, &layer_reply(&others))),
        vec![(41, 1), (42, 1)]
    );
    let behind = [place, place];
    assert_eq!(
        listed(upper(&layer_scene(&[], &behind), true, &layer_reply(&others))),
        vec![(41, 2), (42, 2)]
    );
    let unshown = LayerReply { shown: false, ..layer_reply(&others) };
    assert_eq!(upper(&layer_scene(&[], &behind), true, &unshown), Err(LayerError::Drawing));

    let mut lower = |empty, snapshot, generation, reply: &LayerReply| {
        let scene = LowerScene { output: "DP-1", output_loc: CORNER, generation };
        lower_layer_background_elements(
            &scene, &mut cache, "id", 0, &plan, "blur", empty, snapshot, reply,
        )
    };
    let (taken, missing) = (Captured::Taken, Captured::Missing);
    assert_eq!(lower(true, taken, 1, &layer_reply(&ids)), Ok(Vec::new()));
    assert_eq!(lower(false, missing, 1, &layer_reply(&ids)), Err(LayerError::MissingSnapshot));
    assert_eq!(lower(false, Captured::Failed, 1, &layer_reply(&ids)), Err(LayerError::Capture));
    assert_eq!(lower(false, taken, 1, &failing), Err(LayerError::Drawing));
    assert_eq!(listed(lower(false, taken, 1, &layer_reply(&ids))), vec![(41, 0), (42, 0)]);
    assert_eq!(listed(lower(true, missing, 1, &layer_reply(&others))), vec![(41, 0), (42, 0)]);
    assert_eq!(listed(lower(false, taken, 2, &layer_reply(&others))), vec![(41, 1), (42, 1)]);
}

#[test]
fn layer_surfaces_see_the_damage_behind_them() {
    let entry = |owner: &str| OwnedDamageRect { owner: owner.to_string(), rect: OUTPUT };
    let owners = |entries: Vec<OwnedDamageRect>| -> Vec<String> {
        entries.into_iter().map(|entry| entry.owner).collect()
    };
    let place = |protocol_id| LayerPlace { protocol_id, geometry: None };
    let layers = [place(1), place(2), place(3)];
    let damage = [entry("3"), entry("2"), entry("1"), entry("4")];
    assert_eq!(owners(lower_layer_damage(&layers, 0, &damage)), vec!["3", "2"]);
    assert_eq!(owners(lower_layer_damage(&layers, 2, &damage)), Vec::<String>::new());

    let windows = [window_at("w", OUTPUT)];
    let window_damage = [entry("w"), entry("gone")];
    let source =
        SourceDamage { windows: &window_damage, lower_layers: &damage, upper_layers: &damage };
    let below = [place(4)];
    let scene = LayerScene { lower_layers: &below, index: 1, ..layer_scene(&windows, &layers) };
    assert_eq!(owners(scene.damage_behind(&effect(), &source)), vec!["w", "4", "3"]);
    let xray = EffectTraits { uses_backdrop: false, uses_xray: true, ..effect() };
    assert_eq!(owners(scene.damage_behind(&xray, &source)), vec!["4"]);
}

#[test]
fn captures_below_the_windows_can_be_missing() {
    let plain = EffectTraits { uses_backdrop: false, ..effect() };
    let sampling = EffectTraits { uses_layer_source: true, ..effect() };
    let (taken, missing, failed) = (Captured::Taken, Captured::Missing, Captured::Failed);
    assert_eq!(lower_layer_capture(&effect(), true, failed, taken), LowerCapture::Skip);
    assert_eq!(lower_layer_capture(&effect(), false, missing, taken), LowerCapture::MissingSnapshot);
    assert_eq!(lower_layer_capture(&effect(), false, failed, taken), LowerCapture::Failed);
    assert_eq!(lower_layer_capture(&sampling, false, taken, missing), LowerCapture::Skip);
    assert_eq!(lower_layer_capture(&sampling, false, taken, failed), LowerCapture::Failed);
    assert_eq!(lower_layer_capture(&plain, false, taken, missing), LowerCapture::MissingSnapshot);
    assert_eq!(lower_layer_capture(&effect(), false, taken, failed), LowerCapture::Ready);
}
