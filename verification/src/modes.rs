//! Display modes of a connector and the choice among them.

use vstd::prelude::*;

verus! {

/// The timing of one mode that a connector offers.
#[derive(Clone, Copy, Debug, PartialEq, Eq, Structural)]
pub struct DrmMode {
    pub width: u16,
    pub height: u16,
    /// Pixel clock in kilohertz.
    pub clock: u32,
    pub htotal: u16,
    pub vtotal: u16,
    pub vscan: u16,
    /// Refresh rate in hertz, as the kernel reports it.
    pub vrefresh: u32,
    pub interlaced: bool,
    pub double_scan: bool,
    /// The native timing of the panel.
    pub preferred: bool,
}

/// A mode as clients see it. The refresh rate is in millihertz.
#[derive(Clone, Copy, Debug, PartialEq, Eq, Structural)]
pub struct WlMode {
    pub width: i32,
    pub height: i32,
    pub refresh: i32,
}

/// The mode that the configuration asks for.
#[derive(Clone, Copy, Debug, PartialEq, Eq, Structural)]
pub enum DisplayModePreference {
    Auto,
    Exact { width: u16, height: u16, refresh_mhz: Option<i32> },
}

impl DrmMode {
    /// Both totals are set, so the timing describes a refresh rate.
    pub open spec fn is_timed(self) -> bool {
        self.htotal > 0 && self.vtotal > 0
    }

    /// Frames per thousand seconds, rounded to the nearest; two fields of an interlaced
    /// mode count as two frames, and each of the lines of a doubled or repeated scan
    /// counts for the frame it repeats.
    pub open spec fn millihertz(self) -> nat {
        let progressive = ((self.clock as nat * 1000000) / (self.htotal as nat) + (self.vtotal as nat)
            / 2) / (self.vtotal as nat);
        let fields = if self.interlaced {
            progressive * 2
        } else {
            progressive
        };
        let scans = if self.double_scan {
            fields / 2
        } else {
            fields
        };
        if self.vscan > 1 {
            scans / (self.vscan as nat)
        } else {
            scans
        }
    }

    pub open spec fn as_wl_mode(self) -> WlMode {
        WlMode {
            width: self.width as i32,
            height: self.height as i32,
            refresh: self.millihertz() as u64 as i32,
        }
    }

    pub fn wl_mode(&self) -> (mode: WlMode)
        requires
            self.is_timed(),
        ensures
            mode == self.as_wl_mode(),
    {
        let clock: u64 = self.clock as u64 * 1000000;
        let htotal: u64 = self.htotal as u64;
        let vtotal: u64 = self.vtotal as u64;
        let lines: u64 = clock / htotal;
        proof {
            vstd::arithmetic::div_mod::lemma_div_is_ordered_by_denominator(
                clock as int,
                1,
                htotal as int,
            );
            assert(lines <= clock);
        }
        let mut refresh: u64 = (lines + vtotal / 2) / vtotal;
        proof {
            vstd::arithmetic::div_mod::lemma_div_is_ordered_by_denominator(
                lines + vtotal / 2,
                1,
                vtotal as int,
            );
            assert(refresh <= lines + vtotal / 2);
        }
        if self.interlaced {
            refresh = refresh * 2;
        }
        if self.double_scan {
            refresh = refresh / 2;
        }
        if self.vscan > 1 {
            refresh = refresh / self.vscan as u64;
        }
        WlMode { width: self.width as i32, height: self.height as i32, refresh: refresh as i32 }
    }
}

/// `a` ranks strictly below `b` when no particular mode was asked for. The native mode
/// of the panel comes before any other, whatever the size of the other; then the larger
/// area decides, then the higher refresh rate in hertz, then in millihertz.
pub open spec fn auto_below(a: DrmMode, b: DrmMode) -> bool {
    let a_area = a.width * a.height;
    let b_area = b.width * b.height;
    if a.preferred != b.preferred {
        b.preferred
    } else if a_area != b_area {
        a_area < b_area
    } else {
        rate_below(a, b)
    }
}

/// `a` refreshes less often than `b`.
pub open spec fn rate_below(a: DrmMode, b: DrmMode) -> bool {
    if a.vrefresh != b.vrefresh {
        a.vrefresh < b.vrefresh
    } else {
        a.as_wl_mode().refresh < b.as_wl_mode().refresh
    }
}

pub open spec fn has_size(mode: DrmMode, width: u16, height: u16) -> bool {
    mode.width == width && mode.height == height
}

pub open spec fn offers_size(modes: Seq<DrmMode>, width: u16, height: u16) -> bool {
    exists|j: int| 0 <= j < modes.len() && has_size(#[trigger] modes[j], width, height)
}

/// How far the refresh rate of `mode` is from `refresh_mhz`.
pub open spec fn rate_distance(mode: DrmMode, refresh_mhz: i32) -> int {
    let d = mode.as_wl_mode().refresh - refresh_mhz;
    if d < 0 {
        -d
    } else {
        d
    }
}

/// The last of the highest-ranking modes.
pub open spec fn is_auto_choice(modes: Seq<DrmMode>, i: int) -> bool {
    &&& 0 <= i < modes.len()
    &&& forall|j: int|
        0 <= j < modes.len() ==> !auto_below(modes[i], #[trigger] modes[j]) && (i < j ==> auto_below(
            modes[j],
            modes[i],
        ))
}

/// The last of the fastest modes of the given size.
pub open spec fn is_fastest_of_size(modes: Seq<DrmMode>, width: u16, height: u16, i: int) -> bool {
    &&& 0 <= i < modes.len()
    &&& has_size(modes[i], width, height)
    &&& forall|j: int|
        0 <= j < modes.len() && has_size(#[trigger] modes[j], width, height) ==> !rate_below(
            modes[i],
            modes[j],
        ) && (i < j ==> rate_below(modes[j], modes[i]))
}

/// The first of the modes of the given size whose rate is nearest to `refresh_mhz`.
pub open spec fn is_nearest_of_size(
    modes: Seq<DrmMode>,
    width: u16,
    height: u16,
    refresh_mhz: i32,
    i: int,
) -> bool {
    &&& 0 <= i < modes.len()
    &&& has_size(modes[i], width, height)
    &&& forall|j: int|
        0 <= j < modes.len() && has_size(#[trigger] modes[j], width, height) ==> rate_distance(
            modes[i],
            refresh_mhz,
        ) <= rate_distance(modes[j], refresh_mhz) && (j < i ==> rate_distance(
            modes[i],
            refresh_mhz,
        ) < rate_distance(modes[j], refresh_mhz))
}

/// The mode at `i` is the one that `preference` selects. An exact size that the
/// connector does not offer is treated as no preference.
pub open spec fn is_selected(
    modes: Seq<DrmMode>,
    preference: DisplayModePreference,
    i: int,
) -> bool {
    match preference {
        DisplayModePreference::Auto => is_auto_choice(modes, i),
        DisplayModePreference::Exact { width, height, refresh_mhz } => if offers_size(
            modes,
            width,
            height,
        ) {
            match refresh_mhz {
                Some(rate) => is_nearest_of_size(modes, width, height, rate, i),
                None => is_fastest_of_size(modes, width, height, i),
            }
        } else {
            is_auto_choice(modes, i)
        },
    }
}

pub open spec fn all_timed(modes: Seq<DrmMode>) -> bool {
    forall|i: int| 0 <= i < modes.len() ==> (#[trigger] modes[i]).is_timed()
}

/// Every mode of the given size has a refresh rate.
pub open spec fn size_timed(modes: Seq<DrmMode>, width: u16, height: u16) -> bool {
    forall|i: int|
        0 <= i < modes.len() && has_size(#[trigger] modes[i], width, height) ==> modes[i].is_timed()
}

/// The modes among which `preference` chooses have refresh rates.
pub open spec fn candidates_timed(
    modes: Seq<DrmMode>,
    preference: DisplayModePreference,
) -> bool {
    match preference {
        DisplayModePreference::Auto => all_timed(modes),
        DisplayModePreference::Exact { width, height, .. } => if offers_size(modes, width, height) {
            size_timed(modes, width, height)
        } else {
            all_timed(modes)
        },
    }
}

fn ranks_rate_below(a: &DrmMode, b: &DrmMode) -> (r: bool)
    requires
        a.is_timed(),
        b.is_timed(),
    ensures
        r == rate_below(*a, *b),
{
    if a.vrefresh != b.vrefresh {
        a.vrefresh < b.vrefresh
    } else {
        a.wl_mode().refresh < b.wl_mode().refresh
    }
}

fn ranks_auto_below(a: &DrmMode, b: &DrmMode) -> (r: bool)
    requires
        a.is_timed(),
        b.is_timed(),
    ensures
        r == auto_below(*a, *b),
{
    proof {
        assert(a.width * a.height <= 0xffff * 0xffff) by (nonlinear_arith)
            requires
                a.width <= 0xffff,
                a.height <= 0xffff,
        ;
        assert(b.width * b.height <= 0xffff * 0xffff) by (nonlinear_arith)
            requires
                b.width <= 0xffff,
                b.height <= 0xffff,
        ;
        assert(0 <= a.width * a.height && 0 <= b.width * b.height) by (nonlinear_arith);
    }
    let a_area: i64 = a.width as i64 * a.height as i64;
    let b_area: i64 = b.width as i64 * b.height as i64;
    if a.preferred != b.preferred {
        b.preferred
    } else if a_area != b_area {
        a_area < b_area
    } else {
        ranks_rate_below(a, b)
    }
}

fn auto_choice(modes: &[DrmMode]) -> (best: usize)
    requires
        modes@.len() > 0,
        all_timed(modes@),
    ensures
        is_auto_choice(modes@, best as int),
{
    let mut best: usize = 0;
    let mut index: usize = 1;
    while index < modes.len()
        invariant
            best < index <= modes@.len(),
            all_timed(modes@),
            forall|j: int|
                0 <= j < index ==> !auto_below(modes@[best as int], #[trigger] modes@[j]) && (best < j
                    ==> auto_below(modes@[j], modes@[best as int])),
        decreases modes@.len() - index,
    {
        if !ranks_auto_below(&modes[index], &modes[best]) {
            best = index;
        }
        index += 1;
    }
    best
}

fn fastest_of_size(modes: &[DrmMode], width: u16, height: u16) -> (best: Option<usize>)
    requires
        size_timed(modes@, width, height),
    ensures
        best is None <==> !offers_size(modes@, width, height),
        best is Some ==> is_fastest_of_size(modes@, width, height, best->0 as int),
{
    let mut best: Option<usize> = None;
    let mut index: usize = 0;
    while index < modes.len()
        invariant
            index <= modes@.len(),
            size_timed(modes@, width, height),
            best is None ==> forall|j: int|
                0 <= j < index ==> !has_size(#[trigger] modes@[j], width, height),
            best is Some ==> best->0 < index && has_size(modes@[best->0 as int], width, height)
                && forall|j: int|
                0 <= j < index && has_size(#[trigger] modes@[j], width, height) ==> !rate_below(
                    modes@[best->0 as int],
                    modes@[j],
                ) && (best->0 < j ==> rate_below(modes@[j], modes@[best->0 as int])),
        decreases modes@.len() - index,
    {
        if modes[index].width == width && modes[index].height == height {
            match best {
                None => {
                    best = Some(index);
                },
                Some(leader) => {
                    if !ranks_rate_below(&modes[index], &modes[leader]) {
                        best = Some(index);
                    }
                },
            }
        }
        index += 1;
    }
    best
}

fn distance_from_rate(mode: &DrmMode, refresh_mhz: i32) -> (d: i64)
    requires
        mode.is_timed(),
    ensures
        d == rate_distance(*mode, refresh_mhz),
{
    let d: i64 = mode.wl_mode().refresh as i64 - refresh_mhz as i64;
    if d < 0 {
        -d
    } else {
        d
    }
}

fn nearest_of_size(modes: &[DrmMode], width: u16, height: u16, refresh_mhz: i32) -> (best: Option<
    usize,
>)
    requires
        size_timed(modes@, width, height),
    ensures
        best is None <==> !offers_size(modes@, width, height),
        best is Some ==> is_nearest_of_size(modes@, width, height, refresh_mhz, best->0 as int),
{
    let mut best: Option<usize> = None;
    let mut index: usize = 0;
    while index < modes.len()
        invariant
            index <= modes@.len(),
            size_timed(modes@, width, height),
            best is None ==> forall|j: int|
                0 <= j < index ==> !has_size(#[trigger] modes@[j], width, height),
            best is Some ==> best->0 < index && has_size(modes@[best->0 as int], width, height)
                && forall|j: int|
                0 <= j < index && has_size(#[trigger] modes@[j], width, height) ==> rate_distance(
                    modes@[best->0 as int],
                    refresh_mhz,
                ) <= rate_distance(modes@[j], refresh_mhz) && (j < best->0 ==> rate_distance(
                    modes@[best->0 as int],
                    refresh_mhz,
                ) < rate_distance(modes@[j], refresh_mhz)),
        decreases modes@.len() - index,
    {
        if modes[index].width == width && modes[index].height == height {
            match best {
                None => {
                    best = Some(index);
                },
                Some(leader) => {
                    if distance_from_rate(&modes[index], refresh_mhz) < distance_from_rate(
                        &modes[leader],
                        refresh_mhz,
                    ) {
                        best = Some(index);
                    }
                },
            }
        }
        index += 1;
    }
    best
}

/// The mode to drive a connector with.
pub fn select_output_mode(modes: &[DrmMode], preference: &DisplayModePreference) -> (mode: DrmMode)
    requires
        modes@.len() > 0,
        candidates_timed(modes@, *preference),
    ensures
        exists|i: int| is_selected(modes@, *preference, i) && mode == #[trigger] modes@[i],
{
    let choice: Option<usize> = match preference {
        DisplayModePreference::Auto => None,
        DisplayModePreference::Exact { width, height, refresh_mhz } => match refresh_mhz {
            Some(rate) => nearest_of_size(modes, *width, *height, *rate),
            None => fastest_of_size(modes, *width, *height),
        },
    };
    let index: usize = match choice {
        Some(index) => index,
        None => auto_choice(modes),
    };
    assert(is_selected(modes@, *preference, index as int));
    modes[index]
}

/// At most one mode is selected, so the choice is the same on every run.
pub proof fn law_selection_is_unique(
    modes: Seq<DrmMode>,
    preference: DisplayModePreference,
    i: int,
    j: int,
)
    requires
        is_selected(modes, preference, i),
        is_selected(modes, preference, j),
    ensures
        i == j,
{
    let a = modes[i];
    let b = modes[j];
    match preference {
        DisplayModePreference::Auto => {
            assert(!auto_below(a, b) && !auto_below(b, a));
        },
        DisplayModePreference::Exact { width, height, refresh_mhz } => {
            if has_size(a, width, height) {
                match refresh_mhz {
                    Some(rate) => {
                        assert(rate_distance(a, rate) == rate_distance(b, rate));
                    },
                    None => {
                        assert(!rate_below(a, b) && !rate_below(b, a));
                    },
                }
            } else {
                assert(!auto_below(a, b) && !auto_below(b, a));
            }
        },
    }
}

/// When the panel has a native mode and no exact size is asked for, a native mode is
/// selected, however large the other modes are.
pub proof fn law_native_mode_wins(modes: Seq<DrmMode>, i: int, native: int)
    requires
        is_selected(modes, DisplayModePreference::Auto, i),
        0 <= native < modes.len(),
        modes[native].preferred,
    ensures
        modes[i].preferred,
{
}

pub open spec fn absolute(n: int) -> int {
    if n < 0 {
        -n
    } else {
        n
    }
}

/// Among the modes of the size that was asked for, no other is nearer to the rate that was
/// asked for, and of two that are equally near, one above and one below perhaps, the first is
/// taken.
pub proof fn law_the_nearest_rate_is_selected(
    modes: &[DrmMode],
    preference: &DisplayModePreference,
    width: u16,
    height: u16,
    rate: i32,
    mode: DrmMode,
    j: int,
)
    requires
        call_ensures(select_output_mode, (modes, preference), mode),
        *preference == (DisplayModePreference::Exact { width, height, refresh_mhz: Some(rate) }),
        0 <= j < modes@.len(),
        modes@[j].width == width,
        modes@[j].height == height,
    ensures
        mode.width == width,
        mode.height == height,
        modes@.contains(mode),
        absolute(mode.as_wl_mode().refresh - rate) <= absolute(
            modes@[j].as_wl_mode().refresh - rate,
        ),
        // A mode with the very rate is never passed over.
        modes@[j].as_wl_mode().refresh == rate ==> mode.as_wl_mode().refresh == rate,
        exists|i: int|
            0 <= i < modes@.len() && #[trigger] modes@[i] == mode && (j < i ==> absolute(
                mode.as_wl_mode().refresh - rate,
            ) < absolute(modes@[j].as_wl_mode().refresh - rate)),
{
    assert(has_size(modes@[j], width, height));
    assert(offers_size(modes@, width, height));
    let i = choose|i: int| is_selected(modes@, *preference, i) && mode == #[trigger] modes@[i];
    assert(is_nearest_of_size(modes@, width, height, rate, i));
    assert(modes@[i] == mode);
}

/// The distance of a rate counts alike above and below, and grows with the difference.
pub proof fn law_rate_distance_is_symmetric(a: DrmMode, b: DrmMode, rate: i32, d: int, e: int)
    requires
        0 <= d,
        0 <= e,
        a.as_wl_mode().refresh == rate + d || a.as_wl_mode().refresh == rate - d,
        b.as_wl_mode().refresh == rate + e || b.as_wl_mode().refresh == rate - e,
    ensures
        rate_distance(a, rate) == d,
        d == e ==> rate_distance(a, rate) == rate_distance(b, rate),
        d < e ==> rate_distance(a, rate) < rate_distance(b, rate),
{
}

/// Among the modes of the size that was asked for without a rate, no other refreshes more
/// often, in hertz and then in millihertz, and of equal ones the last is taken.
pub proof fn law_the_fastest_rate_is_selected(
    modes: &[DrmMode],
    preference: &DisplayModePreference,
    width: u16,
    height: u16,
    mode: DrmMode,
    j: int,
)
    requires
        call_ensures(select_output_mode, (modes, preference), mode),
        *preference == (DisplayModePreference::Exact { width, height, refresh_mhz: None }),
        0 <= j < modes@.len(),
        modes@[j].width == width,
        modes@[j].height == height,
    ensures
        mode.width == width,
        mode.height == height,
        modes@.contains(mode),
        mode.vrefresh >= modes@[j].vrefresh,
        mode.vrefresh == modes@[j].vrefresh ==> mode.as_wl_mode().refresh
            >= modes@[j].as_wl_mode().refresh,
        exists|i: int|
            0 <= i < modes@.len() && #[trigger] modes@[i] == mode && (i < j ==> mode.vrefresh
                > modes@[j].vrefresh || mode.as_wl_mode().refresh > modes@[j].as_wl_mode().refresh),
{
    assert(has_size(modes@[j], width, height));
    assert(offers_size(modes@, width, height));
    let i = choose|i: int| is_selected(modes@, *preference, i) && mode == #[trigger] modes@[i];
    assert(is_fastest_of_size(modes@, width, height, i));
    assert(modes@[i] == mode);
}

/// Without a size, or with one that is not offered, the native mode of the panel is taken, else
/// the one with the most pixels, else the one that refreshes most often, else the last.
pub proof fn law_the_best_mode_is_selected(
    modes: &[DrmMode],
    preference: &DisplayModePreference,
    mode: DrmMode,
    j: int,
)
    requires
        call_ensures(select_output_mode, (modes, preference), mode),
        match *preference {
            DisplayModePreference::Auto => true,
            DisplayModePreference::Exact { width, height, .. } => forall|k: int|
                0 <= k < modes@.len() ==> (#[trigger] modes@[k]).width != width
                    || modes@[k].height != height,
        },
        0 <= j < modes@.len(),
    ensures
        modes@.contains(mode),
        modes@[j].preferred ==> mode.preferred,
        modes@[j].preferred == mode.preferred ==> {
            &&& mode.width * mode.height >= modes@[j].width * modes@[j].height
            &&& mode.width * mode.height == modes@[j].width * modes@[j].height ==> {
                &&& mode.vrefresh >= modes@[j].vrefresh
                &&& mode.vrefresh == modes@[j].vrefresh ==> mode.as_wl_mode().refresh
                    >= modes@[j].as_wl_mode().refresh
            }
        },
        exists|i: int|
            0 <= i < modes@.len() && #[trigger] modes@[i] == mode && (i < j && modes@[j].preferred
                == mode.preferred && modes@[j].width * modes@[j].height == mode.width * mode.height
                && modes@[j].vrefresh == mode.vrefresh ==> modes@[j].as_wl_mode().refresh
                < mode.as_wl_mode().refresh),
{
    let i = choose|i: int| is_selected(modes@, *preference, i) && mode == #[trigger] modes@[i];
    assert(is_auto_choice(modes@, i));
    assert(!auto_below(modes@[i], modes@[j]));
    assert(modes@[i] == mode);
}

/// The rate that clients see is that of the timing: lines per second over the lines of a frame,
/// to the nearest millihertz. Two fields make an interlaced frame, a doubled scan halves the
/// rate, and a scan that is repeated divides it.
pub proof fn law_refresh_rate_of_a_timing(mode: &DrmMode, shown: WlMode)
    requires
        mode.is_timed(),
        call_ensures(DrmMode::wl_mode, (mode,), shown),
    ensures
        shown.width == mode.width,
        shown.height == mode.height,
        mode.millihertz() <= i32::MAX ==> shown.refresh == mode.millihertz(),
        !mode.interlaced && !mode.double_scan && mode.vscan <= 1 ==> {
            let lines = (mode.clock * 1000000) / (mode.htotal as int);
            &&& 2 * (mode.millihertz() * mode.vtotal) <= 2 * lines + mode.vtotal
            &&& 2 * lines < 2 * (mode.millihertz() * mode.vtotal) + mode.vtotal + 2
        },
        mode.millihertz() == ({
            let plain = DrmMode { interlaced: false, double_scan: false, vscan: 0, ..*mode };
            let fields: int = if mode.interlaced {
                2 * (plain.millihertz() as int)
            } else {
                plain.millihertz() as int
            };
            let scans: int = if mode.double_scan {
                fields / 2
            } else {
                fields
            };
            if mode.vscan > 1 {
                scans / (mode.vscan as int)
            } else {
                scans
            }
        }),
{
    let v = mode.vtotal as int;
    let lines = (mode.clock * 1000000) / (mode.htotal as int);
    let q = (lines + v / 2) / v;
    vstd::arithmetic::div_mod::lemma_fundamental_div_mod(lines + v / 2, v);
    vstd::arithmetic::div_mod::lemma_mod_bound(lines + v / 2, v);
    assert(v * q == q * v) by (nonlinear_arith);
    assert(mode.clock as nat * 1000000 == mode.clock * 1000000);
    assert(lines >= 0) by {
        vstd::arithmetic::div_mod::lemma_div_pos_is_pos(
            mode.clock * 1000000,
            mode.htotal as int,
        );
    }
    let fields: int = if mode.interlaced {
        q * 2
    } else {
        q
    };
    assert(q >= 0) by {
        vstd::arithmetic::div_mod::lemma_div_pos_is_pos(lines + v / 2, v);
    }
    let scans: int = if mode.double_scan {
        fields / 2
    } else {
        fields
    };
    if mode.vscan > 1 {
        vstd::arithmetic::div_mod::lemma_div_is_ordered_by_denominator(
            scans,
            1,
            mode.vscan as int,
        );
    }
    assert(mode.millihertz() <= i32::MAX ==> mode.millihertz() as u64 as i32
        == mode.millihertz());
}

} // verus!
