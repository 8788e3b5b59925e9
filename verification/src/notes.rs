//! What is logged, and how often.

use crate::table::{self, NameTable};
use crate::timing::{self, Nanos};
use vstd::prelude::*;
use vstd::string::*;

verus! {

/// Whether the value of an environment variable switches something on: it is set, not
/// empty and not a single zero.
pub fn flag_enabled(value: Option<&[u8]>) -> (enabled: bool)
    ensures
        enabled == (value matches Some(bytes) && bytes@.len() > 0 && bytes@ != seq![48u8]),
{
    match value {
        None => false,
        Some(bytes) => {
            if bytes.len() == 0 {
                return false;
            }
            if bytes.len() == 1 && bytes[0] == 48 {
                assert(bytes@ =~= seq![48u8]);
                return false;
            }
            proof {
                if bytes@.len() == 1 {
                    assert(bytes@[0] != 48);
                    assert(seq![48u8][0] == 48);
                }
            }
            true
        },
    }
}

/// The code of a character once an ASCII capital is made small.
pub open spec fn small_code(c: char) -> u32 {
    if 'A' <= c <= 'Z' {
        (c as u32 + 32) as u32
    } else {
        c as u32
    }
}

/// `needle` occurs in `text` at `at`, whatever the case of the ASCII letters of `text`.
pub open spec fn occurs_at(text: Seq<char>, needle: Seq<char>, at: int) -> bool {
    &&& 0 <= at
    &&& at + needle.len() <= text.len()
    &&& forall|i: int|
        0 <= i < needle.len() ==> small_code(#[trigger] text[at + i]) == needle[i] as u32
}

pub open spec fn occurs_in(text: Seq<char>, needle: Seq<char>) -> bool {
    exists|at: int| #[trigger] occurs_at(text, needle, at)
}

fn code_of(c: char) -> (code: u32)
    ensures
        code == small_code(c),
{
    if 'A' <= c && c <= 'Z' {
        c as u32 + 32
    } else {
        c as u32
    }
}

fn matches_at(text: &str, needle: &str, at: usize, text_len: usize, needle_len: usize) -> (r: bool)
    requires
        text_len == text@.len(),
        needle_len == needle@.len(),
        at + needle_len <= text_len,
    ensures
        r == occurs_at(text@, needle@, at as int),
{
    let mut index: usize = 0;
    while index < needle_len
        invariant
            text_len == text@.len(),
            needle_len == needle@.len(),
            at + needle_len <= text_len,
            index <= needle_len,
            forall|i: int| 0 <= i < index ==> small_code(#[trigger] text@[at + i]) == needle@[i] as u32,
        decreases needle_len - index,
    {
        if code_of(text.get_char(at + index)) != needle.get_char(index) as u32 {
            assert(small_code(text@[at + index as int]) != needle@[index as int] as u32);
            return false;
        }
        index += 1;
    }
    true
}

fn contains_text(text: &str, needle: &str) -> (r: bool)
    ensures
        r == occurs_in(text@, needle@),
{
    let text_len: usize = text.unicode_len();
    let needle_len: usize = needle.unicode_len();
    if needle_len > text_len {
        return false;
    }
    let mut at: usize = 0;
    while at <= text_len - needle_len
        invariant
            text_len == text@.len(),
            needle_len == needle@.len(),
            needle_len <= text_len,
            at <= text_len - needle_len + 1,
            forall|i: int| 0 <= i < at ==> !#[trigger] occurs_at(text@, needle@, i),
        decreases text_len - needle_len + 1 - at,
    {
        if matches_at(text, needle, at, text_len, needle_len) {
            return true;
        }
        if at == text_len - needle_len {
            return false;
        }
        at += 1;
    }
    false
}

/// The class names a browser of the Chrome family.
pub open spec fn is_chrome_class(class: Seq<char>) -> bool {
    occurs_in(class, "chrome"@) || occurs_in(class, "chromium"@)
}

/// Whether a window of the X server on the output belongs to a browser of the Chrome
/// family. `None` stands for a window that is not of the X server.
pub fn output_has_visible_x11_chrome(classes: &[Option<String>]) -> (r: bool)
    ensures
        r == exists|i: int|
            0 <= i < classes@.len() && (#[trigger] classes@[i]) is Some && is_chrome_class(
                classes@[i]->0@,
            ),
{
    let mut index: usize = 0;
    while index < classes.len()
        invariant
            index <= classes@.len(),
            forall|i: int|
                0 <= i < index ==> !((#[trigger] classes@[i]) is Some && is_chrome_class(
                    classes@[i]->0@,
                )),
        decreases classes@.len() - index,
    {
        match &classes[index] {
            Some(class) => {
                if contains_text(class.as_str(), "chromium") || contains_text(
                    class.as_str(),
                    "chrome",
                ) {
                    assert(classes@[index as int] is Some && is_chrome_class(
                        classes@[index as int]->0@,
                    ));
                    return true;
                }
            },
            None => {},
        }
        index += 1;
    }
    false
}

/// Whether the video player mpv has a window on the output.
pub fn output_has_visible_mpv(app_ids: &[Option<String>]) -> (r: bool)
    ensures
        r == exists|i: int|
            0 <= i < app_ids@.len() && (#[trigger] app_ids@[i]) is Some && app_ids@[i]->0@ == "mpv"@,
{
    let mut index: usize = 0;
    while index < app_ids.len()
        invariant
            index <= app_ids@.len(),
            forall|i: int|
                0 <= i < index ==> !((#[trigger] app_ids@[i]) is Some && app_ids@[i]->0@ == "mpv"@),
        decreases app_ids@.len() - index,
    {
        match &app_ids[index] {
            Some(id) => {
                if table::str_eq(id.as_str(), "mpv") {
                    assert(app_ids@[index as int] is Some && app_ids@[index as int]->0@ == "mpv"@);
                    return true;
                }
            },
            None => {},
        }
        index += 1;
    }
    false
}

/// Logging is due: nothing was logged yet, or at least `interval` has passed since.
pub open spec fn log_is_due(last: Option<Nanos>, now: Nanos, interval: Nanos) -> bool {
    last matches Some(last) ==> timing::span_between(now, last) >= interval
}

/// The table of the last times once something may have been logged.
pub open spec fn logged_at(
    times: Map<Seq<char>, Nanos>,
    key: Seq<char>,
    now: Nanos,
    allowed: bool,
) -> Map<Seq<char>, Nanos> {
    if allowed {
        times.insert(key, now)
    } else {
        times
    }
}

fn log_allowed(times: &mut NameTable<Nanos>, key: &str, now: Nanos, interval: Nanos) -> (allowed:
    bool)
    ensures
        allowed == log_is_due(table::lookup(old(times)@, key@), now, interval),
        final(times)@ == logged_at(old(times)@, key@, now, allowed),
{
    let due: bool = match times.get(key) {
        None => true,
        Some(last) => timing::elapsed_between(now, last) >= interval,
    };
    if due {
        let _ = times.insert(key, now);
    }
    due
}

pub const SCANOUT_LOG_INTERVAL: u128 = 1000000000;

pub const BROWSER_LOG_INTERVAL: u128 = 250000000;

pub const CLIP_LOG_INTERVAL: u128 = 250000000;

/// Whether the result of a fullscreen frame of the output may be logged: at most once a
/// second.
pub fn direct_scanout_debug_log_allowed(
    last_logged: &mut NameTable<Nanos>,
    output_name: &str,
    now: Nanos,
) -> (allowed: bool)
    ensures
        allowed == log_is_due(
            table::lookup(old(last_logged)@, output_name@),
            now,
            SCANOUT_LOG_INTERVAL,
        ),
        final(last_logged)@ == logged_at(old(last_logged)@, output_name@, now, allowed),
{
    log_allowed(last_logged, output_name, now, SCANOUT_LOG_INTERVAL)
}

/// Whether the cost of a frame with a browser window may be logged: at most four times a
/// second, and only when that is switched on.
pub fn browser_cpu_debug_allowed(
    enabled: bool,
    last_logged: &mut NameTable<Nanos>,
    output_name: &str,
    now: Nanos,
) -> (allowed: bool)
    ensures
        allowed == (enabled && log_is_due(
            table::lookup(old(last_logged)@, output_name@),
            now,
            BROWSER_LOG_INTERVAL,
        )),
        final(last_logged)@ == logged_at(old(last_logged)@, output_name@, now, allowed),
{
    if !enabled {
        return false;
    }
    log_allowed(last_logged, output_name, now, BROWSER_LOG_INTERVAL)
}

pub open spec fn is_watched_browser(app_id: Option<&str>) -> bool {
    app_id matches Some(id) && (id@ == "firefox"@ || id@ == "google-chrome"@)
}

/// Whether the surfaces that were chosen for clipping may be logged: at most four times a
/// second for each root surface, for two browsers, and only when that is switched on.
pub fn clip_selection_debug_allowed(
    enabled: bool,
    last_logged: &mut NameTable<Nanos>,
    root_key: &str,
    app_id: Option<&str>,
    now: Nanos,
) -> (allowed: bool)
    ensures
        allowed == (enabled && is_watched_browser(app_id) && log_is_due(
            table::lookup(old(last_logged)@, root_key@),
            now,
            CLIP_LOG_INTERVAL,
        )),
        final(last_logged)@ == logged_at(old(last_logged)@, root_key@, now, allowed),
{
    if !enabled {
        return false;
    }
    let watched: bool = match app_id {
        Some(id) => table::str_eq(id, "firefox") || table::str_eq(id, "google-chrome"),
        None => false,
    };
    if !watched {
        return false;
    }
    log_allowed(last_logged, root_key, now, CLIP_LOG_INTERVAL)
}

/// Once something was logged, nothing more is logged under the same key until the
/// interval has passed, and other keys are not affected.
pub proof fn law_logs_are_spaced(
    times: Map<Seq<char>, Nanos>,
    key: Seq<char>,
    other: Seq<char>,
    first: Nanos,
    second: Nanos,
    interval: Nanos,
)
    ensures
        ({
            let after = logged_at(times, key, first, true);
            &&& log_is_due(table::lookup(after, key), second, interval) <==> timing::span_between(
                second,
                first,
            ) >= interval
            &&& other != key ==> table::lookup(after, other) == table::lookup(times, other)
        }),
{
}

/// The time since the last event of this kind and key, which is then replaced by `now`.
/// `None` for the first one.
pub fn record_animation_gap(
    times: &mut NameTable<Nanos>,
    label: &str,
    key: &str,
    now: Nanos,
) -> (gap: Option<Nanos>)
    ensures
        ({
            let slot = label@ + table::colon() + key@;
            &&& final(times)@ == old(times)@.insert(slot, now)
            &&& gap == (match table::lookup(old(times)@, slot) {
                Some(previous) => Some(timing::span_between(now, previous)),
                None => None,
            })
        }),
{
    let slot: String = table::colon_key(label, key);
    match times.insert(slot.as_str(), now) {
        Some(previous) => Some(timing::elapsed_between(now, previous)),
        None => None,
    }
}

/// Stores what the current frame shows under `key` and returns what the frame before it
/// showed.
pub fn previous_frame_state<T: Copy>(states: &mut NameTable<T>, key: &str, current: T) -> (previous:
    Option<T>)
    ensures
        final(states)@ == old(states)@.insert(key@, current),
        previous == table::lookup(old(states)@, key@),
{
    states.insert(key, current)
}

/// Stores the transform that a window has on an output and returns the one it had there in
/// the frame before. Each output remembers its own.
pub fn previous_snapshot_visual_transform<T: Copy>(
    transforms: &mut NameTable<T>,
    snapshot_id: &str,
    output_name: &str,
    current: T,
) -> (previous: Option<T>)
    ensures
        ({
            let slot = snapshot_id@ + table::colon() + output_name@;
            &&& final(transforms)@ == old(transforms)@.insert(slot, current)
            &&& previous == table::lookup(old(transforms)@, slot)
        }),
{
    let slot: String = table::colon_key(snapshot_id, output_name);
    transforms.insert(slot.as_str(), current)
}

/// A state of an output that is logged when it changes.
#[derive(Clone, Copy, Debug, PartialEq, Eq, Structural)]
pub enum Transition {
    Unchanged,
    Engaged,
    Disengaged,
}

pub open spec fn transition_from(previous: Option<bool>, active: bool) -> Transition {
    if previous == Some(active) {
        Transition::Unchanged
    } else if active {
        Transition::Engaged
    } else {
        Transition::Disengaged
    }
}

fn note_transition(states: &mut NameTable<bool>, output_name: &str, active: bool) -> (change:
    Transition)
    ensures
        final(states)@ == old(states)@.insert(output_name@, active),
        change == transition_from(table::lookup(old(states)@, output_name@), active),
{
    let known: Option<bool> = states.insert(output_name, active);
    match known {
        Some(was_active) => {
            if was_active == active {
                return Transition::Unchanged;
            }
        },
        None => {},
    }
    if active {
        Transition::Engaged
    } else {
        Transition::Disengaged
    }
}

/// Nothing is known yet of which outputs show a client's buffer directly.
pub fn direct_scanout_state_map() -> (states: NameTable<bool>)
    ensures
        states@ == Map::<Seq<char>, bool>::empty(),
{
    NameTable::new()
}

/// Nothing is known yet of which outputs are on the fast path for fullscreen windows.
pub fn fullscreen_fast_path_state_map() -> (states: NameTable<bool>)
    ensures
        states@ == Map::<Seq<char>, bool>::empty(),
{
    NameTable::new()
}

/// Nothing is known yet of which outputs tear.
pub fn tearing_state_map() -> (states: NameTable<bool>)
    ensures
        states@ == Map::<Seq<char>, bool>::empty(),
{
    NameTable::new()
}

/// Notes whether the output is on the fast path for fullscreen windows, and tells what to
/// log.
pub fn note_fullscreen_fast_path_transition(
    states: &mut NameTable<bool>,
    output_name: &str,
    active: bool,
) -> (change: Transition)
    ensures
        final(states)@ == old(states)@.insert(output_name@, active),
        change == transition_from(table::lookup(old(states)@, output_name@), active),
{
    note_transition(states, output_name, active)
}

/// Notes whether a client's buffer is shown directly on the output, and tells what to log.
pub fn note_direct_scanout_transition(
    states: &mut NameTable<bool>,
    output_name: &str,
    active: bool,
) -> (change: Transition)
    ensures
        final(states)@ == old(states)@.insert(output_name@, active),
        change == transition_from(table::lookup(old(states)@, output_name@), active),
{
    note_transition(states, output_name, active)
}

/// Notes whether frames of the output tear, and tells what to log.
pub fn note_tearing_transition(
    states: &mut NameTable<bool>,
    output_name: &str,
    active: bool,
) -> (change: Transition)
    ensures
        final(states)@ == old(states)@.insert(output_name@, active),
        change == transition_from(table::lookup(old(states)@, output_name@), active),
{
    note_transition(states, output_name, active)
}

/// How many lines are logged when an output is in the given states one after the other.
pub open spec fn lines_logged(history: Seq<bool>) -> nat
    decreases history.len(),
{
    if history.len() == 0 {
        0
    } else {
        let previous = if history.len() == 1 {
            None
        } else {
            Some(history[history.len() - 2])
        };
        lines_logged(history.drop_last()) + (if transition_from(previous, history.last())
            == Transition::Unchanged {
            0nat
        } else {
            1nat
        })
    }
}

/// An output that stays in one state is logged once, however many frames it stays there.
pub proof fn law_steady_outputs_log_once(history: Seq<bool>)
    requires
        history.len() > 0,
        forall|i: int| 0 <= i < history.len() ==> #[trigger] history[i] == history[0],
    ensures
        lines_logged(history) == 1,
    decreases history.len(),
{
    if history.len() == 1 {
        assert(lines_logged(history.drop_last()) == 0);
    } else {
        let init = history.drop_last();
        assert(init[0] == history[0]);
        assert forall|i: int| 0 <= i < init.len() implies #[trigger] init[i] == init[0] by {
            assert(init[i] == history[i]);
        }
        law_steady_outputs_log_once(init);
        assert(history[history.len() - 2] == history[0]);
        assert(history.last() == history[history.len() - 1]);
    }
}

/// How many frames of an output were shown since a point in time.
#[derive(Clone, Copy, Debug, PartialEq, Eq, Structural)]
pub struct PresentCount {
    pub presents: u32,
    pub since: Nanos,
}

/// Frames that were shown within a span of at least a second.
#[derive(Clone, Copy, Debug, PartialEq, Eq, Structural)]
pub struct PresentRate {
    pub presents: u32,
    pub window: Nanos,
}

/// Nothing has been shown yet.
pub fn present_rate_state_map() -> (counts: NameTable<PresentCount>)
    ensures
        counts@ == Map::<Seq<char>, PresentCount>::empty(),
{
    NameTable::new()
}

/// The count once a frame was shown at `now`.
pub open spec fn counted(known: Option<PresentCount>, now: Nanos) -> PresentCount {
    match known {
        Some(count) => PresentCount { presents: (count.presents + 1) as u32, since: count.since },
        None => PresentCount { presents: 1, since: now },
    }
}

/// Counts a frame that was shown on the output. Once a second has passed since the count
/// began, the count is returned and begins anew.
pub fn note_present_rate(
    enabled: bool,
    counts: &mut NameTable<PresentCount>,
    output_name: &str,
    now: Nanos,
) -> (rate: Option<PresentRate>)
    requires
        enabled ==> (table::lookup(old(counts)@, output_name@) matches Some(count)
            ==> count.presents < u32::MAX),
    ensures
        !enabled ==> rate is None && final(counts)@ == old(counts)@,
        enabled ==> ({
            let count = counted(table::lookup(old(counts)@, output_name@), now);
            let window = timing::span_between(now, count.since);
            if window >= timing::NANOS_PER_SECOND {
                &&& rate == Some(PresentRate { presents: count.presents, window })
                &&& final(counts)@ == old(counts)@.insert(
                    output_name@,
                    PresentCount { presents: 0, since: now },
                )
            } else {
                &&& rate is None
                &&& final(counts)@ == old(counts)@.insert(output_name@, count)
            }
        }),
{
    if !enabled {
        return None;
    }
    let count: PresentCount = match counts.get(output_name) {
        Some(count) => PresentCount { presents: count.presents + 1, since: count.since },
        None => PresentCount { presents: 1, since: now },
    };
    let window: Nanos = timing::elapsed_between(now, count.since);
    if window >= timing::NANOS_PER_SECOND {
        let _ = counts.insert(output_name, PresentCount { presents: 0, since: now });
        Some(PresentRate { presents: count.presents, window })
    } else {
        let _ = counts.insert(output_name, count);
        None
    }
}

/// A variable switches something on unless it is missing, empty or a single zero.
pub proof fn law_flags(value: Option<&[u8]>, enabled: bool)
    requires
        call_ensures(flag_enabled, (value,), enabled),
    ensures
        value is None ==> !enabled,
        value is Some && value->0@.len() == 0 ==> !enabled,
        value is Some && value->0@.len() == 1 && value->0@[0] == 48 ==> !enabled,
        value is Some && value->0@.len() == 1 && value->0@[0] != 48 ==> enabled,
        value is Some && value->0@.len() > 1 ==> enabled,
{
    if value is Some && value->0@.len() == 1 && value->0@[0] == 48 {
        assert(value->0@ =~= seq![48u8]);
    }
    if value is Some && value->0@ == seq![48u8] {
        assert(value->0@.len() == 1 && value->0@[0] == 48);
    }
}

/// A browser of the Chrome family is found at whatever place of the list it is, and wherever
/// its name stands in the class, whatever the case of its letters.
pub proof fn law_chrome_windows_are_found(
    classes: &[Option<String>],
    r: bool,
    i: int,
    at: int,
)
    requires
        call_ensures(output_has_visible_x11_chrome, (classes,), r),
    ensures
        0 <= i < classes@.len() && classes@[i] is Some && 0 <= at && at + 6
            <= classes@[i]->0@.len() && (forall|k: int|
            0 <= k < 6 ==> small_code(#[trigger] classes@[i]->0@[at + k]) == "chrome"@[k] as u32)
            ==> r,
        (forall|k: int| 0 <= k < classes@.len() ==> #[trigger] classes@[k] is None) ==> !r,
{
    reveal_strlit("chrome");
    if 0 <= i < classes@.len() && classes@[i] is Some && 0 <= at && at + 6 <= classes@[i]->0@.len()
        && (forall|k: int|
        0 <= k < 6 ==> small_code(#[trigger] classes@[i]->0@[at + k]) == "chrome"@[k] as u32) {
        assert(occurs_at(classes@[i]->0@, "chrome"@, at));
        assert(is_chrome_class(classes@[i]->0@));
    }
}

/// The case of a letter makes no difference, and nothing but a letter is changed.
pub proof fn law_small_letters(c: char)
    ensures
        'A' <= c <= 'Z' ==> small_code(c) == c as int + ('a' as int - 'A' as int),
        !('A' <= c <= 'Z') ==> small_code(c) == c as int,
{
}

/// The video player is found at whatever place of the list it is, and nothing else is taken for
/// it.
pub proof fn law_mpv_windows_are_found(app_ids: &[Option<String>], r: bool, i: int)
    requires
        call_ensures(output_has_visible_mpv, (app_ids,), r),
    ensures
        0 <= i < app_ids@.len() && app_ids@[i] is Some && app_ids@[i]->0@ == "mpv"@ ==> r,
        (forall|k: int|
            0 <= k < app_ids@.len() && (#[trigger] app_ids@[k]) is Some ==> app_ids@[k]->0@
                != "mpv"@) ==> !r,
{
}

/// Results of fullscreen frames are logged at once the first time, and then when a second has
/// passed since they were logged last on this output. What was not logged does not count.
pub proof fn law_scanout_logs(
    last_logged: &mut NameTable<Nanos>,
    output_name: &str,
    now: Nanos,
    allowed: bool,
    other: Seq<char>,
)
    requires
        call_ensures(direct_scanout_debug_log_allowed, (last_logged, output_name, now), allowed),
    ensures
        !old(last_logged)@.contains_key(output_name@) ==> allowed,
        old(last_logged)@.contains_key(output_name@) ==> (allowed <==> now >= old(
            last_logged)@[output_name@] + 1000000000),
        allowed ==> final(last_logged)@.contains_key(output_name@) && final(
            last_logged)@[output_name@] == now,
        !allowed ==> final(last_logged)@ == old(last_logged)@,
        other != output_name@ ==> final(last_logged)@.contains_key(other) == old(
            last_logged)@.contains_key(other) && final(last_logged)@[other] == old(
            last_logged)@[other],
{
}

/// The cost of frames with a browser is logged only if that is switched on, and then four times
/// a second at most.
pub proof fn law_browser_logs(
    enabled: bool,
    last_logged: &mut NameTable<Nanos>,
    output_name: &str,
    now: Nanos,
    allowed: bool,
)
    requires
        call_ensures(browser_cpu_debug_allowed, (enabled, last_logged, output_name, now), allowed),
    ensures
        !enabled ==> !allowed,
        enabled && !old(last_logged)@.contains_key(output_name@) ==> allowed,
        enabled && old(last_logged)@.contains_key(output_name@) ==> (allowed <==> now >= old(
            last_logged)@[output_name@] + 250000000),
        allowed ==> final(last_logged)@ == old(last_logged)@.insert(output_name@, now),
        !allowed ==> final(last_logged)@ == old(last_logged)@,
{
}

/// Clipped surfaces are logged only if that is switched on, for two browsers, and then four
/// times a second at most for each root surface.
pub proof fn law_clip_logs(
    enabled: bool,
    last_logged: &mut NameTable<Nanos>,
    root_key: &str,
    app_id: Option<&str>,
    now: Nanos,
    allowed: bool,
)
    requires
        call_ensures(
            clip_selection_debug_allowed,
            (enabled, last_logged, root_key, app_id, now),
            allowed,
        ),
    ensures
        !enabled ==> !allowed,
        app_id is None ==> !allowed,
        app_id is Some && app_id->0@ != "firefox"@ && app_id->0@ != "google-chrome"@ ==> !allowed,
        enabled && app_id is Some && (app_id->0@ == "firefox"@ || app_id->0@ == "google-chrome"@)
            ==> {
            &&& !old(last_logged)@.contains_key(root_key@) ==> allowed
            &&& old(last_logged)@.contains_key(root_key@) ==> (allowed <==> now >= old(
                last_logged)@[root_key@] + 250000000)
        },
        allowed ==> final(last_logged)@ == old(last_logged)@.insert(root_key@, now),
        !allowed ==> final(last_logged)@ == old(last_logged)@,
{
}

/// The gap between two events is the time that has passed since the one before of the same kind
/// and key; the first has none.
pub proof fn law_gaps_between_events(
    first: &mut NameTable<Nanos>,
    second: &mut NameTable<Nanos>,
    label: &str,
    key: &str,
    start: Nanos,
    end: Nanos,
    a: Option<Nanos>,
    b: Option<Nanos>,
)
    requires
        call_ensures(record_animation_gap, (first, label, key, start), a),
        call_ensures(record_animation_gap, (second, label, key, end), b),
    ensures
        old(first)@ == Map::<Seq<char>, Nanos>::empty() ==> a is None,
        final(first)@ == old(second)@ && start <= end ==> b is Some && start + b->0 == end,
        final(first)@ == old(second)@ && end < start ==> b == Some(0u128),
{
}

/// What a frame shows is what the next one finds to have been shown before.
pub proof fn law_frames_remember_the_one_before<T: Copy>(
    first: &mut NameTable<T>,
    second: &mut NameTable<T>,
    key: &str,
    one: T,
    two: T,
    a: Option<T>,
    b: Option<T>,
    other: Seq<char>,
)
    requires
        call_ensures(previous_frame_state::<T>, (first, key, one), a),
        call_ensures(previous_frame_state::<T>, (second, key, two), b),
    ensures
        !old(first)@.contains_key(key@) ==> a is None,
        old(first)@.contains_key(key@) ==> a == Some(old(first)@[key@]),
        final(first)@ == old(second)@ ==> b == Some(one),
        other != key@ ==> final(first)@.contains_key(other) == old(first)@.contains_key(other)
            && final(first)@[other] == old(first)@[other],
{
}

/// The transform of a window in the frame before is found again on the same output, and a window
/// that is new there has none.
pub proof fn law_outputs_remember_transforms<T: Copy>(
    first: &mut NameTable<T>,
    second: &mut NameTable<T>,
    id: &str,
    output: &str,
    other_output: &str,
    one: T,
    two: T,
    a: Option<T>,
    b: Option<T>,
)
    requires
        call_ensures(previous_snapshot_visual_transform::<T>, (first, id, output, one), a),
        call_ensures(previous_snapshot_visual_transform::<T>, (second, id, other_output, two), b),
    ensures
        old(first)@ == Map::<Seq<char>, T>::empty() ==> a is None,
        final(first)@ == old(second)@ && output@ == other_output@ ==> b == Some(one),
        final(first)@ == old(second)@ && output@ != other_output@ && old(first)@ == Map::<
            Seq<char>,
            T,
        >::empty() ==> b is None,
{
    if output@ != other_output@ {
        let x = id@ + table::colon() + output@;
        let y = id@ + table::colon() + other_output@;
        if x == y {
            let n = (id@.len() + 1) as int;
            assert(x.skip(n) =~= output@);
            assert(y.skip(n) =~= other_output@);
        }
    }
}

/// The fast path for fullscreen windows is logged exactly if the state is another than the one noted last; it is
/// noted in any case, for this output alone.
pub proof fn law_note_fullscreen_fast_path_transition(
    states: &mut NameTable<bool>,
    output_name: &str,
    active: bool,
    change: Transition,
    other: Seq<char>,
)
    requires
        call_ensures(note_fullscreen_fast_path_transition, (states, output_name, active), change),
    ensures
        old(states)@.contains_key(output_name@) && old(states)@[output_name@] == active ==> change
            == Transition::Unchanged,
        !(old(states)@.contains_key(output_name@) && old(states)@[output_name@] == active)
            && active ==> change == Transition::Engaged,
        !(old(states)@.contains_key(output_name@) && old(states)@[output_name@] == active)
            && !active ==> change == Transition::Disengaged,
        final(states)@.contains_key(output_name@) && final(states)@[output_name@] == active,
        other != output_name@ ==> final(states)@.contains_key(other) == old(
            states)@.contains_key(other) && final(states)@[other] == old(states)@[other],
{
}

/// Showing a buffer directly is logged exactly if the state is another than the one noted last; it is
/// noted in any case, for this output alone.
pub proof fn law_note_direct_scanout_transition(
    states: &mut NameTable<bool>,
    output_name: &str,
    active: bool,
    change: Transition,
    other: Seq<char>,
)
    requires
        call_ensures(note_direct_scanout_transition, (states, output_name, active), change),
    ensures
        old(states)@.contains_key(output_name@) && old(states)@[output_name@] == active ==> change
            == Transition::Unchanged,
        !(old(states)@.contains_key(output_name@) && old(states)@[output_name@] == active)
            && active ==> change == Transition::Engaged,
        !(old(states)@.contains_key(output_name@) && old(states)@[output_name@] == active)
            && !active ==> change == Transition::Disengaged,
        final(states)@.contains_key(output_name@) && final(states)@[output_name@] == active,
        other != output_name@ ==> final(states)@.contains_key(other) == old(
            states)@.contains_key(other) && final(states)@[other] == old(states)@[other],
{
}

/// Tearing is logged exactly if the state is another than the one noted last; it is
/// noted in any case, for this output alone.
pub proof fn law_note_tearing_transition(
    states: &mut NameTable<bool>,
    output_name: &str,
    active: bool,
    change: Transition,
    other: Seq<char>,
)
    requires
        call_ensures(note_tearing_transition, (states, output_name, active), change),
    ensures
        old(states)@.contains_key(output_name@) && old(states)@[output_name@] == active ==> change
            == Transition::Unchanged,
        !(old(states)@.contains_key(output_name@) && old(states)@[output_name@] == active)
            && active ==> change == Transition::Engaged,
        !(old(states)@.contains_key(output_name@) && old(states)@[output_name@] == active)
            && !active ==> change == Transition::Disengaged,
        final(states)@.contains_key(output_name@) && final(states)@[output_name@] == active,
        other != output_name@ ==> final(states)@.contains_key(other) == old(
            states)@.contains_key(other) && final(states)@[other] == old(states)@[other],
{
}

/// Frames are counted until a second has passed since the count began; then the count and the
/// time that it took are reported, and the next one begins. Nothing is counted unless that is
/// switched on.
pub proof fn law_frame_rates(
    enabled: bool,
    counts: &mut NameTable<PresentCount>,
    output_name: &str,
    now: Nanos,
    rate: Option<PresentRate>,
    other: Seq<char>,
)
    requires
        call_ensures(note_present_rate, (enabled, counts, output_name, now), rate),
        old(counts)@.contains_key(output_name@) ==> old(counts)@[output_name@].presents < u32::MAX,
    ensures
        !enabled ==> rate is None && final(counts)@ == old(counts)@,
        enabled && !old(counts)@.contains_key(output_name@) ==> rate is None && final(
            counts)@.contains_key(output_name@) && final(counts)@[output_name@].presents == 1
            && final(counts)@[output_name@].since == now,
        enabled && old(counts)@.contains_key(output_name@) ==> (rate is Some <==> now >= old(
            counts)@[output_name@].since + 1000000000),
        enabled && rate is Some ==> rate->0.presents == old(counts)@[output_name@].presents + 1
            && old(counts)@[output_name@].since + rate->0.window == now && final(
            counts)@[output_name@].presents == 0 && final(counts)@[output_name@].since == now,
        enabled && old(counts)@.contains_key(output_name@) && rate is None ==> final(
            counts)@[output_name@].presents == old(counts)@[output_name@].presents + 1 && final(
            counts)@[output_name@].since == old(counts)@[output_name@].since,
        other != output_name@ ==> final(counts)@.contains_key(other) == old(
            counts)@.contains_key(other) && final(counts)@[other] == old(counts)@[other],
{
}

/// Nothing is known at first.
pub proof fn law_nothing_is_known_at_first(
    scanout: NameTable<bool>,
    fast_path: NameTable<bool>,
    tearing: NameTable<bool>,
    counts: NameTable<PresentCount>,
    name: Seq<char>,
)
    requires
        call_ensures(direct_scanout_state_map, (), scanout),
        call_ensures(fullscreen_fast_path_state_map, (), fast_path),
        call_ensures(tearing_state_map, (), tearing),
        call_ensures(present_rate_state_map, (), counts),
    ensures
        !scanout@.contains_key(name),
        !fast_path@.contains_key(name),
        !tearing@.contains_key(name),
        !counts@.contains_key(name),
{
}

} // verus!
