//! What a key press does to the switcher, and how fast a held key repeats.

use vstd::prelude::*;
use crate::gdbus::GdbusCall;
use crate::text::{chars_of, control, is_control};
use crate::window_switcher::{
    is_filter_result, labels_fit, matcher_facts, next_index, prev_index, WindowSwitcherState,
};

verus! {

/// The keys the switcher tells apart.
pub enum KeyInput {
    Escape,
    Down,
    Up,
    Return,
    BackSpace,
    /// Any other key; what it types, if anything, comes with it.
    Other,
}

/// What the key press asks of the program around the switcher.
pub struct KeyOutcome {
    /// The program should close.
    pub exit: bool,
    /// A call that focuses the chosen window.
    pub activation: Option<GdbusCall>,
}

/// `a` and `b` hold the same windows, filtered list, selection, scroll and query.
pub open spec fn same_state(a: &WindowSwitcherState, b: &WindowSwitcherState) -> bool {
    &&& a.windows == b.windows
    &&& a.filtered_windows == b.filtered_windows
    &&& a.selection_index == b.selection_index
    &&& a.scroll_offset == b.scroll_offset
    &&& a.query == b.query
}

/// `b` is `a` with the selection moved to `sel`.
pub open spec fn moved_to(a: &WindowSwitcherState, b: &WindowSwitcherState, sel: int) -> bool {
    &&& a.windows == b.windows
    &&& a.filtered_windows == b.filtered_windows
    &&& b.selection_index == sel
    &&& a.scroll_offset == b.scroll_offset
    &&& a.query == b.query
}

/// `b` is `a` with the query replaced by `query` and the list filtered anew.
pub open spec fn requeried(a: &WindowSwitcherState, b: &WindowSwitcherState, query: Seq<char>) -> bool {
    &&& b.windows == a.windows
    &&& b.query@ == query
    &&& is_filter_result(b.windows@, query, b.entries())
    &&& (query.len() > 0 ==> matcher_facts(b.windows@, query))
    &&& b.selection_index == 0
    &&& b.scroll_offset == 0
    &&& b.wf()
}

/// Some character of `s` is a control character.
pub open spec fn has_control(s: Seq<char>) -> bool {
    exists|i: int| 0 <= i < s.len() && is_control(#[trigger] s[i])
}

/// Whether the text holds a control character.
pub fn contains_control(text: &str) -> (r: bool)
    ensures
        r == has_control(text@),
{
    let v = chars_of(text);
    let mut i: usize = 0;
    while i < v.len()
        invariant
            i <= v.len(),
            v@ == text@,
            forall|j: int| 0 <= j < i ==> !is_control(#[trigger] v@[j]),
        decreases v.len() - i,
    {
        if control(v[i]) {
            return true;
        }
        i = i + 1;
    }
    false
}

/// Applies a key press: Escape closes; Down and Up move the selection with
/// wrap-around; Return asks to focus the selected window and closes;
/// BackSpace deletes the last query character; any other key that types
/// text without control characters appends it to the query.
pub fn handle_key_action(state: &mut WindowSwitcherState, key: KeyInput, utf8: Option<String>) -> (out: KeyOutcome)
    requires
        key is Down && old(state).filtered_windows.len() > 0 ==> old(state).selection_index < usize::MAX,
        key is BackSpace && old(state).query@.len() > 1 ==> labels_fit(old(state).windows@),
        key is Other && utf8 is Some && !has_control(utf8->Some_0@) && (old(state).query@
            + utf8->Some_0@).len() > 0 ==> labels_fit(old(state).windows@),
    ensures
        match key {
            KeyInput::Escape => same_state(final(state), old(state)) && out.exit && out.activation is None,
            KeyInput::Down => {
                &&& moved_to(old(state), final(state), if old(state).filtered_windows.len() == 0 {
                    old(state).selection_index as int
                } else {
                    next_index(old(state).selection_index as int, old(state).filtered_windows.len() as int)
                })
                &&& !out.exit
                &&& out.activation is None
            },
            KeyInput::Up => {
                &&& moved_to(old(state), final(state), if old(state).filtered_windows.len() == 0 {
                    old(state).selection_index as int
                } else {
                    prev_index(old(state).selection_index as int, old(state).filtered_windows.len() as int)
                })
                &&& !out.exit
                &&& out.activation is None
            },
            KeyInput::Return => {
                &&& same_state(final(state), old(state))
                &&& out.exit
                &&& (out.activation is Some <==> old(state).selected() is Some)
                &&& (old(state).selected() matches Some(w) ==> {
                    &&& out.activation->Some_0.method@ == crate::gdbus::activate_method()
                    &&& out.activation->Some_0.arg is Some
                    &&& out.activation->Some_0.arg->Some_0@ == crate::gdbus::decimal(w.id as int)
                })
            },
            KeyInput::BackSpace => {
                &&& requeried(old(state), final(state), if old(state).query@.len() > 0 {
                    old(state).query@.drop_last()
                } else {
                    old(state).query@
                })
                &&& !out.exit
                &&& out.activation is None
            },
            KeyInput::Other => {
                &&& match utf8 {
                    Some(t) => if has_control(t@) {
                        same_state(final(state), old(state))
                    } else {
                        requeried(old(state), final(state), old(state).query@ + t@)
                    },
                    None => same_state(final(state), old(state)),
                }
                &&& !out.exit
                &&& out.activation is None
            },
        },
{
    match key {
        KeyInput::Escape => KeyOutcome { exit: true, activation: None },
        KeyInput::Down => {
            state.next();
            KeyOutcome { exit: false, activation: None }
        },
        KeyInput::Up => {
            state.prev();
            KeyOutcome { exit: false, activation: None }
        },
        KeyInput::Return => {
            let activation = state.activate();
            KeyOutcome { exit: true, activation }
        },
        KeyInput::BackSpace => {
            state.backspace();
            KeyOutcome { exit: false, activation: None }
        },
        KeyInput::Other => {
            match &utf8 {
                Some(t) => {
                    if !contains_control(t.as_str()) {
                        state.input_text(t.as_str());
                    }
                },
                None => {},
            }
            KeyOutcome { exit: false, activation: None }
        },
    }
}

/// Milliseconds between repeats of a held key at `rate` repeats per second;
/// 200 when the rate is zero.
pub fn repeat_period_ms(rate: u32) -> (ms: u64)
    ensures
        ms == (if rate > 0 {
            1000int / (rate as int)
        } else {
            200int
        }),
{
    if rate > 0 {
        1000 / rate as u64
    } else {
        200
    }
}

/// A request to the key-repeat machinery, naming a key by its keysym.
pub enum RepeatEvent {
    /// A key went down and should repeat.
    Start(u32),
    /// A key went up.
    Stop(u32),
}

/// What the event loop does about key repeat after an event.
pub struct RepeatStep {
    /// The key that repeats afterwards, if any.
    pub running: Option<u32>,
    /// Cancel the repeat timer that runs now.
    pub cancel_running: bool,
    /// Start a repeat timer for the new key.
    pub start_new: bool,
}

/// The key-repeat bookkeeping: a start replaces whatever repeats (cancelling
/// its timer) with the new key; a stop ends the repeat only when it names
/// the repeating key.
pub fn repeat_step(running: Option<u32>, event: RepeatEvent) -> (step: RepeatStep)
    ensures
        match event {
            RepeatEvent::Start(key) => {
                &&& step.running == Some(key)
                &&& step.cancel_running == running is Some
                &&& step.start_new
            },
            RepeatEvent::Stop(key) => if running == Some(key) {
                &&& step.running is None
                &&& step.cancel_running
                &&& !step.start_new
            } else {
                &&& step.running == running
                &&& !step.cancel_running
                &&& !step.start_new
            },
        },
{
    match event {
        RepeatEvent::Start(key) => RepeatStep {
            running: Some(key),
            cancel_running: running.is_some(),
            start_new: true,
        },
        RepeatEvent::Stop(key) => {
            let matches_key = match running {
                Some(current) => current == key,
                None => false,
            };
            if matches_key {
                RepeatStep { running: None, cancel_running: true, start_new: false }
            } else {
                RepeatStep { running, cancel_running: false, start_new: false }
            }
        },
    }
}

} // verus!
