//! The window switcher's state: the listed windows, the ones that match the
//! query in ranked order, the selection and the scroll position.

use vstd::prelude::*;
use crate::fuzzy::{
    clangd_fuzzy_indices, fuzzy_match_indices, is_fuzzy_subsequence, positions_rise_within,
    MAX_MATCH_TEXT_CHARS,
};
use crate::gdbus::{activate_method, activate_window, decimal, GdbusCall};
use crate::text::{chars_of, string_from_chars};

verus! {

/// A window as the GNOME Shell window extension reports it.
#[derive(Debug, Clone)]
pub struct GnomeWindow {
    pub id: i64,
    pub title: String,
    pub wm_class: String,
    pub pid: i32,
}

pub struct WindowSwitcherState {
    /// All windows retrieved from the backend
    pub windows: Vec<GnomeWindow>,
    /// Indices into `windows` that match the current query, along with matched character indices
    pub filtered_windows: Vec<(usize, Vec<usize>)>,
    /// Index into `filtered_windows` for the currently selected item
    pub selection_index: usize,
    /// Offset for scrolling the window list
    pub scroll_offset: usize,
    /// Current search query string
    pub query: String,
}

/// The text a window is shown and searched by: `"{wm_class} - {title}"`.
pub open spec fn window_label(w: GnomeWindow) -> Seq<char> {
    w.wm_class@ + seq![' ', '-', ' '] + w.title@
}

/// Whether a window belongs to a process other than `pid`.
pub open spec fn not_of_process(pid: i32) -> spec_fn(GnomeWindow) -> bool {
    |w: GnomeWindow| w.pid != pid
}

/// The matcher's answer for the query searched in a window's label.
pub open spec fn window_match(w: GnomeWindow, query: Seq<char>) -> Option<(i64, Seq<usize>)> {
    clangd_fuzzy_indices(window_label(w), query)
}

/// The score of a window that matches the query.
pub open spec fn match_score(w: GnomeWindow, query: Seq<char>) -> i64 {
    window_match(w, query)->Some_0.0
}

/// Window `i` is listed before window `j`: it scores higher, or it scores
/// the same and comes first in the window list.
pub open spec fn ranks_before(windows: Seq<GnomeWindow>, query: Seq<char>, i: int, j: int) -> bool {
    let si = match_score(windows[i], query);
    let sj = match_score(windows[j], query);
    si > sj || (si == sj && i < j)
}

/// The filtered list as plain values: window index and matched positions.
pub open spec fn entries_view(f: Seq<(usize, Vec<usize>)>) -> Seq<(usize, Seq<usize>)> {
    Seq::new(f.len(), |k: int| (f[k].0, f[k].1@))
}

/// `out` is the filtered list for `windows` and `query`: with an empty query
/// every window in list order with no highlighted characters; otherwise
/// exactly the windows that match, each once with the matched positions,
/// ranked by descending score and, among equal scores, in list order.
pub open spec fn is_filter_result(
    windows: Seq<GnomeWindow>,
    query: Seq<char>,
    out: Seq<(usize, Seq<usize>)>,
) -> bool {
    if query.len() == 0 {
        out == Seq::new(windows.len(), |i: int| (i as usize, Seq::<usize>::empty()))
    } else {
        &&& forall|k: int|
            #![trigger out[k]]
            0 <= k < out.len() ==> {
                &&& out[k].0 < windows.len()
                &&& window_match(windows[out[k].0 as int], query) == Some(
                    (match_score(windows[out[k].0 as int], query), out[k].1),
                )
            }
        &&& forall|i: int|
            0 <= i < windows.len() && (#[trigger] window_match(windows[i], query)) is Some
                ==> exists|k: int| 0 <= k < out.len() && out[k].0 == i
        &&& forall|k: int, l: int|
            #![trigger out[k], out[l]]
            0 <= k < l < out.len() ==> ranks_before(windows, query, out[k].0 as int, out[l].0 as int)
    }
}

/// The selection after moving down: the next item, or the first after the last.
pub open spec fn next_index(sel: int, len: int) -> int {
    if sel + 1 < len {
        sel + 1
    } else {
        0
    }
}

/// The selection after moving up: the previous item, or the last before the first.
pub open spec fn prev_index(sel: int, len: int) -> int {
    if sel > 0 {
        sel - 1
    } else {
        len - 1
    }
}

/// The scroll offset that `ensure_visible` leaves for a list of `len` items,
/// selection `sel`, offset `off` and `max` items in view.
pub open spec fn visible_offset(len: int, sel: int, off: int, max: int) -> int {
    if len == 0 {
        0
    } else {
        let o = if sel < off {
            sel
        } else if sel >= off + max {
            sel + 1 - max
        } else {
            off
        };
        if o > len {
            0
        } else {
            o
        }
    }
}

/// The inputs on which `ensure_visible` cannot compute its offset in `usize`.
pub open spec fn visible_offset_overflows(len: int, sel: int, off: int, max: int) -> bool {
    len > 0 && sel >= off && (off + max > usize::MAX || (sel >= off + max && sel + 1
        > usize::MAX))
}

/// Every window's label is short enough to hand to the matcher.
pub open spec fn labels_fit(windows: Seq<GnomeWindow>) -> bool {
    forall|i: int|
        0 <= i < windows.len() ==> #[trigger] window_label(windows[i]).len()
            <= MAX_MATCH_TEXT_CHARS
}

/// What the matcher's source shows of its answers for these windows and
/// this query: a window matches exactly when the query is a
/// case-insensitive subsequence of its label, and the matched positions
/// rise strictly inside the label.
pub open spec fn matcher_facts(windows: Seq<GnomeWindow>, query: Seq<char>) -> bool {
    forall|i: int|
        0 <= i < windows.len() ==> {
            &&& (#[trigger] window_match(windows[i], query) is Some <==> is_fuzzy_subsequence(
                window_label(windows[i]),
                query,
            ))
            &&& (window_match(windows[i], query) is Some ==> positions_rise_within(
                window_match(windows[i], query)->Some_0.1,
                window_label(windows[i]).len() as int,
            ))
        }
}

/// Whether every window's label is short enough for the matcher.
pub fn windows_fit_matcher(windows: &Vec<GnomeWindow>) -> (ok: bool)
    ensures
        ok == labels_fit(windows@),
{
    let mut i: usize = 0;
    while i < windows.len()
        invariant
            i <= windows.len(),
            forall|j: int|
                0 <= j < i ==> #[trigger] window_label(windows@[j]).len()
                    <= MAX_MATCH_TEXT_CHARS,
        decreases windows.len() - i,
    {
        let label = item_label(&windows[i]);
        let chars = chars_of(label.as_str());
        if chars.len() > MAX_MATCH_TEXT_CHARS {
            return false;
        }
        i = i + 1;
    }
    true
}

/// The text a window is listed and searched by, `"{wm_class} - {title}"`.
pub fn item_label(w: &GnomeWindow) -> (s: String)
    ensures
        s@ == window_label(*w),
{
    let class = chars_of(w.wm_class.as_str());
    let title = chars_of(w.title.as_str());
    let mut v: Vec<char> = Vec::new();
    let mut k: usize = 0;
    while k < class.len()
        invariant
            k <= class.len(),
            v@ == class@.take(k as int),
        decreases class.len() - k,
    {
        v.push(class[k]);
        assert(class@.take(k + 1) == class@.take(k as int).push(class@[k as int]));
        k = k + 1;
    }
    v.push(' ');
    v.push('-');
    v.push(' ');
    let ghost head = v@;
    k = 0;
    while k < title.len()
        invariant
            k <= title.len(),
            v@ == head + title@.take(k as int),
        decreases title.len() - k,
    {
        v.push(title[k]);
        assert(title@.take(k + 1) == title@.take(k as int).push(title@[k as int]));
        k = k + 1;
    }
    assert(class@.take(class.len() as int) == class@);
    assert(title@.take(title.len() as int) == title@);
    string_from_chars(&v)
}

/// Entries `k` and `l` are in ranking order: higher score first, then lower window index.
spec fn ranked_pair(scores: Seq<i64>, out: Seq<(usize, Vec<usize>)>, k: int, l: int) -> bool {
    scores[k] > scores[l] || (scores[k] == scores[l] && out[k].0 < out[l].0)
}

spec fn ranked(scores: Seq<i64>, out: Seq<(usize, Vec<usize>)>) -> bool {
    forall|k: int, l: int| 0 <= k < l < out.len() ==> #[trigger] ranked_pair(scores, out, k, l)
}

/// The first position in a list of descending scores whose score is below
/// `score`: where a new entry goes after all entries that score at least as much.
fn insertion_point(scores: &Vec<i64>, score: i64) -> (p: usize)
    ensures
        p <= scores.len(),
        forall|k: int| 0 <= k < p ==> scores@[k] >= score,
        p < scores.len() ==> scores@[p as int] < score,
{
    let mut p: usize = 0;
    while p < scores.len() && scores[p] >= score
        invariant
            p <= scores.len(),
            forall|k: int| 0 <= k < p ==> scores@[k] >= score,
        decreases scores.len() - p,
    {
        p = p + 1;
    }
    p
}

impl WindowSwitcherState {
    /// Every filtered entry names a listed window, and the selection is an
    /// item of the filtered list when there is one.
    pub open spec fn wf(&self) -> bool {
        &&& forall|k: int|
            0 <= k < self.filtered_windows.len() ==> #[trigger] self.filtered_windows@[k].0
                < self.windows.len()
        &&& (self.filtered_windows.len() > 0 ==> self.selection_index
            < self.filtered_windows.len())
    }

    /// The filtered list as plain values.
    pub open spec fn entries(&self) -> Seq<(usize, Seq<usize>)> {
        entries_view(self.filtered_windows@)
    }

    /// An empty switcher: no windows, empty query, first item selected, no scrolling.
    pub fn new() -> (s: Self)
        ensures
            s.windows@.len() == 0,
            s.filtered_windows@.len() == 0,
            s.selection_index == 0,
            s.scroll_offset == 0,
            s.query@.len() == 0,
            s.wf(),
    {
        Self {
            windows: Vec::new(),
            filtered_windows: Vec::new(),
            selection_index: 0,
            scroll_offset: 0,
            query: String::new(),
        }
    }

    /// Takes a freshly listed set of windows, drops those of the process
    /// `current_pid` (the switcher's own window), and filters them by the
    /// current query.
    pub fn refresh(&mut self, listed: Vec<GnomeWindow>, current_pid: i32)
        requires
            old(self).query@.len() > 0 ==> labels_fit(listed@),
        ensures
            final(self).windows@ == listed@.filter(not_of_process(current_pid)),
            final(self).query == old(self).query,
            is_filter_result(final(self).windows@, final(self).query@, final(self).entries()),
            final(self).query@.len() > 0 ==> matcher_facts(final(self).windows@, final(self).query@),
            final(self).selection_index == 0,
            final(self).scroll_offset == 0,
            final(self).wf(),
    {
        let ghost orig = listed@;
        let n = listed.len();
        let mut rest = listed;
        let mut kept: Vec<GnomeWindow> = Vec::new();
        let mut i: usize = 0;
        assert(orig.skip(0) == orig);
        assert(orig.take(0).filter(not_of_process(current_pid)) == Seq::<GnomeWindow>::empty()) by {
            reveal(Seq::filter);
        }
        while rest.len() > 0
            invariant
                i <= n == orig.len(),
                rest.len() == n - i,
                rest@ == orig.skip(i as int),
                kept@ == orig.take(i as int).filter(not_of_process(current_pid)),
                self.query@.len() > 0 ==> labels_fit(orig),
                self.query@.len() > 0 ==> labels_fit(kept@),
            decreases rest.len(),
        {
            let w = rest.remove(0);
            assert(w == orig[i as int]);
            assert(orig.take(i + 1).drop_last() == orig.take(i as int));
            assert(orig.take(i + 1).last() == w);
            assert(orig.skip(i as int).remove(0) == orig.skip(i + 1));
            let keep = w.pid != current_pid;
            if keep {
                kept.push(w);
            }
            proof {
                reveal(Seq::filter);
                let t = orig.take(i + 1);
                assert(not_of_process(current_pid)(t.last()) == keep);
                assert(t.filter(not_of_process(current_pid)) == (if keep {
                    t.drop_last().filter(not_of_process(current_pid)).push(t.last())
                } else {
                    t.drop_last().filter(not_of_process(current_pid))
                }));
                assert(kept@ == orig.take(i + 1).filter(not_of_process(current_pid)));
            }
            i = i + 1;
        }
        assert(orig.take(n as int) == orig);
        self.windows = kept;
        self.filter();
    }

    /// Recomputes the filtered list from the windows and the query, and
    /// goes back to the first item with no scrolling.
    pub fn filter(&mut self)
        requires
            old(self).query@.len() > 0 ==> labels_fit(old(self).windows@),
        ensures
            final(self).windows == old(self).windows,
            final(self).query == old(self).query,
            is_filter_result(old(self).windows@, old(self).query@, final(self).entries()),
            old(self).query@.len() > 0 ==> matcher_facts(old(self).windows@, old(self).query@),
            final(self).selection_index == 0,
            final(self).scroll_offset == 0,
            final(self).wf(),
    {
        let query = chars_of(self.query.as_str());
        let n = self.windows.len();
        let ghost ws = self.windows@;
        let ghost q = self.query@;
        let mut out: Vec<(usize, Vec<usize>)> = Vec::new();
        if query.len() == 0 {
            let mut i: usize = 0;
            while i < n
                invariant
                    i <= n == ws.len(),
                    ws == self.windows@,
                    out.len() == i,
                    entries_view(out@) == Seq::new(
                        i as nat,
                        |j: int| (j as usize, Seq::<usize>::empty()),
                    ),
                decreases n - i,
            {
                let none: Vec<usize> = Vec::new();
                let ghost prev = entries_view(out@);
                let ghost prev_out = out@;
                out.push((i, none));
                assert forall|j: int| 0 <= j < i implies #[trigger] entries_view(out@)[j] == prev[j] by {
                    assert(out@[j] == prev_out[j]);
                }
                assert(out@[i as int].1@ == Seq::<usize>::empty());
                assert(entries_view(out@) =~= Seq::new(
                    (i + 1) as nat,
                    |j: int| (j as usize, Seq::<usize>::empty()),
                ));
                i = i + 1;
            }
        } else {
            let mut scores: Vec<i64> = Vec::new();
            let mut i: usize = 0;
            while i < n
                invariant
                    i <= n == ws.len(),
                    ws == self.windows@,
                    q == self.query@,
                    q.len() > 0,
                    scores.len() == out.len(),
                    forall|k: int|
                        #![trigger out@[k]]
                        0 <= k < out.len() ==> {
                            &&& out@[k].0 < i
                            &&& window_match(ws[out@[k].0 as int], q) == Some(
                                (scores@[k], out@[k].1@),
                            )
                        },
                    forall|j: int|
                        0 <= j < i && (#[trigger] window_match(ws[j], q)) is Some ==> exists|
                            k: int,
                        | 0 <= k < out.len() && out@[k].0 == j,
                    ranked(scores@, out@),
                    labels_fit(ws),
                    matcher_facts(ws.take(i as int), q),
                decreases n - i,
            {
                let label = item_label(&self.windows[i]);
                let r = fuzzy_match_indices(label.as_str(), self.query.as_str());
                proof {
                    let t = ws.take(i + 1);
                    assert forall|j: int| 0 <= j < i + 1 implies {
                        &&& (#[trigger] window_match(t[j], q) is Some <==> is_fuzzy_subsequence(
                            window_label(t[j]),
                            q,
                        ))
                        &&& (window_match(t[j], q) is Some ==> positions_rise_within(
                            window_match(t[j], q)->Some_0.1,
                            window_label(t[j]).len() as int,
                        ))
                    } by {
                        if j < i {
                            assert(t[j] == ws.take(i as int)[j]);
                        }
                    }
                }
                match r {
                    Some((score, positions)) => {
                        let p = insertion_point(&scores, score);
                        let ghost old_out = out@;
                        let ghost old_scores = scores@;
                        out.insert(p, (i, positions));
                        scores.insert(p, score);
                        assert forall|k: int, l: int|
                            0 <= k < l < out.len() implies #[trigger] ranked_pair(
                                scores@,
                                out@,
                                k,
                                l,
                            ) by {
                            if k < p && l == p {
                                assert(old_out[k] == old_out[k]);
                            } else if k == p && l > p {
                                if l - 1 > p {
                                    assert(ranked_pair(old_scores, old_out, p as int, l - 1));
                                }
                            } else if k < p && l > p {
                                assert(ranked_pair(old_scores, old_out, k, l - 1));
                            } else if k > p {
                                assert(ranked_pair(old_scores, old_out, k - 1, l - 1));
                            } else {
                                assert(ranked_pair(old_scores, old_out, k, l));
                            }
                        }
                        assert forall|j: int|
                            0 <= j < i + 1 && (#[trigger] window_match(ws[j], q)) is Some
                                implies exists|k: int| 0 <= k < out.len() && out@[k].0 == j by {
                            if j == i {
                                assert(out@[p as int].0 == j);
                            } else {
                                let k = choose|k: int| 0 <= k < old_out.len() && old_out[k].0 == j;
                                if k < p {
                                    assert(out@[k].0 == j);
                                } else {
                                    assert(out@[k + 1].0 == j);
                                }
                            }
                        }
                    },
                    None => {
                    },
                }
                i = i + 1;
            }
            assert(ws.take(n as int) == ws);
            proof {
                let e = entries_view(out@);
                assert forall|k: int, l: int|
                    #![trigger e[k], e[l]]
                    0 <= k < l < e.len() implies ranks_before(ws, q, e[k].0 as int, e[l].0 as int) by {
                    assert(out@[k] == out@[k]);
                    assert(out@[l] == out@[l]);
                    assert(ranked_pair(scores@, out@, k, l));
                }
                assert forall|j: int|
                    0 <= j < ws.len() && (#[trigger] window_match(ws[j], q)) is Some
                        implies exists|k: int| 0 <= k < e.len() && e[k].0 == j by {
                    let k = choose|k: int| 0 <= k < out.len() && out@[k].0 == j;
                    assert(e[k].0 == j);
                }
                assert forall|k: int|
                    #![trigger e[k]]
                    0 <= k < e.len() implies {
                        &&& e[k].0 < ws.len()
                        &&& window_match(ws[e[k].0 as int], q) == Some(
                            (match_score(ws[e[k].0 as int], q), e[k].1),
                        )
                    } by {
                    assert(out@[k] == out@[k]);
                }
            }
        }
        self.filtered_windows = out;
        self.selection_index = 0;
        self.scroll_offset = 0;
        proof {
            assert forall|k: int|
                0 <= k < self.filtered_windows.len() implies #[trigger] self.filtered_windows@[k].0
                < self.windows.len() by {
                assert(self.entries()[k].0 == self.filtered_windows@[k].0);
            }
        }
    }

    /// Appends `text` to the query and filters again.
    pub fn input_text(&mut self, text: &str)
        requires
            (old(self).query@ + text@).len() > 0 ==> labels_fit(old(self).windows@),
        ensures
            final(self).query@ == old(self).query@ + text@,
            final(self).windows == old(self).windows,
            is_filter_result(final(self).windows@, final(self).query@, final(self).entries()),
            final(self).selection_index == 0,
            final(self).scroll_offset == 0,
            final(self).wf(),
            final(self).query@.len() > 0 ==> matcher_facts(final(self).windows@, final(self).query@),
    {
        self.query.push_str(text);
        self.filter();
    }

    /// Removes the last character of the query, if any, and filters again.
    pub fn backspace(&mut self)
        requires
            old(self).query@.len() > 1 ==> labels_fit(old(self).windows@),
        ensures
            final(self).query@ == (if old(self).query@.len() > 0 {
                old(self).query@.drop_last()
            } else {
                old(self).query@
            }),
            final(self).windows == old(self).windows,
            is_filter_result(final(self).windows@, final(self).query@, final(self).entries()),
            final(self).selection_index == 0,
            final(self).scroll_offset == 0,
            final(self).wf(),
            final(self).query@.len() > 0 ==> matcher_facts(final(self).windows@, final(self).query@),
    {
        self.query.pop();
        self.filter();
    }

    /// Moves the selection one item down, wrapping from the last item to the
    /// first; does nothing when the filtered list is empty.
    pub fn next(&mut self)
        requires
            old(self).filtered_windows.len() > 0 ==> old(self).selection_index < usize::MAX,
        ensures
            final(self).selection_index == (if old(self).filtered_windows.len() == 0 {
                old(self).selection_index as int
            } else {
                next_index(old(self).selection_index as int, old(self).filtered_windows.len() as int)
            }),
            final(self).windows == old(self).windows,
            final(self).filtered_windows == old(self).filtered_windows,
            final(self).scroll_offset == old(self).scroll_offset,
            final(self).query == old(self).query,
            old(self).wf() ==> final(self).wf(),
    {
        if self.filtered_windows.is_empty() {
            return;
        }
        if self.selection_index + 1 < self.filtered_windows.len() {
            self.selection_index += 1;
        } else {
            self.selection_index = 0;
        }
    }

    /// Moves the selection one item up, wrapping from the first item to the
    /// last; does nothing when the filtered list is empty.
    pub fn prev(&mut self)
        ensures
            final(self).selection_index == (if old(self).filtered_windows.len() == 0 {
                old(self).selection_index as int
            } else {
                prev_index(old(self).selection_index as int, old(self).filtered_windows.len() as int)
            }),
            final(self).windows == old(self).windows,
            final(self).filtered_windows == old(self).filtered_windows,
            final(self).scroll_offset == old(self).scroll_offset,
            final(self).query == old(self).query,
            old(self).wf() ==> final(self).wf(),
    {
        if self.filtered_windows.is_empty() {
            return;
        }
        if self.selection_index > 0 {
            self.selection_index -= 1;
        } else {
            self.selection_index = self.filtered_windows.len() - 1;
        }
    }

    /// The selected window: the window named by the selected item of the
    /// filtered list, or `None` when there is no such item or window.
    pub open spec fn selected(&self) -> Option<GnomeWindow> {
        if self.selection_index < self.filtered_windows.len() && self.filtered_windows@[
            self.selection_index as int].0 < self.windows.len() {
            Some(self.windows@[self.filtered_windows@[self.selection_index as int].0 as int])
        } else {
            None
        }
    }

    /// The window under the selection.
    pub fn current(&self) -> (r: Option<&GnomeWindow>)
        ensures
            match r {
                Some(w) => self.selected() == Some(*w),
                None => self.selected() is None,
            },
    {
        if self.selection_index < self.filtered_windows.len() {
            let idx = self.filtered_windows[self.selection_index].0;
            if idx < self.windows.len() {
                Some(&self.windows[idx])
            } else {
                None
            }
        } else {
            None
        }
    }

    /// The call that focuses the selected window, when there is one.
    pub fn activate(&self) -> (call: Option<GdbusCall>)
        ensures
            match self.selected() {
                Some(w) => {
                    &&& call is Some
                    &&& call->Some_0.method@ == activate_method()
                    &&& call->Some_0.arg is Some
                    &&& call->Some_0.arg->Some_0@ == decimal(w.id as int)
                },
                None => call is None,
            },
    {
        match self.current() {
            Some(win) => Some(activate_window(win.id)),
            None => None,
        }
    }

    /// Whether `ensure_visible(max_items)` would overflow `usize`.
    pub fn ensure_visible_overflows(&self, max_items: usize) -> (r: bool)
        ensures
            r == visible_offset_overflows(
                self.filtered_windows.len() as int,
                self.selection_index as int,
                self.scroll_offset as int,
                max_items as int,
            ),
    {
        if self.filtered_windows.is_empty() || self.selection_index < self.scroll_offset {
            return false;
        }
        if self.scroll_offset > usize::MAX - max_items {
            return true;
        }
        self.selection_index >= self.scroll_offset + max_items && self.selection_index == usize::MAX
    }

    /// Scrolls the list so that the selection is among the `max_items`
    /// items in view: up to the selection when it is above the view, down
    /// until it is the last item in view when it is below; back to the top
    /// when the list is empty or the offset passes the end of the list.
    pub fn ensure_visible(&mut self, max_items: usize)
        requires
            !visible_offset_overflows(
                old(self).filtered_windows.len() as int,
                old(self).selection_index as int,
                old(self).scroll_offset as int,
                max_items as int,
            ),
        ensures
            final(self).scroll_offset == visible_offset(
                old(self).filtered_windows.len() as int,
                old(self).selection_index as int,
                old(self).scroll_offset as int,
                max_items as int,
            ),
            final(self).windows == old(self).windows,
            final(self).filtered_windows == old(self).filtered_windows,
            final(self).selection_index == old(self).selection_index,
            final(self).query == old(self).query,
    {
        if self.filtered_windows.is_empty() {
            self.scroll_offset = 0;
            return;
        }
        if self.selection_index < self.scroll_offset {
            self.scroll_offset = self.selection_index;
        } else if self.selection_index >= self.scroll_offset + max_items {
            self.scroll_offset = self.selection_index + 1 - max_items;
        }
        if self.scroll_offset > self.filtered_windows.len() {
            self.scroll_offset = 0;
        }
    }
}

} // verus!
