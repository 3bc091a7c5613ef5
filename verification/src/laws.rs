//! Properties of the window switcher that relate several operations or hold
//! of every state.

use vstd::prelude::*;
use crate::fuzzy::{is_fuzzy_subsequence, positions_rise_within, same_ignoring_ascii_case};
use crate::fonts::{
    cjk_family, cjk_found_from, first_cjk_from, font_search_outcome, font_search_run, font_step,
    with_last_resort, FontStage, CJK_FAMILY_COUNT,
};
use crate::gdbus::{gdbus_json, gdbus_payload_undefined};
use crate::text::replace_all;
use crate::rendering::glyph_slots;
use crate::text::{is_control, is_white_space, trim, trim_end, trim_start};
use crate::window_switcher::{
    is_filter_result, matcher_facts, next_index, prev_index, ranks_before, visible_offset,
    window_label, window_match, GnomeWindow, WindowSwitcherState,
};

verus! {

/// Moving down and then up brings the selection back where it was.
pub proof fn lemma_prev_undoes_next(sel: int, len: int)
    requires
        0 <= sel < len,
    ensures
        prev_index(next_index(sel, len), len) == sel,
{
}

/// Moving up and then down brings the selection back where it was.
pub proof fn lemma_next_undoes_prev(sel: int, len: int)
    requires
        0 <= sel < len,
    ensures
        next_index(prev_index(sel, len), len) == sel,
{
}

/// Moving the selection is cyclic: down goes to `(sel + 1) mod len`, up to
/// `(sel + len - 1) mod len`, so both stay within the list.
pub proof fn lemma_selection_moves_cyclically(sel: int, len: int)
    requires
        0 <= sel < len,
    ensures
        next_index(sel, len) == (sel + 1) % len,
        prev_index(sel, len) == (sel + len - 1) % len,
        0 <= next_index(sel, len) < len,
        0 <= prev_index(sel, len) < len,
{
    if sel + 1 == len {
        assert((sel + 1) % len == 0) by (nonlinear_arith)
            requires
                sel + 1 == len,
                len > 0,
        ;
    } else {
        assert((sel + 1) % len == sel + 1) by (nonlinear_arith)
            requires
                0 <= sel + 1 < len,
        ;
    }
    if sel == 0 {
        assert((sel + len - 1) % len == len - 1) by (nonlinear_arith)
            requires
                sel == 0,
                len > 0,
        ;
    } else {
        assert((sel + len - 1) % len == sel - 1) by (nonlinear_arith)
            requires
                0 < sel < len,
        ;
    }
}

/// After `ensure_visible` the selected item is in view: the offset is at
/// most the selection and the selection is less than the offset plus the
/// number of items in view.
pub proof fn lemma_ensure_visible_shows_selection(len: int, sel: int, off: int, max: int)
    requires
        0 <= sel < len,
        0 <= off,
        max > 0,
    ensures
        visible_offset(len, sel, off, max) <= sel < visible_offset(len, sel, off, max) + max,
{
}

/// `ensure_visible` scrolls as little as it can: no other offset that
/// shows the selection lies closer to the old offset.
pub proof fn lemma_ensure_visible_scrolls_least(
    len: int,
    sel: int,
    off: int,
    max: int,
    other: int,
)
    requires
        0 <= sel < len,
        0 <= off,
        max > 0,
        other <= sel < other + max,
    ensures
        ({
            let o = visible_offset(len, sel, off, max);
            let d = if o >= off {
                o - off
            } else {
                off - o
            };
            let e = if other >= off {
                other - off
            } else {
                off - other
            };
            d <= e
        }),
{
}

/// Bringing the selection into view a second time changes nothing.
pub proof fn lemma_ensure_visible_idempotent(len: int, sel: int, off: int, max: int)
    requires
        0 <= sel < len,
        0 <= off,
        max > 0,
    ensures
        visible_offset(len, sel, visible_offset(len, sel, off, max), max) == visible_offset(
            len,
            sel,
            off,
            max,
        ),
{
}

/// No window appears twice in the filtered list, and every entry names a
/// listed window.
pub proof fn lemma_filter_result_distinct(
    windows: Seq<GnomeWindow>,
    query: Seq<char>,
    out: Seq<(usize, Seq<usize>)>,
)
    requires
        windows.len() <= usize::MAX,
        is_filter_result(windows, query, out),
    ensures
        forall|k: int, l: int| 0 <= k < l < out.len() ==> out[k].0 != out[l].0,
        forall|k: int| 0 <= k < out.len() ==> out[k].0 < windows.len(),
{
    if query.len() > 0 {
        assert forall|k: int, l: int| 0 <= k < l < out.len() implies out[k].0 != out[l].0 by {
            assert(ranks_before(windows, query, out[k].0 as int, out[l].0 as int));
        }
        assert forall|k: int| 0 <= k < out.len() implies out[k].0 < windows.len() by {
            assert(out[k] == out[k]);
        }
    } else {
        assert forall|k: int| 0 <= k < out.len() implies out[k].0 == k by {
            assert(out[k].0 == k as usize);
        }
    }
}

proof fn lemma_filter_prefix_equal(
    ws: Seq<GnomeWindow>,
    q: Seq<char>,
    a: Seq<(usize, Seq<usize>)>,
    b: Seq<(usize, Seq<usize>)>,
    k: int,
)
    requires
        q.len() > 0,
        is_filter_result(ws, q, a),
        is_filter_result(ws, q, b),
        0 <= k <= a.len(),
        k <= b.len(),
    ensures
        forall|j: int| 0 <= j < k ==> a[j] == b[j],
    decreases k,
{
    if k > 0 {
        lemma_filter_prefix_equal(ws, q, a, b, k - 1);
        let j = k - 1;
        let x = a[j].0 as int;
        let y = b[j].0 as int;
        assert(window_match(ws[x], q) is Some);
        assert(window_match(ws[y], q) is Some);
        let m = choose|m: int| 0 <= m < b.len() && b[m].0 == x;
        let n = choose|n: int| 0 <= n < a.len() && a[n].0 == y;
        if m < j {
            assert(a[m] == b[m]);
            assert(ranks_before(ws, q, a[m].0 as int, a[j].0 as int));
        }
        if n < j {
            assert(a[n] == b[n]);
            assert(ranks_before(ws, q, b[n].0 as int, b[j].0 as int));
        }
        if x != y {
            assert(m != j && n != j);
            assert(ranks_before(ws, q, b[j].0 as int, b[m].0 as int));
            assert(ranks_before(ws, q, a[j].0 as int, a[n].0 as int));
        }
        assert(a[j].1 == b[j].1);
    }
}

/// The filtered list is a function of the windows and the query: two lists
/// that both meet the filter's description are the same list.
pub proof fn lemma_filter_result_unique(
    windows: Seq<GnomeWindow>,
    query: Seq<char>,
    a: Seq<(usize, Seq<usize>)>,
    b: Seq<(usize, Seq<usize>)>,
)
    requires
        is_filter_result(windows, query, a),
        is_filter_result(windows, query, b),
    ensures
        a == b,
{
    if query.len() > 0 {
        if a.len() > b.len() {
            let j = b.len() as int;
            lemma_filter_prefix_equal(windows, query, a, b, j);
            let x = a[j].0 as int;
            assert(window_match(windows[x], query) is Some);
            let m = choose|m: int| 0 <= m < b.len() && b[m].0 == x;
            assert(a[m] == b[m]);
            assert(ranks_before(windows, query, a[m].0 as int, a[j].0 as int));
        } else if b.len() > a.len() {
            let j = a.len() as int;
            lemma_filter_prefix_equal(windows, query, a, b, j);
            let y = b[j].0 as int;
            assert(window_match(windows[y], query) is Some);
            let n = choose|n: int| 0 <= n < a.len() && a[n].0 == y;
            assert(a[n] == b[n]);
            assert(ranks_before(windows, query, b[n].0 as int, b[j].0 as int));
        }
        lemma_filter_prefix_equal(windows, query, a, b, a.len() as int);
        assert(a =~= b);
    }
}

/// Typing one character and deleting it again gives back the query and the
/// filtered list that were there before.
pub proof fn lemma_backspace_undoes_input(
    windows: Seq<GnomeWindow>,
    query: Seq<char>,
    typed: Seq<char>,
    before: Seq<(usize, Seq<usize>)>,
    after: Seq<(usize, Seq<usize>)>,
)
    requires
        typed.len() == 1,
        is_filter_result(windows, query, before),
        is_filter_result(windows, (query + typed).drop_last(), after),
    ensures
        (query + typed).drop_last() == query,
        after == before,
{
    assert((query + typed).drop_last() =~= query);
    lemma_filter_result_unique(windows, query, before, after);
}

/// The highlighted positions of every listed window rise strictly and lie
/// inside the window's label.
pub proof fn lemma_highlights_rise_within_label(
    windows: Seq<GnomeWindow>,
    query: Seq<char>,
    out: Seq<(usize, Seq<usize>)>,
)
    requires
        is_filter_result(windows, query, out),
        query.len() > 0 ==> matcher_facts(windows, query),
    ensures
        forall|k: int|
            0 <= k < out.len() ==> positions_rise_within(
                #[trigger] out[k].1,
                window_label(windows[out[k].0 as int]).len() as int,
            ),
{
    assert forall|k: int| 0 <= k < out.len() implies positions_rise_within(
        #[trigger] out[k].1,
        window_label(windows[out[k].0 as int]).len() as int,
    ) by {
        if query.len() > 0 {
            let i = out[k].0 as int;
            assert(window_match(windows[i], query) is Some);
        } else {
            assert(out[k].1 == Seq::<usize>::empty());
        }
    }
}

proof fn lemma_subsequence_of_longer(text: Seq<char>, pattern: Seq<char>, more: Seq<char>)
    requires
        is_fuzzy_subsequence(text, pattern + more),
    ensures
        is_fuzzy_subsequence(text, pattern),
    decreases text.len(),
{
    if pattern.len() > 0 && text.len() > 0 {
        assert((pattern + more)[0] == pattern[0]);
        if same_ignoring_ascii_case(text[0], pattern[0]) {
            assert((pattern + more).drop_first() == pattern.drop_first() + more);
            lemma_subsequence_of_longer(text.drop_first(), pattern.drop_first(), more);
        } else {
            lemma_subsequence_of_longer(text.drop_first(), pattern, more);
        }
    }
}

/// Window `after[l]` is listed somewhere in `before`.
pub open spec fn listed_at(
    after: Seq<(usize, Seq<usize>)>,
    l: int,
    before: Seq<(usize, Seq<usize>)>,
) -> bool {
    exists|k: int| 0 <= k < before.len() && before[k].0 == after[l].0
}

/// Every window of `after` is listed in `before`.
pub open spec fn windows_listed_in(
    after: Seq<(usize, Seq<usize>)>,
    before: Seq<(usize, Seq<usize>)>,
) -> bool {
    forall|l: int| 0 <= l < after.len() ==> #[trigger] listed_at(after, l, before)
}

/// Typing more of the query only narrows the list: every window listed for
/// the longer query is listed for the shorter one.
pub proof fn lemma_typing_narrows(
    windows: Seq<GnomeWindow>,
    query: Seq<char>,
    typed: Seq<char>,
    before: Seq<(usize, Seq<usize>)>,
    after: Seq<(usize, Seq<usize>)>,
)
    requires
        windows.len() <= usize::MAX,
        is_filter_result(windows, query, before),
        query.len() > 0 ==> matcher_facts(windows, query),
        is_filter_result(windows, query + typed, after),
        (query + typed).len() > 0 ==> matcher_facts(windows, query + typed),
    ensures
        windows_listed_in(after, before),
{
    assert forall|l: int| 0 <= l < after.len() implies #[trigger] listed_at(after, l, before) by {
        let i = after[l].0 as int;
        if (query + typed).len() == 0 {
            assert(query.len() == 0);
            assert(after[l].0 == l as usize);
            assert(before[l].0 == l as usize);
            assert(0 <= l < before.len() && before[l].0 == after[l].0);
        } else {
            assert(after[l] == after[l]);
            assert(0 <= i < windows.len());
            if query.len() == 0 {
                assert(before[i].0 == i as usize);
                assert(0 <= i < before.len() && before[i].0 == after[l].0);
            } else {
                assert(window_match(windows[i], query + typed) is Some);
                lemma_subsequence_of_longer(window_label(windows[i]), query, typed);
                assert(window_match(windows[i], query) is Some);
                let k = choose|k: int| 0 <= k < before.len() && before[k].0 == i;
                assert(0 <= k < before.len() && before[k].0 == after[l].0);
            }
        }
    }
}

proof fn lemma_trim_start_after_white(pre: Seq<char>, s: Seq<char>)
    requires
        forall|k: int| 0 <= k < pre.len() ==> is_white_space(#[trigger] pre[k]),
    ensures
        trim_start(pre + s) == trim_start(s),
    decreases pre.len(),
{
    if pre.len() > 0 {
        assert((pre + s).drop_first() == pre.drop_first() + s);
        assert((pre + s)[0] == pre[0]);
        lemma_trim_start_after_white(pre.drop_first(), s);
    } else {
        assert(pre + s == s);
    }
}

proof fn lemma_trim_end_before_white(s: Seq<char>, post: Seq<char>)
    requires
        forall|k: int| 0 <= k < post.len() ==> is_white_space(#[trigger] post[k]),
    ensures
        trim_end(s + post) == trim_end(s),
    decreases post.len(),
{
    if post.len() > 0 {
        assert((s + post).drop_last() == s + post.drop_last());
        assert((s + post).last() == post.last());
        lemma_trim_end_before_white(s, post.drop_last());
    } else {
        assert(s + post == s);
    }
}

proof fn lemma_trim_start_keeps_tail(s: Seq<char>, post: Seq<char>)
    requires
        forall|k: int| 0 <= k < post.len() ==> is_white_space(#[trigger] post[k]),
    ensures
        trim_end(trim_start(s + post)) == trim_end(trim_start(s)),
    decreases s.len(),
{
    if s.len() == 0 {
        assert(s + post == post);
        lemma_trim_start_after_white(post, Seq::<char>::empty());
        assert(post + Seq::<char>::empty() == post);
    } else if is_white_space(s[0]) {
        assert((s + post).drop_first() == s.drop_first() + post);
        assert((s + post)[0] == s[0]);
        lemma_trim_start_keeps_tail(s.drop_first(), post);
    } else {
        assert((s + post)[0] == s[0]);
        lemma_trim_end_before_white(s, post);
    }
}

/// White space around what gdbus prints (such as its closing newline)
/// changes nothing: neither the JSON taken out nor whether it can be taken out.
pub proof fn lemma_white_space_around_gdbus_output(pre: Seq<char>, s: Seq<char>, post: Seq<char>)
    requires
        forall|k: int| 0 <= k < pre.len() ==> is_white_space(#[trigger] pre[k]),
        forall|k: int| 0 <= k < post.len() ==> is_white_space(#[trigger] post[k]),
    ensures
        trim(pre + s + post) == trim(s),
        gdbus_json(pre + s + post) == gdbus_json(s),
        gdbus_payload_undefined(trim(pre + s + post)) == gdbus_payload_undefined(trim(s)),
{
    assert(pre + s + post == pre + (s + post));
    lemma_trim_start_after_white(pre, s + post);
    lemma_trim_start_keeps_tail(s, post);
}

/// Each character of the text is drawn exactly when it is not a control
/// character, at its own position among the drawn characters' order, and
/// it is highlighted exactly when its position is listed.
pub proof fn lemma_glyph_slots_per_char(text: Seq<char>, highlights: Seq<usize>)
    requires
        text.len() <= usize::MAX,
    ensures
        forall|k: int|
            #![trigger glyph_slots(text, highlights)[k]]
            0 <= k < glyph_slots(text, highlights).len() ==> {
                let slot = glyph_slots(text, highlights)[k];
                &&& slot.0 < text.len()
                &&& slot.1 == text[slot.0 as int]
                &&& !is_control(slot.1)
                &&& slot.2 == highlights.contains(slot.0)
            },
        forall|k: int, l: int|
            0 <= k < l < glyph_slots(text, highlights).len() ==> (#[trigger] glyph_slots(
                text,
                highlights,
            )[k]).0 < (#[trigger] glyph_slots(text, highlights)[l]).0,
        forall|i: int|
            0 <= i < text.len() && !is_control(#[trigger] text[i]) ==> exists|k: int|
                0 <= k < glyph_slots(text, highlights).len() && glyph_slots(text, highlights)[k].0
                    == i,
    decreases text.len(),
{
    if text.len() > 0 {
        let prefix = text.drop_last();
        lemma_glyph_slots_per_char(prefix, highlights);
        let rest = glyph_slots(prefix, highlights);
        let all = glyph_slots(text, highlights);
        assert forall|k: int| 0 <= k < rest.len() implies (#[trigger] rest[k]).0 < prefix.len() by {
        }
        assert forall|k: int|
            #![trigger all[k]]
            0 <= k < all.len() implies {
                let slot = all[k];
                &&& slot.0 < text.len()
                &&& slot.1 == text[slot.0 as int]
                &&& !is_control(slot.1)
                &&& slot.2 == highlights.contains(slot.0)
            } by {
            if k < rest.len() {
                assert(all[k] == rest[k]);
                assert(prefix[rest[k].0 as int] == text[rest[k].0 as int]);
            }
        }
        assert forall|k: int, l: int| 0 <= k < l < all.len() implies (#[trigger] all[k]).0 < (
        #[trigger] all[l]).0 by {
            if l < rest.len() {
                assert(all[k] == rest[k] && all[l] == rest[l]);
            } else {
                assert(all[k] == rest[k]);
                assert(rest[k].0 < prefix.len());
            }
        }
        assert forall|i: int| 0 <= i < text.len() && !is_control(#[trigger] text[i]) implies exists|
            k: int,
        | 0 <= k < all.len() && all[k].0 == i by {
            if i < prefix.len() {
                assert(prefix[i] == text[i]);
                let k = choose|k: int| 0 <= k < rest.len() && rest[k].0 == i;
                assert(all[k] == rest[k]);
            } else {
                assert(all[rest.len() as int].0 == i);
            }
        }
    }
}

proof fn lemma_font_search_from_cjk(
    k: int,
    desktop: Option<Seq<char>>,
    loaded: Seq<Option<Seq<char>>>,
    last_found: bool,
    loads: spec_fn(Option<Seq<char>>) -> bool,
    fuel: nat,
)
    requires
        0 <= k <= CJK_FAMILY_COUNT,
        k > 0 ==> !last_found,
        fuel >= 8 - k,
    ensures
        font_search_run(FontStage::Cjk(k as usize), desktop, loaded, last_found, loads, fuel)
            == with_last_resort(loaded + cjk_found_from(k, loads), loads),
    decreases CJK_FAMILY_COUNT - k,
{
    let stage = FontStage::Cjk(k as usize);
    if k < CJK_FAMILY_COUNT {
        let family = Some(cjk_family(k));
        assert(font_step(stage, desktop, loaded.len() as int, last_found) == (
            FontStage::Cjk((k + 1) as usize),
            Some(family),
        ));
        if loads(family) {
            let next = loaded.push(family);
            assert(first_cjk_from(k, loads) == Some(k));
            assert(font_step(FontStage::Cjk((k + 1) as usize), desktop, next.len() as int, true)
                == (FontStage::Finished, None::<Option<Seq<char>>>));
            assert(font_search_run(
                FontStage::Cjk((k + 1) as usize),
                desktop,
                next,
                true,
                loads,
                (fuel - 1) as nat,
            ) == next);
            assert(loaded + cjk_found_from(k, loads) == next);
        } else {
            assert(first_cjk_from(k, loads) == first_cjk_from(k + 1, loads));
            lemma_font_search_from_cjk(k + 1, desktop, loaded, false, loads, (fuel - 1) as nat);
        }
    } else {
        assert(first_cjk_from(k, loads) is None);
        assert(loaded + cjk_found_from(k, loads) == loaded);
        if loaded.len() == 0 {
            assert(font_step(stage, desktop, 0, last_found) == (
                FontStage::Finished,
                Some(None::<Seq<char>>),
            ));
            let after = if loads(None) {
                loaded.push(None)
            } else {
                loaded
            };
            assert(font_search_run(FontStage::Finished, desktop, after, loads(None), loads, (fuel
                - 1) as nat) == after);
            if loads(None) {
                assert(after == seq![None::<Seq<char>>]);
            }
        } else {
            assert(font_step(stage, desktop, loaded.len() as int, last_found) == (
                FontStage::Finished,
                None::<Option<Seq<char>>>,
            ));
        }
    }
}

/// The font search, run to its end with each request loading exactly when
/// `loads` says so, loads the primary font (the desktop's family, or
/// sans-serif when it names none) when that loads, then the first CJK
/// fallback family that loads, and sans-serif only when nothing loaded
/// before: never more than two fonts. It ends within nine steps.
pub proof fn lemma_font_search_outcome(
    desktop: Option<Seq<char>>,
    loads: spec_fn(Option<Seq<char>>) -> bool,
)
    ensures
        font_search_run(FontStage::Primary, desktop, Seq::empty(), false, loads, 9)
            == font_search_outcome(desktop, loads),
        font_search_outcome(desktop, loads).len() <= 2,
{
    let empty = Seq::<Option<Seq<char>>>::empty();
    let ok = loads(desktop);
    let first = if ok {
        empty.push(desktop)
    } else {
        empty
    };
    assert(font_step(FontStage::Primary, desktop, 0, false) == (FontStage::Cjk(0), Some(desktop)));
    lemma_font_search_from_cjk(0, desktop, first, ok, loads, 8);
    assert(first == (if ok {
        seq![desktop]
    } else {
        Seq::<Option<Seq<char>>>::empty()
    }));
}

proof fn lemma_replace_split(a: Seq<char>, b: Seq<char>, pat: Seq<char>, rep: Seq<char>)
    requires
        pat.len() == 2,
        !(a.len() > 0 && b.len() > 0 && a.last() == pat[0] && b[0] == pat[1]),
    ensures
        replace_all(a + b, pat, rep) == replace_all(a, pat, rep) + replace_all(b, pat, rep),
    decreases a.len(),
{
    if a.len() == 0 {
        assert(a + b == b);
    } else if a.len() == 1 {
        assert((a + b)[0] == a[0]);
        if b.len() > 0 {
            assert((a + b).take(2) =~= seq![a[0], b[0]]);
        }
        assert((a + b).skip(1) == b);
        assert(a.skip(1).len() == 0);
    } else {
        assert((a + b).take(2) == a.take(2));
        if a.take(2) == pat {
            assert((a + b).skip(2) == a.skip(2) + b);
            if a.skip(2).len() > 0 {
                assert(a.skip(2).last() == a.last());
            }
            lemma_replace_split(a.skip(2), b, pat, rep);
            assert(rep + (replace_all(a.skip(2), pat, rep) + replace_all(b, pat, rep)) == (rep
                + replace_all(a.skip(2), pat, rep)) + replace_all(b, pat, rep));
        } else {
            assert((a + b)[0] == a[0]);
            assert((a + b).skip(1) == a.skip(1) + b);
            assert(a.skip(1).last() == a.last());
            lemma_replace_split(a.skip(1), b, pat, rep);
            assert(seq![a[0]] + (replace_all(a.skip(1), pat, rep) + replace_all(b, pat, rep)) == (
            seq![a[0]] + replace_all(a.skip(1), pat, rep)) + replace_all(b, pat, rep));
        }
    }
}

proof fn lemma_collapse_keeps_last_backslash(s: Seq<char>)
    requires
        s.len() > 0,
        s.last() == '\\',
    ensures
        replace_all(s, seq!['\\', '\\'], seq!['\\']).len() > 0,
        replace_all(s, seq!['\\', '\\'], seq!['\\']).last() == '\\',
    decreases s.len(),
{
    let pat = seq!['\\', '\\'];
    let rep = seq!['\\'];
    if s.len() >= 2 && s.take(2) == pat {
        if s.skip(2).len() > 0 {
            assert(s.skip(2).last() == s.last());
            lemma_collapse_keeps_last_backslash(s.skip(2));
        } else {
            assert(replace_all(s.skip(2), pat, rep) == s.skip(2));
        }
    } else if s.len() >= 2 {
        assert(s.skip(1).last() == s.last());
        lemma_collapse_keeps_last_backslash(s.skip(1));
    } else {
        assert(replace_all(s.skip(1), pat, rep) == s.skip(1));
    }
}

/// A quote that gdbus escaped together with an escaped backslash before it
/// (`\\"` in what gdbus prints, from the JSON escape `\"`) comes out as the
/// JSON escape `\"`: the quote escape is undone before the backslash escape.
/// So for any payload, the JSON taken out of `('` payload `\\"',)` ends with
/// a backslash and a quote.
pub proof fn lemma_escaped_quote_survives(p: Seq<char>)
    ensures
        ({
            let input = seq!['(', '\''] + p + seq!['\\', '\\', '"', '\'', ',', ')'];
            let json = gdbus_json(input);
            &&& !gdbus_payload_undefined(trim(input))
            &&& json.len() >= 2
            &&& json[json.len() - 2] == '\\'
            &&& json[json.len() - 1] == '"'
        }),
{
    let input = seq!['(', '\''] + p + seq!['\\', '\\', '"', '\'', ',', ')'];
    let n = input.len();
    assert(input[0] == '(');
    assert(input[n - 1] == ')');
    assert(trim_start(input) == input);
    assert(trim_end(input) == input);
    assert(trim(input) == input);
    let payload = p + seq!['\\', '\\', '"'];
    assert(input.subrange(2, n - 3) =~= payload);
    let quote = seq!['\\', '"'];
    let slash = seq!['\\', '\\'];
    // Quotes first.
    lemma_replace_split(p, seq!['\\'], quote, seq!['"']);
    assert(replace_all(seq!['\\'], quote, seq!['"']) == seq!['\\']) by {
        assert(seq!['\\'].skip(1).len() == 0);
        assert(replace_all(seq!['\\'].skip(1), quote, seq!['"']) == seq!['\\'].skip(1));
    }
    let tail = seq!['\\', '"'];
    assert(replace_all(tail, quote, seq!['"']) == seq!['"']) by {
        assert(tail.take(2) == quote);
        assert(tail.skip(2).len() == 0);
        assert(replace_all(tail.skip(2), quote, seq!['"']) == tail.skip(2));
    }
    assert(payload == (p + seq!['\\']) + tail);
    lemma_replace_split(p + seq!['\\'], tail, quote, seq!['"']);
    let q = replace_all(p, quote, seq!['"']);
    let once = replace_all(payload, quote, seq!['"']);
    assert(once == (q + seq!['\\']) + seq!['"']);
    // Then backslashes.
    let c = q + seq!['\\'];
    lemma_replace_split(c, seq!['"'], slash, seq!['\\']);
    assert(replace_all(seq!['"'], slash, seq!['\\']) == seq!['"']) by {
        assert(seq!['"'].skip(1).len() == 0);
        assert(replace_all(seq!['"'].skip(1), slash, seq!['\\']) == seq!['"'].skip(1));
    }
    lemma_collapse_keeps_last_backslash(c);
    let twice = replace_all(once, slash, seq!['\\']);
    assert(twice == replace_all(c, slash, seq!['\\']) + seq!['"']);
}

/// Space and every other printable ASCII character are not control
/// characters, so typing them extends the query and drawing shows them;
/// the ASCII controls below the space are control characters.
pub proof fn lemma_printable_ascii_is_not_control(c: char)
    ensures
        0x20 <= (c as u32) <= 0x7e ==> !is_control(c),
        (c as u32) < 0x20 ==> is_control(c),
        0x7f <= (c as u32) <= 0x9f ==> is_control(c),
        (c as u32) >= 0xa0 ==> !is_control(c),
        !is_control(' '),
{
}

/// Text without control characters, such as a typed space, is drawn
/// character for character: every character gets a slot.
pub proof fn lemma_plain_text_fully_drawn(text: Seq<char>, highlights: Seq<usize>)
    requires
        forall|i: int| 0 <= i < text.len() ==> !is_control(#[trigger] text[i]),
    ensures
        glyph_slots(text, highlights).len() == text.len(),
    decreases text.len(),
{
    if text.len() > 0 {
        assert(!is_control(text[text.len() - 1]));
        assert forall|i: int| 0 <= i < text.drop_last().len() implies !is_control(
            #[trigger] text.drop_last()[i],
        ) by {
            assert(text.drop_last()[i] == text[i]);
        }
        lemma_plain_text_fully_drawn(text.drop_last(), highlights);
    }
}

/// The selected window does not depend on how the list is scrolled: two
/// states that differ only in their scroll offset select the same window.
pub proof fn lemma_selection_ignores_scroll(a: WindowSwitcherState, b: WindowSwitcherState)
    requires
        a.windows == b.windows,
        a.filtered_windows == b.filtered_windows,
        a.selection_index == b.selection_index,
    ensures
        a.selected() == b.selected(),
{
}

/// The row drawn as selected shows the window that is focused on Return:
/// when row `k` of the view (item `scroll_offset + k`) is the selected item
/// and names a listed window, that window is the selected one.
pub proof fn lemma_selected_row_is_current(s: WindowSwitcherState, k: int)
    requires
        0 <= k,
        s.scroll_offset + k == s.selection_index,
        s.scroll_offset + k < s.filtered_windows.len(),
        s.filtered_windows@[s.scroll_offset + k].0 < s.windows.len(),
    ensures
        s.selected() == Some(s.windows@[s.filtered_windows@[s.scroll_offset + k].0 as int]),
{
}

/// The CJK fallback families are six different families, so each is tried
/// once and none is tried twice.
pub proof fn lemma_cjk_families_distinct()
    ensures
        forall|i: int, j: int|
            0 <= i < j < CJK_FAMILY_COUNT ==> #[trigger] cjk_family(i) != #[trigger] cjk_family(j),
        forall|i: int| 0 <= i < CJK_FAMILY_COUNT ==> #[trigger] cjk_family(i).len() > 0,
{
    assert forall|i: int, j: int|
        0 <= i < j < CJK_FAMILY_COUNT implies #[trigger] cjk_family(i) != #[trigger] cjk_family(j) by {
        let a = cjk_family(i);
        let b = cjk_family(j);
        if a.len() == b.len() {
            if i <= 3 && j <= 3 {
                assert(a[14] != b[14] || a[15] != b[15]);
            } else {
                assert(a[0] != b[0] || a[5] != b[5]);
            }
        }
    }
}

proof fn lemma_replace_absent(s: Seq<char>, pat: Seq<char>, rep: Seq<char>)
    requires
        pat.len() > 0,
        forall|i: int| 0 <= i < s.len() ==> #[trigger] s[i] != pat[0],
    ensures
        replace_all(s, pat, rep) == s,
    decreases s.len(),
{
    if s.len() > 0 {
        if pat.len() <= s.len() {
            assert(s.take(pat.len() as int)[0] == s[0]);
        }
        assert forall|i: int| 0 <= i < s.skip(1).len() implies #[trigger] s.skip(1)[i] != pat[0] by {
            assert(s.skip(1)[i] == s[i + 1]);
        }
        lemma_replace_absent(s.skip(1), pat, rep);
        assert(seq![s[0]] + s.skip(1) == s);
    }
}

/// A payload without backslashes or single quotes comes out unchanged from
/// both tuple shapes gdbus prints, `('…',)` and `('…')`.
pub proof fn lemma_plain_payload_unchanged(p: Seq<char>)
    requires
        forall|i: int| 0 <= i < p.len() ==> #[trigger] p[i] != '\\' && p[i] != '\'',
    ensures
        gdbus_json(seq!['(', '\''] + p + seq!['\'', ',', ')']) == p,
        gdbus_json(seq!['(', '\''] + p + seq!['\'', ')']) == p,
{
    let quote = seq!['\\', '"'];
    let slash = seq!['\\', '\\'];
    lemma_replace_absent(p, quote, seq!['"']);
    lemma_replace_absent(p, slash, seq!['\\']);
    let a = seq!['(', '\''] + p + seq!['\'', ',', ')'];
    assert(trim_start(a) == a);
    assert(trim_end(a) == a);
    assert(a.subrange(2, a.len() - 3) =~= p);
    let b = seq!['(', '\''] + p + seq!['\'', ')'];
    assert(trim_start(b) == b);
    assert(trim_end(b) == b);
    assert(b[b.len() - 2] == '\'');
    assert(b.subrange(2, b.len() - 2) =~= p);
}

/// The fallback order: the four regional Noto Sans CJK families (Japanese,
/// Korean, simplified and traditional Chinese, in that order), each the
/// generic "Noto Sans CJK" followed by a space and its region code, then the
/// generic family, then Droid Sans Fallback.
pub proof fn lemma_cjk_family_order()
    ensures
        forall|k: int|
            0 <= k < 4 ==> #[trigger] cjk_family(k) == cjk_family(4) + seq![' '] + (if k == 0 {
                seq!['J', 'P']
            } else if k == 1 {
                seq!['K', 'R']
            } else if k == 2 {
                seq!['S', 'C']
            } else {
                seq!['T', 'C']
            }),
        cjk_family(4) == seq!['N', 'o', 't', 'o', ' ', 'S', 'a', 'n', 's', ' ', 'C', 'J', 'K'],
        cjk_family(5) == seq![
            'D', 'r', 'o', 'i', 'd', ' ', 'S', 'a', 'n', 's', ' ', 'F', 'a', 'l', 'l', 'b', 'a', 'c', 'k',
        ],
{
    assert forall|k: int| 0 <= k < 4 implies #[trigger] cjk_family(k) == cjk_family(4) + seq![' ']
        + (if k == 0 {
        seq!['J', 'P']
    } else if k == 1 {
        seq!['K', 'R']
    } else if k == 2 {
        seq!['S', 'C']
    } else {
        seq!['T', 'C']
    }) by {
        assert(cjk_family(k) =~= cjk_family(4) + seq![' '] + (if k == 0 {
            seq!['J', 'P']
        } else if k == 1 {
            seq!['K', 'R']
        } else if k == 2 {
            seq!['S', 'C']
        } else {
            seq!['T', 'C']
        }));
    }
}

} // verus!




