//! Where the switcher's list goes on screen: how many items fit, which rows
//! are drawn at which height, and the text on the search bar.

use vstd::prelude::*;
use crate::text::{chars_of, string_from_chars};
use crate::window_switcher::{item_label, window_label, WindowSwitcherState};

verus! {

/// Height per list item (spacing), in pixels.
pub const ITEM_HEIGHT: u32 = 28;

/// Y offset where the item list begins (below the search bar).
pub const SEARCH_BAR_Y: u32 = 50;

/// Items stop this far from the bottom edge.
pub const BOTTOM_MARGIN: u32 = 30;

/// Top and bottom margins together, taken off the height available for items.
pub const TOP_BOTTOM_MARGIN: u32 = 80;

/// How many whole items fit in a window of the given height.
pub open spec fn items_that_fit(height: int) -> int {
    if height >= 80 {
        (height - 80) / 28
    } else {
        0
    }
}

/// How many rows start no lower than the bottom margin: row `k` starts at
/// `50 + 28 k` and is drawn while that is at most `height - 30`.
pub open spec fn rows_that_start(height: int) -> int {
    if height >= 80 {
        (height - 80) / 28 + 1
    } else {
        0
    }
}

/// The number of rows drawn for `len` items scrolled by `offset`.
pub open spec fn row_count(len: int, offset: int, height: int) -> int {
    let left = if offset < len {
        len - offset
    } else {
        0
    };
    if left < rows_that_start(height) {
        left
    } else {
        rows_that_start(height)
    }
}

/// The number of items scrolled through by `ensure_visible`: the whole
/// items that fit below the search bar and above the bottom margin.
pub fn max_visible_items(height: u32) -> (n: usize)
    ensures
        n == items_that_fit(height as int),
{
    if height >= TOP_BOTTOM_MARGIN {
        ((height - TOP_BOTTOM_MARGIN) / ITEM_HEIGHT) as usize
    } else {
        0
    }
}

/// One row of the window list as it is drawn.
pub struct ListRow {
    /// Position of the item in the filtered list.
    pub position: usize,
    /// Index of the window in the window list.
    pub window: usize,
    /// Top of the row, in pixels.
    pub y: u32,
    /// Whether the row is the selected one.
    pub selected: bool,
    /// The text shown, `"{wm_class} - {title}"`.
    pub label: String,
}

/// Every item that would be drawn at the given height names a listed window.
pub open spec fn rows_name_windows(state: &WindowSwitcherState, height: int) -> bool {
    forall|p: int|
        state.scroll_offset <= p < state.filtered_windows.len() && p - state.scroll_offset
            < rows_that_start(height) ==> #[trigger] state.filtered_windows@[p].0
            < state.windows.len()
}

/// Whether `visible_rows` can look up the window of every row it draws.
pub fn visible_rows_defined(state: &WindowSwitcherState, height: u32) -> (ok: bool)
    ensures
        ok == rows_name_windows(state, height as int),
{
    let len = state.filtered_windows.len();
    let mut i = state.scroll_offset;
    let mut k: u64 = 0;
    let fit: u64 = if height >= TOP_BOTTOM_MARGIN {
        ((height - TOP_BOTTOM_MARGIN) / ITEM_HEIGHT) as u64 + 1
    } else {
        0
    };
    while i < len && k < fit
        invariant
            len == state.filtered_windows.len(),
            fit == rows_that_start(height as int),
            state.scroll_offset <= i,
            k == i - state.scroll_offset,
            forall|p: int|
                state.scroll_offset <= p < i ==> #[trigger] state.filtered_windows@[p].0
                    < state.windows.len(),
        decreases len - i,
    {
        if state.filtered_windows[i].0 >= state.windows.len() {
            return false;
        }
        i = i + 1;
        k = k + 1;
    }
    true
}

/// The rows drawn in a window of the given height: the filtered items from
/// the scroll offset on, one every 28 pixels from 50 down, as long as a row
/// starts no lower than 30 pixels above the bottom edge.
pub fn visible_rows(state: &WindowSwitcherState, height: u32) -> (rows: Vec<ListRow>)
    requires
        rows_name_windows(state, height as int),
    ensures
        rows.len() == row_count(
            state.filtered_windows.len() as int,
            state.scroll_offset as int,
            height as int,
        ),
        forall|k: int|
            #![trigger rows@[k]]
            0 <= k < rows.len() ==> {
                &&& rows@[k].position == state.scroll_offset + k
                &&& rows@[k].window == state.filtered_windows@[state.scroll_offset + k].0
                &&& rows@[k].y == 50 + 28 * k
                &&& rows@[k].selected == (state.scroll_offset + k == state.selection_index)
                &&& rows@[k].label@ == window_label(state.windows@[rows@[k].window as int])
            },
{
    let mut rows: Vec<ListRow> = Vec::new();
    let len = state.filtered_windows.len();
    let mut i = state.scroll_offset;
    let mut y: u32 = SEARCH_BAR_Y;
    let ghost off = state.scroll_offset as int;
    while i < len && y as u64 + BOTTOM_MARGIN as u64 <= height as u64
        invariant
            len == state.filtered_windows.len(),
            off == state.scroll_offset,
            off <= i,
            off > len ==> i == off,
            off <= len ==> i <= len,
            rows.len() == i - off,
            y == 50 + 28 * (i - off),
            rows.len() <= rows_that_start(height as int),
            forall|p: int|
                state.scroll_offset <= p < state.filtered_windows.len() && p
                    - state.scroll_offset < rows_that_start(height as int)
                    ==> #[trigger] state.filtered_windows@[p].0 < state.windows.len(),
            forall|k: int|
                #![trigger rows@[k]]
                0 <= k < rows.len() ==> {
                    &&& rows@[k].position == off + k
                    &&& rows@[k].window == state.filtered_windows@[off + k].0
                    &&& rows@[k].y == 50 + 28 * k
                    &&& rows@[k].selected == (off + k == state.selection_index)
                    &&& rows@[k].label@ == window_label(state.windows@[rows@[k].window as int])
                },
        decreases len - i,
    {
        assert(rows.len() < rows_that_start(height as int)) by (nonlinear_arith)
            requires
                y == 50 + 28 * rows.len(),
                y + 30 <= height,
                rows_that_start(height as int) == (if height >= 80 {
                    (height - 80) / 28 + 1
                } else {
                    0
                }),
        ;
        assert(state.filtered_windows@[i as int].0 < state.windows.len());
        let win = state.filtered_windows[i].0;
        let label = item_label(&state.windows[win]);
        rows.push(ListRow { position: i, window: win, y, selected: i == state.selection_index, label });
        i = i + 1;
        y = y + ITEM_HEIGHT;
    }
    proof {
        if i < len {
            assert(rows.len() >= rows_that_start(height as int)) by (nonlinear_arith)
                requires
                    y == 50 + 28 * rows.len(),
                    y + 30 > height,
                    rows_that_start(height as int) == (if height >= 80 {
                        (height - 80) / 28 + 1
                    } else {
                        0
                    }),
            ;
            assert(rows.len() == rows_that_start(height as int));
        } else {
            assert(rows.len() == row_count(len as int, off, height as int));
        }
    }
    rows
}

/// What the search bar reads: `"Search: "` followed by the query.
pub open spec fn search_bar_text(query: Seq<char>) -> Seq<char> {
    seq!['S', 'e', 'a', 'r', 'c', 'h', ':', ' '] + query
}

/// The text of the search bar for the given query.
pub fn search_text(query: &str) -> (s: String)
    ensures
        s@ == search_bar_text(query@),
{
    let q = chars_of(query);
    let mut v: Vec<char> = vec!['S', 'e', 'a', 'r', 'c', 'h', ':', ' '];
    let ghost head = v@;
    let mut k: usize = 0;
    while k < q.len()
        invariant
            k <= q.len(),
            v@ == head + q@.take(k as int),
        decreases q.len() - k,
    {
        v.push(q[k]);
        assert(q@.take(k + 1) == q@.take(k as int).push(q@[k as int]));
        k = k + 1;
    }
    assert(q@.take(q.len() as int) == q@);
    string_from_chars(&v)
}

/// A display mode an output reports.
pub struct OutputMode {
    /// Width and height in pixels.
    pub dimensions: (i32, i32),
    pub current: bool,
    pub preferred: bool,
}

/// The first mode at or after `from` that is current or preferred.
pub open spec fn first_active_mode(modes: Seq<OutputMode>, from: int) -> Option<int>
    decreases modes.len() - from,
{
    if from < 0 || from >= modes.len() {
        None
    } else if modes[from].current || modes[from].preferred {
        Some(from)
    } else {
        first_active_mode(modes, from + 1)
    }
}

/// The size the switcher's window is scaled from: the output's logical
/// size when it reports one, else the size of its first current or
/// preferred mode, else none.
pub open spec fn base_size(logical_size: Option<(i32, i32)>, modes: Seq<OutputMode>) -> Option<
    (i32, i32),
> {
    match logical_size {
        Some(size) => Some(size),
        None => match first_active_mode(modes, 0) {
            Some(k) => Some(modes[k].dimensions),
            None => None,
        },
    }
}

/// The size of the first output that the switcher's window is sized by, as
/// `base_size` gives it.
pub fn output_base_size(logical_size: Option<(i32, i32)>, modes: &Vec<OutputMode>) -> (size: Option<
    (i32, i32),
>)
    ensures
        size == base_size(logical_size, modes@),
{
    match logical_size {
        Some(size) => Some(size),
        None => {
            let mut k: usize = 0;
            while k < modes.len()
                invariant
                    k <= modes.len(),
                    logical_size is None,
                    first_active_mode(modes@, 0) == first_active_mode(modes@, k as int),
                decreases modes.len() - k,
            {
                if modes[k].current || modes[k].preferred {
                    return Some(modes[k].dimensions);
                }
                k = k + 1;
            }
            None
        },
    }
}

} // verus!

