//! Reading the desktop's font setting: `gsettings` prints the font as a
//! quoted `"Family Name Size"`, of which the family name is wanted.

use vstd::prelude::*;
use crate::text::{
    chars_of, copy_range, find_last, rfind_char, string_from_chars, trim, trim_chars,
};

verus! {

/// `s` without its leading `c` characters.
pub open spec fn strip_leading(s: Seq<char>, c: char) -> Seq<char>
    decreases s.len(),
{
    if s.len() > 0 && s[0] == c {
        strip_leading(s.drop_first(), c)
    } else {
        s
    }
}

/// `s` without its trailing `c` characters.
pub open spec fn strip_trailing(s: Seq<char>, c: char) -> Seq<char>
    decreases s.len(),
{
    if s.len() > 0 && s.last() == c {
        strip_trailing(s.drop_last(), c)
    } else {
        s
    }
}

/// The setting's value: the output trimmed, then every leading and trailing
/// single quote removed, as `trim().trim_matches('\'')` gives it.
pub open spec fn setting_value(raw: Seq<char>) -> Seq<char> {
    strip_trailing(strip_leading(trim(raw), '\''), '\'')
}

/// The value of a `gsettings get` answer, without white space and quotes.
pub fn font_setting_value(raw: &str) -> (value: String)
    ensures
        value@ == setting_value(raw@),
{
    let all = chars_of(raw);
    let v = trim_chars(&all);
    let n = v.len();
    let mut i: usize = 0;
    assert(v@.subrange(0, n as int) == v@);
    while i < n && v[i] == '\''
        invariant
            i <= n == v.len(),
            strip_leading(v@, '\'') == strip_leading(v@.subrange(i as int, n as int), '\''),
        decreases n - i,
    {
        assert(v@.subrange(i as int, n as int).drop_first() == v@.subrange(i + 1, n as int));
        i = i + 1;
    }
    let mut j: usize = n;
    while j > i && v[j - 1] == '\''
        invariant
            i <= j <= n == v.len(),
            strip_leading(v@, '\'') == v@.subrange(i as int, n as int),
            setting_value(raw@) == strip_trailing(v@.subrange(i as int, j as int), '\''),
        decreases j,
    {
        assert(v@.subrange(i as int, j as int).drop_last() == v@.subrange(i as int, j - 1));
        j = j - 1;
    }
    string_from_chars(&copy_range(&v, i, j))
}

/// Splits a font setting at its last space into the family name before it
/// and the size after it, as `rsplitn(2, ' ')` does; `None` when there is
/// no space.
pub fn split_font_size(value: &str) -> (parts: Option<(String, String)>)
    ensures
        match find_last(value@, ' ') {
            Some(k) => parts matches Some((family, size)) && family@ == value@.subrange(0, k)
                && size@ == value@.subrange(k + 1, value@.len() as int),
            None => parts is None,
        },
{
    let v = chars_of(value);
    match rfind_char(&v, ' ') {
        Some(k) => {
            let family = string_from_chars(&copy_range(&v, 0, k));
            let size = string_from_chars(&copy_range(&v, k + 1, v.len()));
            Some((family, size))
        },
        None => None,
    }
}


/// How many CJK fallback families are tried.
pub const CJK_FAMILY_COUNT: usize = 6;

/// The CJK fallback families, tried in this order.
pub open spec fn cjk_family(k: int) -> Seq<char> {
    if k == 0 {
        seq!['N', 'o', 't', 'o', ' ', 'S', 'a', 'n', 's', ' ', 'C', 'J', 'K', ' ', 'J', 'P']
    } else     if k == 1 {
        seq!['N', 'o', 't', 'o', ' ', 'S', 'a', 'n', 's', ' ', 'C', 'J', 'K', ' ', 'K', 'R']
    } else     if k == 2 {
        seq!['N', 'o', 't', 'o', ' ', 'S', 'a', 'n', 's', ' ', 'C', 'J', 'K', ' ', 'S', 'C']
    } else     if k == 3 {
        seq!['N', 'o', 't', 'o', ' ', 'S', 'a', 'n', 's', ' ', 'C', 'J', 'K', ' ', 'T', 'C']
    } else     if k == 4 {
        seq!['N', 'o', 't', 'o', ' ', 'S', 'a', 'n', 's', ' ', 'C', 'J', 'K']
    } else {
        seq!['D', 'r', 'o', 'i', 'd', ' ', 'S', 'a', 'n', 's', ' ', 'F', 'a', 'l', 'l', 'b', 'a', 'c', 'k']
    }
}

/// The name of CJK fallback family `k`.
pub fn cjk_family_name(k: usize) -> (name: String)
    requires
        k < CJK_FAMILY_COUNT,
    ensures
        name@ == cjk_family(k as int),
{
    let name = if k == 0 {
        proof {
            reveal_strlit("Noto Sans CJK JP");
        }
        "Noto Sans CJK JP"
    } else if k == 1 {
        proof {
            reveal_strlit("Noto Sans CJK KR");
        }
        "Noto Sans CJK KR"
    } else if k == 2 {
        proof {
            reveal_strlit("Noto Sans CJK SC");
        }
        "Noto Sans CJK SC"
    } else if k == 3 {
        proof {
            reveal_strlit("Noto Sans CJK TC");
        }
        "Noto Sans CJK TC"
    } else if k == 4 {
        proof {
            reveal_strlit("Noto Sans CJK");
        }
        "Noto Sans CJK"
    } else {
        proof {
            reveal_strlit("Droid Sans Fallback");
        }
        "Droid Sans Fallback"
    };
    name.to_string()
}

/// A font the search asks to load.
pub enum FontRequest {
    /// The family with this name.
    Named(String),
    /// The generic sans-serif family.
    SansSerif,
}

/// The family a request names, or `None` for sans-serif.
pub open spec fn requested_family(request: FontRequest) -> Option<Seq<char>> {
    match request {
        FontRequest::Named(name) => Some(name@),
        FontRequest::SansSerif => None,
    }
}

/// Where the font search stands.
pub enum FontStage {
    /// The desktop's font (or sans-serif when there is no setting) is next.
    Primary,
    /// CJK fallback family `k` is next.
    Cjk(usize),
    /// Nothing more is tried.
    Finished,
}

/// The family the desktop names, as a plain value.
pub open spec fn desktop_family(de_font: Option<String>) -> Option<Seq<char>> {
    match de_font {
        Some(name) => Some(name@),
        None => None,
    }
}

/// A step's answer as plain values: the next stage, and the family to
/// request (`Some(None)` for sans-serif), `None` when the search is over.
pub open spec fn step_view(step: (FontStage, Option<FontRequest>)) -> (FontStage, Option<
    Option<Seq<char>>,
>) {
    (
        step.0,
        match step.1 {
            Some(request) => Some(requested_family(request)),
            None => None,
        },
    )
}

/// One step of the font search over plain values; `desktop` is the
/// desktop's family (`None` when it names none), `loaded` how many fonts
/// have loaded, `last_found` whether the previous request loaded.
pub open spec fn font_step(
    stage: FontStage,
    desktop: Option<Seq<char>>,
    loaded: int,
    last_found: bool,
) -> (FontStage, Option<Option<Seq<char>>>) {
    match stage {
        FontStage::Primary => (FontStage::Cjk(0), Some(desktop)),
        FontStage::Cjk(k) => if k < CJK_FAMILY_COUNT && !(k > 0 && last_found) {
            (FontStage::Cjk((k + 1) as usize), Some(Some(cjk_family(k as int))))
        } else if loaded == 0 {
            (FontStage::Finished, Some(None))
        } else {
            (FontStage::Finished, None)
        },
        FontStage::Finished => (FontStage::Finished, None),
    }
}

/// The fonts that loaded, in order, when the search runs from `stage` for
/// at most `fuel` steps, each request loading exactly when `loads` says so.
pub open spec fn font_search_run(
    stage: FontStage,
    desktop: Option<Seq<char>>,
    loaded: Seq<Option<Seq<char>>>,
    last_found: bool,
    loads: spec_fn(Option<Seq<char>>) -> bool,
    fuel: nat,
) -> Seq<Option<Seq<char>>>
    decreases fuel,
{
    if fuel == 0 {
        loaded
    } else {
        let (next, request) = font_step(stage, desktop, loaded.len() as int, last_found);
        match request {
            None => loaded,
            Some(family) => {
                let ok = loads(family);
                font_search_run(
                    next,
                    desktop,
                    if ok {
                        loaded.push(family)
                    } else {
                        loaded
                    },
                    ok,
                    loads,
                    (fuel - 1) as nat,
                )
            },
        }
    }
}

/// The first CJK fallback family from position `k` on that loads.
pub open spec fn first_cjk_from(k: int, loads: spec_fn(Option<Seq<char>>) -> bool) -> Option<int>
    decreases CJK_FAMILY_COUNT - k,
{
    if k < 0 || k >= CJK_FAMILY_COUNT {
        None
    } else if loads(Some(cjk_family(k))) {
        Some(k)
    } else {
        first_cjk_from(k + 1, loads)
    }
}

/// The CJK fallback that loads from position `k` on, if any, as a list.
pub open spec fn cjk_found_from(k: int, loads: spec_fn(Option<Seq<char>>) -> bool) -> Seq<
    Option<Seq<char>>,
> {
    match first_cjk_from(k, loads) {
        Some(j) => seq![Some(cjk_family(j))],
        None => Seq::empty(),
    }
}

/// `found`, with sans-serif added when nothing was found and it loads.
pub open spec fn with_last_resort(
    found: Seq<Option<Seq<char>>>,
    loads: spec_fn(Option<Seq<char>>) -> bool,
) -> Seq<Option<Seq<char>>> {
    if found.len() == 0 && loads(None) {
        seq![None]
    } else {
        found
    }
}

/// The fonts the whole search loads: the primary font when it loads, then
/// the first CJK fallback that loads, and sans-serif only when neither did.
pub open spec fn font_search_outcome(
    desktop: Option<Seq<char>>,
    loads: spec_fn(Option<Seq<char>>) -> bool,
) -> Seq<Option<Seq<char>>> {
    let primary = if loads(desktop) {
        seq![desktop]
    } else {
        Seq::empty()
    };
    with_last_resort(primary + cjk_found_from(0, loads), loads)
}

/// One step of the font search. The desktop's font comes first, or
/// sans-serif when the desktop names none; then the CJK fallback families
/// in order until one loads (`last_found` tells whether the previous
/// request loaded); then, only when no font has loaded at all, sans-serif.
/// The answer is the next stage and the font to request, `None` when the
/// search is over.
pub fn next_font_request(
    stage: &FontStage,
    de_font: &Option<String>,
    loaded: usize,
    last_found: bool,
) -> (step: (FontStage, Option<FontRequest>))
    ensures
        match *stage {
            FontStage::Primary => {
                &&& step.0 == FontStage::Cjk(0)
                &&& step.1 is Some
                &&& requested_family(step.1->Some_0) == match *de_font {
                    Some(name) => Some(name@),
                    None => None::<Seq<char>>,
                }
            },
            FontStage::Cjk(k) => if k < CJK_FAMILY_COUNT && !(k > 0 && last_found) {
                &&& step.0 == FontStage::Cjk((k + 1) as usize)
                &&& step.1 is Some
                &&& requested_family(step.1->Some_0) == Some(cjk_family(k as int))
            } else {
                &&& step.0 == FontStage::Finished
                &&& (step.1 is Some <==> loaded == 0)
                &&& (step.1 is Some ==> requested_family(step.1->Some_0) is None)
            },
            FontStage::Finished => step.0 == FontStage::Finished && step.1 is None,
        },
        step_view(step) == font_step(*stage, desktop_family(*de_font), loaded as int, last_found),
{
    match stage {
        FontStage::Primary => {
            let request = match de_font {
                Some(name) => FontRequest::Named(name.clone()),
                None => FontRequest::SansSerif,
            };
            (FontStage::Cjk(0), Some(request))
        },
        FontStage::Cjk(k) => {
            let k = *k;
            if k < CJK_FAMILY_COUNT && !(k > 0 && last_found) {
                (FontStage::Cjk(k + 1), Some(FontRequest::Named(cjk_family_name(k))))
            } else if loaded == 0 {
                (FontStage::Finished, Some(FontRequest::SansSerif))
            } else {
                (FontStage::Finished, None)
            }
        },
        FontStage::Finished => (FontStage::Finished, None),
    }
}

} // verus!
