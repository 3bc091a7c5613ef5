//! The gdbus protocol of the GNOME Shell "Window Calls" extension: which calls
//! are made, with which command-line arguments, and how the JSON payload is
//! taken out of the tuple that gdbus prints.

use vstd::prelude::*;
use crate::text::{
    chars_of, copy_range, find_char, find_first, find_last, replace_all, replace_chars, rfind_char,
    string_from_chars, trim, trim_chars,
};

verus! {

broadcast use vstd::string::to_string_from_display_ensures_for_str;

/// One method call on the window extension: the method's name and its
/// optional argument.
pub struct GdbusCall {
    pub method: String,
    pub arg: Option<String>,
}

/// Name of the method that lists the open windows as JSON.
pub open spec fn list_method() -> Seq<char> {
    seq![
        'o', 'r', 'g', '.', 'g', 'n', 'o', 'm', 'e', '.', 'S', 'h', 'e', 'l', 'l', '.',
        'E', 'x', 't', 'e', 'n', 's', 'i', 'o', 'n', 's', '.', 'W', 'i', 'n', 'd', 'o', 'w', 's',
        '.', 'L', 'i', 's', 't',
    ]
}

/// Name of the method that focuses a window given its id.
pub open spec fn activate_method() -> Seq<char> {
    seq![
        'o', 'r', 'g', '.', 'g', 'n', 'o', 'm', 'e', '.', 'S', 'h', 'e', 'l', 'l', '.',
        'E', 'x', 't', 'e', 'n', 's', 'i', 'o', 'n', 's', '.', 'W', 'i', 'n', 'd', 'o', 'w', 's',
        '.', 'A', 'c', 't', 'i', 'v', 'a', 't', 'e',
    ]
}

/// The character of a decimal digit.
pub open spec fn digit_char(d: int) -> char {
    if d == 0 {
        '0'
    } else if d == 1 {
        '1'
    } else if d == 2 {
        '2'
    } else if d == 3 {
        '3'
    } else if d == 4 {
        '4'
    } else if d == 5 {
        '5'
    } else if d == 6 {
        '6'
    } else if d == 7 {
        '7'
    } else if d == 8 {
        '8'
    } else {
        '9'
    }
}

/// Decimal digits of a natural number, most significant first, no leading zeros.
pub open spec fn decimal_nat(n: nat) -> Seq<char>
    decreases n,
{
    if n < 10 {
        seq![digit_char(n as int)]
    } else {
        decimal_nat(n / 10).push(digit_char((n % 10) as int))
    }
}

/// The decimal rendering of an integer, as `Display` for integers writes it.
pub open spec fn decimal(n: int) -> Seq<char> {
    if n < 0 {
        seq!['-'] + decimal_nat((-n) as nat)
    } else {
        decimal_nat(n as nat)
    }
}

fn digit(d: u64) -> (c: char)
    requires
        d < 10,
    ensures
        c == digit_char(d as int),
{
    if d == 0 {
        '0'
    } else if d == 1 {
        '1'
    } else if d == 2 {
        '2'
    } else if d == 3 {
        '3'
    } else if d == 4 {
        '4'
    } else if d == 5 {
        '5'
    } else if d == 6 {
        '6'
    } else if d == 7 {
        '7'
    } else if d == 8 {
        '8'
    } else {
        '9'
    }
}

fn push_decimal(out: &mut Vec<char>, m: u64)
    ensures
        final(out)@ == old(out)@ + decimal_nat(m as nat),
    decreases m,
{
    if m >= 10 {
        push_decimal(out, m / 10);
    }
    out.push(digit(m % 10));
}

/// The decimal rendering of `n`, as `n.to_string()` gives it.
pub fn decimal_string(n: i64) -> (s: String)
    ensures
        s@ == decimal(n as int),
{
    let mut out: Vec<char> = Vec::new();
    if n < 0 {
        out.push('-');
        let m: u64 = (-(n as i128)) as u64;
        push_decimal(&mut out, m);
    } else {
        push_decimal(&mut out, n as u64);
    }
    string_from_chars(&out)
}

/// The call that lists the open windows.
pub fn list_windows() -> (call: GdbusCall)
    ensures
        call.method@ == list_method(),
        call.arg is None,
{
    let method = "org.gnome.Shell.Extensions.Windows.List";
    proof {
        reveal_strlit("org.gnome.Shell.Extensions.Windows.List");
    }
    GdbusCall { method: method.to_string(), arg: None }
}

/// The call that focuses the window with the given id; its argument is the
/// id in decimal.
pub fn activate_window(window_id: i64) -> (call: GdbusCall)
    ensures
        call.method@ == activate_method(),
        call.arg matches Some(a) && a@ == decimal(window_id as int),
{
    let method = "org.gnome.Shell.Extensions.Windows.Activate";
    proof {
        reveal_strlit("org.gnome.Shell.Extensions.Windows.Activate");
    }
    GdbusCall { method: method.to_string(), arg: Some(decimal_string(window_id)) }
}

/// The fixed part of every gdbus command line: a session-bus call on the
/// window extension's object, followed by `--method`.
pub open spec fn gdbus_prefix() -> Seq<Seq<char>> {
    seq![
        seq!['c', 'a', 'l', 'l'],
        seq!['-', '-', 's', 'e', 's', 's', 'i', 'o', 'n'],
        seq!['-', '-', 'd', 'e', 's', 't'],
        seq!['o', 'r', 'g', '.', 'g', 'n', 'o', 'm', 'e', '.', 'S', 'h', 'e', 'l', 'l'],
        seq!['-', '-', 'o', 'b', 'j', 'e', 'c', 't', '-', 'p', 'a', 't', 'h'],
        seq![
            '/', 'o', 'r', 'g', '/', 'g', 'n', 'o', 'm', 'e', '/', 'S', 'h', 'e', 'l', 'l', '/',
            'E', 'x', 't', 'e', 'n', 's', 'i', 'o', 'n', 's', '/', 'W', 'i', 'n', 'd', 'o', 'w', 's',
        ],
        seq!['-', '-', 'm', 'e', 't', 'h', 'o', 'd'],
    ]
}

/// The arguments given to the `gdbus` program for `call`: the fixed prefix,
/// the method's name, and the method's argument where there is one.
pub fn gdbus_args(call: &GdbusCall) -> (args: Vec<String>)
    ensures
        args@.len() == (if call.arg is Some { 9int } else { 8int }),
        forall|i: int| 0 <= i < 7 ==> #[trigger] args@[i]@ == gdbus_prefix()[i],
        args@[7]@ == call.method@,
        call.arg matches Some(a) ==> args@[8]@ == a@,
{
    proof {
        reveal_strlit("call");
        reveal_strlit("--session");
        reveal_strlit("--dest");
        reveal_strlit("org.gnome.Shell");
        reveal_strlit("--object-path");
        reveal_strlit("/org/gnome/Shell/Extensions/Windows");
        reveal_strlit("--method");
    }
    let mut args: Vec<String> = Vec::new();
    args.push("call".to_string());
    args.push("--session".to_string());
    args.push("--dest".to_string());
    args.push("org.gnome.Shell".to_string());
    args.push("--object-path".to_string());
    args.push("/org/gnome/Shell/Extensions/Windows".to_string());
    args.push("--method".to_string());
    args.push(call.method.clone());
    match &call.arg {
        Some(a) => args.push(a.clone()),
        None => {},
    }
    args
}

/// `t` has the shape `('…',)`.
pub open spec fn is_tuple_with_comma(t: Seq<char>) -> bool {
    &&& t.len() >= 3
    &&& t[0] == '('
    &&& t[1] == '\''
    &&& t[t.len() - 3] == '\''
    &&& t[t.len() - 2] == ','
    &&& t[t.len() - 1] == ')'
}

/// `t` has the shape `('…')`.
pub open spec fn is_plain_tuple(t: Seq<char>) -> bool {
    &&& t.len() >= 2
    &&& t[0] == '('
    &&& t[1] == '\''
    &&& t[t.len() - 2] == '\''
    &&& t[t.len() - 1] == ')'
}

/// The text that `extract_json_from_gdbus` takes out of the trimmed output
/// `t`, before unescaping: the inside of `('…',)` or `('…')`, else the span
/// from the first `[` to the last `]` where both occur, else `t` itself.
pub open spec fn gdbus_payload(t: Seq<char>) -> Seq<char> {
    if is_tuple_with_comma(t) {
        t.subrange(2, t.len() - 3)
    } else if is_plain_tuple(t) {
        t.subrange(2, t.len() - 2)
    } else {
        match (find_first(t, '['), find_last(t, ']')) {
            (Some(a), Some(b)) => t.subrange(a, b + 1),
            _ => t,
        }
    }
}

/// The outputs on which the payload cannot be cut out: where the opening
/// `('` and the closing quote overlap, and where the last `]` stands more
/// than one place before the first `[`.
pub open spec fn gdbus_payload_undefined(t: Seq<char>) -> bool {
    if is_tuple_with_comma(t) {
        t.len() < 5
    } else if is_plain_tuple(t) {
        t.len() < 4
    } else {
        match (find_first(t, '['), find_last(t, ']')) {
            (Some(a), Some(b)) => a > b + 1,
            _ => false,
        }
    }
}

/// Whether `extract_json_from_gdbus` can take the payload out of `input`.
pub fn gdbus_payload_defined(input: &str) -> (ok: bool)
    ensures
        ok == !gdbus_payload_undefined(trim(input@)),
{
    let raw = chars_of(input);
    let t = trim_chars(&raw);
    let n = t.len();
    let opens = n >= 2 && t[0] == '(' && t[1] == '\'';
    if opens && n >= 3 && t[n - 3] == '\'' && t[n - 2] == ',' && t[n - 1] == ')' {
        assert(is_tuple_with_comma(t@));
        n >= 5
    } else if opens && t[n - 2] == '\'' && t[n - 1] == ')' {
        assert(!is_tuple_with_comma(t@) && is_plain_tuple(t@));
        n >= 4
    } else {
        assert(!is_tuple_with_comma(t@) && !is_plain_tuple(t@));
        match find_char(&t, '[') {
            Some(a) => match rfind_char(&t, ']') {
                Some(b) => a <= b + 1,
                None => true,
            },
            None => true,
        }
    }
}

/// Undoes the escaping of gdbus: `\"` becomes `"`, then `\\` becomes `\`.
pub open spec fn gdbus_unescape(s: Seq<char>) -> Seq<char> {
    replace_all(replace_all(s, seq!['\\', '"'], seq!['"']), seq!['\\', '\\'], seq!['\\'])
}

/// The JSON text inside what gdbus prints for a call that returns a string.
pub open spec fn gdbus_json(input: Seq<char>) -> Seq<char> {
    gdbus_unescape(gdbus_payload(trim(input)))
}

/// Takes the JSON text out of the output of a gdbus call: the output is
/// trimmed, the quoted tuple around the payload removed (or, failing that,
/// the outermost `[` … `]` span kept), and the gdbus escapes undone.
pub fn extract_json_from_gdbus(input: &str) -> (json: String)
    requires
        !gdbus_payload_undefined(trim(input@)),
    ensures
        json@ == gdbus_json(input@),
{
    let raw = chars_of(input);
    let t = trim_chars(&raw);
    let n = t.len();
    let opens = n >= 2 && t[0] == '(' && t[1] == '\'';
    let extracted = if opens && n >= 3 && t[n - 3] == '\'' && t[n - 2] == ',' && t[n - 1] == ')' {
        assert(is_tuple_with_comma(t@));
        copy_range(&t, 2, n - 3)
    } else if opens && t[n - 2] == '\'' && t[n - 1] == ')' {
        assert(!is_tuple_with_comma(t@) && is_plain_tuple(t@));
        copy_range(&t, 2, n - 2)
    } else {
        assert(!is_tuple_with_comma(t@) && !is_plain_tuple(t@));
        assert(t@.subrange(0, n as int) == t@);
        match find_char(&t, '[') {
            Some(a) => match rfind_char(&t, ']') {
                Some(b) => copy_range(&t, a, b + 1),
                None => copy_range(&t, 0, n),
            },
            None => copy_range(&t, 0, n),
        }
    };
    assert(extracted@ == gdbus_payload(t@));
    let quote_pat = vec!['\\', '"'];
    let quote_rep = vec!['"'];
    let slash_pat = vec!['\\', '\\'];
    let slash_rep = vec!['\\'];
    assert(quote_pat@ == seq!['\\', '"']);
    assert(quote_rep@ == seq!['"']);
    assert(slash_pat@ == seq!['\\', '\\']);
    assert(slash_rep@ == seq!['\\']);
    let once = replace_chars(&extracted, &quote_pat, &quote_rep);
    let twice = replace_chars(&once, &slash_pat, &slash_rep);
    string_from_chars(&twice)
}

} // verus!
