use vstd::prelude::*;

use super::value::{lemma_members_view, lemma_values_view, members_view, values_view, JsonView, Value};
use super::Json;
use crate::error::CordError;
use crate::protocol::error::ProtocolError;
use crate::util::text::{chars_of, push_char};

verus! {

/// ASCII whitespace: space, tab, line feed, form feed, carriage return.
pub open spec fn is_ascii_ws(c: char) -> bool {
    c == ' ' || c == '\t' || c == '\n' || c == '\x0C' || c == '\r'
}

/// Unicode whitespace (the White_Space property).
pub open spec fn is_whitespace(c: char) -> bool {
    let n = c as u32;
    (0x9 <= n && n <= 0xd) || n == 0x20 || n == 0x85 || n == 0xa0 || n == 0x1680 || (0x2000 <= n
        && n <= 0x200a) || n == 0x2028 || n == 0x2029 || n == 0x202f || n == 0x205f || n == 0x3000
}

/// A text without its leading whitespace.
pub open spec fn trim_start(s: Seq<char>) -> Seq<char>
    decreases s.len(),
{
    if s.len() > 0 && is_whitespace(s[0]) {
        trim_start(s.drop_first())
    } else {
        s
    }
}

/// A text without its trailing whitespace.
pub open spec fn trim_end(s: Seq<char>) -> Seq<char>
    decreases s.len(),
{
    if s.len() > 0 && is_whitespace(s.last()) {
        trim_end(s.drop_last())
    } else {
        s
    }
}

/// A text without leading and trailing whitespace.
pub open spec fn trim(s: Seq<char>) -> Seq<char> {
    trim_end(trim_start(s))
}

/// The first byte of a character's UTF-8 encoding, read as a character.
pub open spec fn lead_byte(c: char) -> char {
    let n = c as nat;
    (if n < 0x80 {
        n
    } else if n < 0x800 {
        0xc0 + n / 0x40
    } else if n < 0x1_0000 {
        0xe0 + n / 0x1000
    } else {
        0xf0 + n / 0x4_0000
    }) as char
}

/// The first position from `pos` on that holds no ASCII whitespace.
pub open spec fn skip_ws(s: Seq<char>, pos: int) -> int
    decreases s.len() - pos,
{
    if 0 <= pos < s.len() && is_ascii_ws(s[pos]) {
        skip_ws(s, pos + 1)
    } else {
        pos
    }
}

pub proof fn lemma_skip_ws(s: Seq<char>, pos: int)
    ensures
        skip_ws(s, pos) >= pos,
        pos <= s.len() ==> skip_ws(s, pos) <= s.len(),
    decreases s.len() - pos,
{
    if 0 <= pos < s.len() && is_ascii_ws(s[pos]) {
        lemma_skip_ws(s, pos + 1);
    }
}

/// The rest of a string from `pos` on, up to its closing quote, a
/// backslash skipping the character after it; the string's text from
/// `start`, and the position after the quote.
pub open spec fn scan_string(s: Seq<char>, pos: int, start: int) -> Result<(Seq<char>, int), ProtocolError>
    decreases s.len() + 2 - pos,
{
    if pos < 0 || pos >= s.len() {
        Err(ProtocolError::UnexpectedEnd)
    } else if s[pos] == '"' {
        Ok((s.subrange(start, pos), pos + 1))
    } else if s[pos] == '\\' {
        scan_string(s, pos + 2, start)
    } else {
        scan_string(s, pos + 1, start)
    }
}

pub proof fn lemma_scan_string(s: Seq<char>, pos: int, start: int)
    requires
        0 <= start <= pos,
    ensures
        scan_string(s, pos, start) matches Ok((t, e)) ==> pos < e <= s.len() && t == s.subrange(
            start,
            e - 1,
        ),
    decreases s.len() + 2 - pos,
{
    if 0 <= pos < s.len() && s[pos] != '"' {
        if s[pos] == '\\' {
            lemma_scan_string(s, pos + 2, start);
        } else {
            lemma_scan_string(s, pos + 1, start);
        }
    }
}

/// A literal word at `start`.
pub open spec fn parse_literal(
    s: Seq<char>,
    start: int,
    word: Seq<char>,
    v: JsonView,
    msg: &'static str,
) -> Result<(JsonView, int), ProtocolError> {
    if start + word.len() <= s.len() && s.subrange(start, start + word.len()) == word {
        Ok((v, start + word.len()))
    } else {
        Err(ProtocolError::InvalidSyntax(msg))
    }
}

/// A decimal digit.
pub open spec fn is_digit(c: char) -> bool {
    '0' <= c && c <= '9'
}

/// The characters of a number from `pos` on, after `acc`: digits, one
/// decimal point, and exponents (written `e`, each with an optional sign),
/// up to whitespace, a comma, a closing brace or bracket, or the end.
pub open spec fn scan_number(s: Seq<char>, pos: int, acc: Seq<char>) -> Result<(Seq<char>, int), ProtocolError>
    decreases s.len() + 2 - pos,
{
    if pos < 0 || pos >= s.len() {
        Ok((acc, pos))
    } else {
        let c = s[pos];
        if is_digit(c) {
            scan_number(s, pos + 1, acc.push(c))
        } else if c == '.' {
            if acc.contains('.') {
                Err(ProtocolError::InvalidSyntax("Multiple decimal points"))
            } else {
                scan_number(s, pos + 1, acc.push('.'))
            }
        } else if c == 'e' || c == 'E' {
            let p = pos + 1;
            if p < s.len() && (s[p] == '+' || s[p] == '-') {
                scan_number(s, p + 1, acc.push('e').push(s[p]))
            } else {
                scan_number(s, p, acc.push('e'))
            }
        } else if is_ascii_ws(c) || c == ',' || c == '}' || c == ']' {
            Ok((acc, pos))
        } else {
            Err(ProtocolError::UnexpectedChar(lead_byte(c)))
        }
    }
}

/// All characters are digits.
pub open spec fn all_digits(s: Seq<char>) -> bool {
    forall|i: int| 0 <= i < s.len() ==> is_digit(#[trigger] s[i])
}

/// The position of the first exponent mark, or the length.
pub open spec fn exp_start(s: Seq<char>) -> nat
    decreases s.len(),
{
    if s.len() == 0 {
        0
    } else if s[0] == 'e' || s[0] == 'E' {
        0
    } else {
        1 + exp_start(s.drop_first())
    }
}

/// A mantissa: digits with at most one decimal point, and a digit.
pub open spec fn valid_mantissa(m: Seq<char>) -> bool {
    &&& forall|i: int| 0 <= i < m.len() ==> is_digit(#[trigger] m[i]) || m[i] == '.'
    &&& forall|i: int, j: int| 0 <= i < j < m.len() ==> !(#[trigger] m[i] == '.' && #[trigger] m[j] == '.')
    &&& exists|i: int| 0 <= i < m.len() && is_digit(#[trigger] m[i])
}

/// An exponent: nothing, or `e`, an optional sign and digits.
pub open spec fn valid_exponent(x: Seq<char>) -> bool {
    x.len() == 0 || ((x[0] == 'e' || x[0] == 'E') && {
        let r = x.drop_first();
        let d = if r.len() > 0 && (r[0] == '+' || r[0] == '-') {
            r.drop_first()
        } else {
            r
        };
        d.len() >= 1 && all_digits(d)
    })
}

/// Text that reads as a finite floating-point number: an optional sign, a
/// mantissa (digits, digits and a point, or a point and digits), and an
/// optional exponent.
pub open spec fn valid_float(t: Seq<char>) -> bool {
    let body = if t.len() > 0 && (t[0] == '+' || t[0] == '-') {
        t.drop_first()
    } else {
        t
    };
    let k = exp_start(body);
    valid_mantissa(body.take(k as int)) && valid_exponent(body.skip(k as int))
}

/// A number at `start`, kept as its text.
pub open spec fn parse_number(s: Seq<char>, start: int) -> Result<(JsonView, int), ProtocolError> {
    let (acc, p) = if 0 <= start < s.len() && s[start] == '-' {
        (seq!['-'], start + 1)
    } else {
        (Seq::empty(), start)
    };
    match scan_number(s, p, acc) {
        Ok((t, e)) => if valid_float(t) {
            Ok((JsonView::Number(t), e))
        } else {
            Err(ProtocolError::InvalidSyntax("Invalid number format"))
        },
        Err(e) => Err(e),
    }
}

/// Setting a member of an object: an existing member with the key gets the
/// value, otherwise the member is added.
pub open spec fn member_index(m: Seq<(Seq<char>, JsonView)>, key: Seq<char>) -> int
    decreases m.len(),
{
    if m.len() == 0 {
        -1
    } else if m.last().0 == key {
        m.len() - 1
    } else {
        member_index(m.drop_last(), key)
    }
}

pub open spec fn set_member(
    m: Seq<(Seq<char>, JsonView)>,
    key: Seq<char>,
    v: JsonView,
) -> Seq<(Seq<char>, JsonView)> {
    let i = member_index(m, key);
    if i >= 0 {
        m.update(i, (key, v))
    } else {
        m.push((key, v))
    }
}

/// A value at `start`, after optional ASCII whitespace.
pub open spec fn parse_value(s: Seq<char>, start: int) -> Result<(JsonView, int), ProtocolError>
    decreases s.len() + 2 - start, 0nat,
{
    let p = skip_ws(s, start);
    proof {
        lemma_skip_ws(s, start);
    }
    if p < 0 || p >= s.len() {
        Err(ProtocolError::UnexpectedEnd)
    } else {
        let c = s[p];
        if c == '"' {
            match scan_string(s, p + 1, p + 1) {
                Ok((t, e)) => Ok((JsonView::String(t), e)),
                Err(e) => Err(e),
            }
        } else if c == '[' {
            parse_array(s, p + 1, true, Seq::empty())
        } else if c == '{' {
            parse_object(s, p + 1, true, Seq::empty())
        } else if c == 't' {
            parse_literal(s, p, "true"@, JsonView::Bool(true), "Invalid 'true' value")
        } else if c == 'f' {
            parse_literal(s, p, "false"@, JsonView::Bool(false), "Invalid 'false' value")
        } else if c == 'n' {
            parse_literal(s, p, "null"@, JsonView::Null, "Invalid 'null' value")
        } else if c == '-' || is_digit(c) {
            parse_number(s, p)
        } else {
            Err(ProtocolError::UnexpectedChar(lead_byte(c)))
        }
    }
}

/// The rest of an array from `pos` on, after the elements `acc`; a value is
/// due when `expecting`.
pub open spec fn parse_array(s: Seq<char>, pos: int, expecting: bool, acc: Seq<JsonView>) -> Result<
    (JsonView, int),
    ProtocolError,
>
    decreases s.len() + 2 - pos, 1nat,
{
    if pos < 0 || pos >= s.len() {
        Err(ProtocolError::UnexpectedEnd)
    } else {
        let p = skip_ws(s, pos);
        proof {
            lemma_skip_ws(s, pos);
        }
        if p >= s.len() {
            Err(ProtocolError::UnexpectedEnd)
        } else {
            let c = s[p];
            if c == ']' && !expecting {
                Ok((JsonView::Array(acc), p + 1))
            } else if c == ',' && !expecting {
                parse_array(s, p + 1, true, acc)
            } else if expecting {
                match parse_value(s, p) {
                    Ok((v, p2)) => if p2 <= p || p2 > s.len() {
                        Err(ProtocolError::UnexpectedEnd)
                    } else {
                        parse_array(s, p2, false, acc.push(v))
                    },
                    Err(e) => Err(e),
                }
            } else {
                Err(ProtocolError::UnexpectedChar(lead_byte(c)))
            }
        }
    }
}

/// The rest of an object from `pos` on, after the members `acc`; a key is
/// due when `expecting`.
pub open spec fn parse_object(
    s: Seq<char>,
    pos: int,
    expecting: bool,
    acc: Seq<(Seq<char>, JsonView)>,
) -> Result<(JsonView, int), ProtocolError>
    decreases s.len() + 2 - pos, 1nat,
{
    if pos < 0 || pos >= s.len() {
        Err(ProtocolError::UnexpectedEnd)
    } else {
        let p = skip_ws(s, pos);
        proof {
            lemma_skip_ws(s, pos);
        }
        if p >= s.len() {
            Err(ProtocolError::UnexpectedEnd)
        } else {
            let c = s[p];
            if c == '}' && !expecting {
                Ok((JsonView::Object(acc), p + 1))
            } else if c == ',' && !expecting {
                parse_object(s, p + 1, true, acc)
            } else if c == '"' && expecting {
                match scan_string(s, p + 1, p + 1) {
                    Err(e) => Err(e),
                    Ok((key, q)) => {
                        let q1 = skip_ws(s, q);
                        proof {
                            lemma_scan_string(s, p + 1, p + 1);
                            lemma_skip_ws(s, q);
                        }
                        if q1 < 0 || q1 >= s.len() || s[q1] != ':' {
                            Err(ProtocolError::InvalidSyntax("Expected ':' after key"))
                        } else {
                            let q2 = skip_ws(s, q1 + 1);
                            proof {
                                lemma_skip_ws(s, q1 + 1);
                            }
                            if q2 <= p {
                                Err(ProtocolError::UnexpectedEnd)
                            } else {
                                match parse_value(s, q2) {
                                    Ok((v, p2)) => if p2 <= p || p2 > s.len() {
                                        Err(ProtocolError::UnexpectedEnd)
                                    } else {
                                        parse_object(s, p2, false, set_member(acc, key, v))
                                    },
                                    Err(e) => Err(e),
                                }
                            }
                        }
                    },
                }
            } else {
                Err(ProtocolError::UnexpectedChar(lead_byte(c)))
            }
        }
    }
}

/// Decoding a JSON object: the text without surrounding whitespace must
/// start with `{` and end with `}`; its members are read from there.
pub open spec fn spec_json_deserialize(input: Seq<char>) -> Result<Seq<(Seq<char>, JsonView)>, ProtocolError> {
    let t = trim(input);
    if t.len() == 0 || t[0] != '{' || t.last() != '}' {
        Err(ProtocolError::InvalidSyntax("Invalid JSON object"))
    } else {
        match parse_object(t, 1, true, Seq::empty()) {
            Ok((JsonView::Object(m), _)) => Ok(m),
            Ok(_) => Err(ProtocolError::InvalidSyntax("Expected object")),
            Err(e) => Err(e),
        }
    }
}

/// The characters of `s` from `a` up to `b`, as a text.
fn string_of(s: &Vec<char>, a: usize, b: usize) -> (r: String)
    requires
        a <= b <= s@.len(),
    ensures
        r@ == s@.subrange(a as int, b as int),
{
    let mut out = String::new();
    let mut i = a;
    while i < b
        invariant
            a <= i <= b,
            b <= s@.len(),
            out@ == s@.subrange(a as int, i as int),
        decreases b - i,
    {
        push_char(&mut out, s[i]);
        i = i + 1;
        assert(out@ =~= s@.subrange(a as int, i as int));
    }
    out
}

fn is_ascii_ws_exec(c: char) -> (r: bool)
    ensures
        r == is_ascii_ws(c),
{
    c == ' ' || c == '\t' || c == '\n' || c == '\x0C' || c == '\r'
}

fn is_whitespace_exec(c: char) -> (r: bool)
    ensures
        r == is_whitespace(c),
{
    let n = c as u32;
    (0x9 <= n && n <= 0xd) || n == 0x20 || n == 0x85 || n == 0xa0 || n == 0x1680 || (0x2000 <= n
        && n <= 0x200a) || n == 0x2028 || n == 0x2029 || n == 0x202f || n == 0x205f || n == 0x3000
}

fn lead_byte_exec(c: char) -> (r: char)
    ensures
        r == lead_byte(c),
{
    let n = c as u32;
    let b: u32 = if n < 0x80 {
        n
    } else if n < 0x800 {
        0xc0 + n / 0x40
    } else if n < 0x1_0000 {
        0xe0 + n / 0x1000
    } else {
        0xf0 + n / 0x4_0000
    };
    assert(b < 0x100);
    (b as u8) as char
}

fn skip_ws_exec(s: &Vec<char>, pos: usize) -> (r: usize)
    requires
        pos <= s@.len(),
    ensures
        r == skip_ws(s@, pos as int),
        pos <= r <= s@.len(),
{
    let mut p = pos;
    while p < s.len() && is_ascii_ws_exec(s[p])
        invariant
            pos <= p <= s@.len(),
            skip_ws(s@, p as int) == skip_ws(s@, pos as int),
        decreases s@.len() - p,
    {
        p = p + 1;
    }
    p
}

/// What an executable step gives, compared with what its spec says.
pub open spec fn agrees_text(spec: Result<(Seq<char>, int), ProtocolError>, r: Result<(String, usize), ProtocolError>) -> bool {
    match spec {
        Ok((t, e)) => r matches Ok((x, e2)) && x@ == t && e2 == e,
        Err(er) => r == Err::<(String, usize), ProtocolError>(er),
    }
}

pub open spec fn agrees_value(spec: Result<(JsonView, int), ProtocolError>, r: Result<(Value, usize), ProtocolError>) -> bool {
    match spec {
        Ok((v, e)) => r matches Ok((x, e2)) && x@ == v && e2 == e,
        Err(er) => r matches Err(er2) && er2 == er,
    }
}

fn scan_string_exec(s: &Vec<char>, pos: usize) -> (r: Result<(String, usize), ProtocolError>)
    requires
        pos <= s@.len(),
    ensures
        agrees_text(scan_string(s@, pos as int, pos as int), r),
{
    let start = pos;
    let mut p = pos;
    while p < s.len()
        invariant
            start == pos,
            start <= p,
            start <= s@.len(),
            p <= s@.len(),
            scan_string(s@, p as int, start as int) == scan_string(s@, start as int, start as int),
        decreases s@.len() + 2 - p,
    {
        if s[p] == '"' {
            let text = string_of(s, start, p);
            assert(scan_string(s@, p as int, start as int) == Ok::<(Seq<char>, int), ProtocolError>(
                (s@.subrange(start as int, p as int), p + 1),
            ));
            let r: Result<(String, usize), ProtocolError> = Ok((text, p + 1));
            assert(scan_string(s@, pos as int, pos as int) == Ok::<(Seq<char>, int), ProtocolError>(
                (s@.subrange(start as int, p as int), p + 1),
            ));
            assert(agrees_text(scan_string(s@, pos as int, pos as int), r));
            return r;
        } else if s[p] == '\\' {
            if s.len() - p >= 2 {
                p = p + 2;
            } else {
                assert(scan_string(s@, p as int, start as int) == scan_string(s@, p + 2, start as int));
                assert(scan_string(s@, p + 2, start as int) == Err::<(Seq<char>, int), ProtocolError>(ProtocolError::UnexpectedEnd));
                p = s.len();
            }
        } else {
            p = p + 1;
        }
    }
    Err(ProtocolError::UnexpectedEnd)
}

fn literal_exec(s: &Vec<char>, p: usize, which: u8) -> (r: Result<(Value, usize), ProtocolError>)
    requires
        p < s@.len(),
        which < 3,
    ensures
        agrees_value(
            if which == 0 {
                parse_literal(s@, p as int, "true"@, JsonView::Bool(true), "Invalid 'true' value")
            } else if which == 1 {
                parse_literal(s@, p as int, "false"@, JsonView::Bool(false), "Invalid 'false' value")
            } else {
                parse_literal(s@, p as int, "null"@, JsonView::Null, "Invalid 'null' value")
            },
            r,
        ),
{
    proof {
        reveal_strlit("true");
        reveal_strlit("false");
        reveal_strlit("null");
    }
    let n = s.len();
    if which == 0 {
        if n - p >= 4 && s[p] == 't' && s[p + 1] == 'r' && s[p + 2] == 'u' && s[p + 3] == 'e' {
            assert(s@.subrange(p as int, p + 4) =~= "true"@);
            Ok((Value::Bool(true), p + 4))
        } else {
            assert(n - p >= 4 ==> s@.subrange(p as int, p + 4) != "true"@) by {
                if n - p >= 4 && s@.subrange(p as int, p + 4) == "true"@ {
                    assert(s@.subrange(p as int, p + 4)[0] == s@[p as int]);
                    assert(s@.subrange(p as int, p + 4)[1] == s@[p + 1]);
                    assert(s@.subrange(p as int, p + 4)[2] == s@[p + 2]);
                    assert(s@.subrange(p as int, p + 4)[3] == s@[p + 3]);
                }
            }
            Err(ProtocolError::InvalidSyntax("Invalid 'true' value"))
        }
    } else if which == 1 {
        if n - p >= 5 && s[p] == 'f' && s[p + 1] == 'a' && s[p + 2] == 'l' && s[p + 3] == 's' && s[p + 4] == 'e' {
            assert(s@.subrange(p as int, p + 5) =~= "false"@);
            Ok((Value::Bool(false), p + 5))
        } else {
            assert(n - p >= 5 ==> s@.subrange(p as int, p + 5) != "false"@) by {
                if n - p >= 5 && s@.subrange(p as int, p + 5) == "false"@ {
                    assert(s@.subrange(p as int, p + 5)[0] == s@[p as int]);
                    assert(s@.subrange(p as int, p + 5)[1] == s@[p + 1]);
                    assert(s@.subrange(p as int, p + 5)[2] == s@[p + 2]);
                    assert(s@.subrange(p as int, p + 5)[3] == s@[p + 3]);
                    assert(s@.subrange(p as int, p + 5)[4] == s@[p + 4]);
                }
            }
            Err(ProtocolError::InvalidSyntax("Invalid 'false' value"))
        }
    } else {
        if n - p >= 4 && s[p] == 'n' && s[p + 1] == 'u' && s[p + 2] == 'l' && s[p + 3] == 'l' {
            assert(s@.subrange(p as int, p + 4) =~= "null"@);
            Ok((Value::Null, p + 4))
        } else {
            assert(n - p >= 4 ==> s@.subrange(p as int, p + 4) != "null"@) by {
                if n - p >= 4 && s@.subrange(p as int, p + 4) == "null"@ {
                    assert(s@.subrange(p as int, p + 4)[0] == s@[p as int]);
                    assert(s@.subrange(p as int, p + 4)[1] == s@[p + 1]);
                    assert(s@.subrange(p as int, p + 4)[2] == s@[p + 2]);
                    assert(s@.subrange(p as int, p + 4)[3] == s@[p + 3]);
                }
            }
            Err(ProtocolError::InvalidSyntax("Invalid 'null' value"))
        }
    }
}

fn is_digit_exec(c: char) -> (r: bool)
    ensures
        r == is_digit(c),
{
    '0' <= c && c <= '9'
}

fn scan_number_exec(s: &Vec<char>, pos: usize, acc_in: Vec<char>) -> (r: Result<(Vec<char>, usize), ProtocolError>)
    requires
        pos <= s@.len(),
    ensures
        match scan_number(s@, pos as int, acc_in@) {
            Ok((t, e)) => r matches Ok((x, e2)) && x@ == t && e2 == e,
            Err(er) => r == Err::<(Vec<char>, usize), ProtocolError>(er),
        },
{
    let ghost acc0 = acc_in@;
    let mut acc = acc_in;
    let mut has_dot = false;
    let mut k: usize = 0;
    while k < acc.len()
        invariant
            k <= acc@.len(),
            acc@ == acc0,
            acc0 == acc_in@,
            has_dot == exists|j: int| 0 <= j < k && acc@[j] == '.',
        decreases acc@.len() - k,
    {
        if acc[k] == '.' {
            has_dot = true;
        }
        k = k + 1;
    }
    assert(has_dot == acc@.contains('.'));
    let mut p = pos;
    while p < s.len()
        invariant
            pos <= p <= s@.len(),
            acc0 == acc_in@,
            has_dot == acc@.contains('.'),
            scan_number(s@, p as int, acc@) == scan_number(s@, pos as int, acc0),
        decreases s@.len() - p,
    {
        let c = s[p];
        if is_digit_exec(c) {
            let ghost before = acc@;
            acc.push(c);
            assert(acc@.contains('.') == has_dot) by {
                if acc@.contains('.') {
                    let j = choose|j: int| 0 <= j < acc@.len() && acc@[j] == '.';
                    assert(j < before.len());
                    assert(before[j] == '.');
                }
                if has_dot {
                    let j = choose|j: int| 0 <= j < before.len() && before[j] == '.';
                    assert(acc@[j] == '.');
                }
            }
            p = p + 1;
        } else if c == '.' {
            if has_dot {
                return Err(ProtocolError::InvalidSyntax("Multiple decimal points"));
            }
            acc.push('.');
            assert(acc@[acc@.len() - 1] == '.');
            has_dot = true;
            p = p + 1;
        } else if c == 'e' || c == 'E' {
            let q = p + 1;
            let ghost before = acc@;
            if q < s.len() && (s[q] == '+' || s[q] == '-') {
                acc.push('e');
                acc.push(s[q]);
                assert(acc@ =~= before.push('e').push(s@[q as int]));
                p = q + 1;
            } else {
                acc.push('e');
                p = q;
            }
            assert(acc@.contains('.') == has_dot) by {
                if acc@.contains('.') {
                    let j = choose|j: int| 0 <= j < acc@.len() && acc@[j] == '.';
                    assert(j < before.len());
                    assert(before[j] == '.');
                }
                if has_dot {
                    let j = choose|j: int| 0 <= j < before.len() && before[j] == '.';
                    assert(acc@[j] == '.');
                }
            }
        } else if is_ascii_ws_exec(c) || c == ',' || c == '}' || c == ']' {
            assert(scan_number(s@, p as int, acc@) == Ok::<(Seq<char>, int), ProtocolError>((acc@, p as int)));
            return Ok((acc, p));
        } else {
            let b = lead_byte_exec(c);
            assert(scan_number(s@, p as int, acc@) == Err::<(Seq<char>, int), ProtocolError>(ProtocolError::UnexpectedChar(b)));
            return Err(ProtocolError::UnexpectedChar(b));
        }
    }
    Ok((acc, p))
}

proof fn lemma_exp_start(s: Seq<char>, i: int)
    requires
        0 <= i <= s.len(),
        forall|j: int| 0 <= j < i ==> !(s[j] == 'e' || s[j] == 'E'),
    ensures
        exp_start(s) == i + exp_start(s.skip(i)),
    decreases i,
{
    if i > 0 {
        assert(s.drop_first().skip(i - 1) =~= s.skip(i));
        assert forall|j: int| 0 <= j < i - 1 implies !(s.drop_first()[j] == 'e' || s.drop_first()[j] == 'E') by {
            assert(s.drop_first()[j] == s[j + 1]);
        }
        lemma_exp_start(s.drop_first(), i - 1);
    } else {
        assert(s.skip(0) =~= s);
    }
}

/// Whether `t` reads as a finite floating-point number.
#[verifier::rlimit(50)]
fn valid_float_exec(t: &Vec<char>) -> (r: bool)
    ensures
        r == valid_float(t@),
{
    let n = t.len();
    let b0: usize = if n > 0 && (t[0] == '+' || t[0] == '-') {
        1
    } else {
        0
    };
    let ghost body = if t@.len() > 0 && (t@[0] == '+' || t@[0] == '-') {
        t@.drop_first()
    } else {
        t@
    };
    assert(body =~= t@.skip(b0 as int));
    let mut k = b0;
    while k < n && !(t[k] == 'e' || t[k] == 'E')
        invariant
            b0 <= k <= n,
            n == t@.len(),
            body == t@.skip(b0 as int),
            forall|j: int| b0 <= j < k ==> !(t@[j] == 'e' || t@[j] == 'E'),
        decreases n - k,
    {
        k = k + 1;
    }
    proof {
        assert forall|j: int| 0 <= j < k - b0 implies !(body[j] == 'e' || body[j] == 'E') by {
            assert(body[j] == t@[j + b0]);
        }
        lemma_exp_start(body, k - b0);
        assert(body.skip(k - b0) =~= t@.skip(k as int));
        if k < n {
            assert(t@.skip(k as int)[0] == t@[k as int]);
        }
        assert(exp_start(body.skip(k - b0)) == 0);
    }
    let ghost m = body.take(k - b0);
    assert(m =~= t@.subrange(b0 as int, k as int));
    // the mantissa
    let mut ok = true;
    let mut dots: usize = 0;
    let mut digit = false;
    let mut i = b0;
    while i < k
        invariant
            b0 <= i <= k <= n,
            n == t@.len(),
            ok == (forall|j: int| b0 <= j < i ==> is_digit(#[trigger] t@[j]) || t@[j] == '.'),
            dots <= 2,
            dots == 0 ==> forall|j: int| b0 <= j < i ==> #[trigger] t@[j] != '.',
            dots == 1 ==> exists|j: int| b0 <= j < i && #[trigger] t@[j] == '.' && forall|l: int| b0 <= l < i && l != j ==> #[trigger] t@[l] != '.',
            dots == 2 ==> exists|j: int, l: int| b0 <= j < l < i && #[trigger] t@[j] == '.' && #[trigger] t@[l] == '.',
            digit == exists|j: int| b0 <= j < i && is_digit(#[trigger] t@[j]),
        decreases k - i,
    {
        let c = t[i];
        if !(is_digit_exec(c) || c == '.') {
            ok = false;
        }
        if c == '.' {
            if dots == 1 {
                let ghost j0 = choose|j: int| b0 <= j < i && #[trigger] t@[j] == '.' && forall|l: int| b0 <= l < i && l != j ==> #[trigger] t@[l] != '.';
                assert(b0 <= j0 < i && t@[j0] == '.' && t@[i as int] == '.');
                dots = 2;
            } else if dots == 0 {
                dots = 1;
                assert(b0 <= i < i + 1 && t@[i as int] == '.');
            }
        }
        if is_digit_exec(c) {
            digit = true;
        }
        i = i + 1;
    }
    let mant_ok = ok && dots <= 1 && digit;
    proof {
        if mant_ok {
            assert forall|a: int, b: int| 0 <= a < b < m.len() implies !(#[trigger] m[a] == '.' && #[trigger] m[b] == '.') by {
                assert(m[a] == t@[a + b0] && m[b] == t@[b + b0]);
            }
            let j = choose|j: int| b0 <= j < k && is_digit(#[trigger] t@[j]);
            assert(m[j - b0] == t@[j]);
        } else {
            if !ok {
                let j = choose|j: int| b0 <= j < k && !(is_digit(#[trigger] t@[j]) || t@[j] == '.');
                assert(m[j - b0] == t@[j]);
            } else if dots == 2 {
                let (a, b) = choose|a: int, b: int| b0 <= a < b < k && #[trigger] t@[a] == '.' && #[trigger] t@[b] == '.';
                assert(m[a - b0] == t@[a] && m[b - b0] == t@[b]);
            } else {
                assert forall|j: int| 0 <= j < m.len() implies !is_digit(#[trigger] m[j]) by {
                    assert(m[j] == t@[j + b0]);
                }
            }
        }
        assert(mant_ok == valid_mantissa(m));
    }
    if !mant_ok {
        return false;
    }
    // the exponent
    let ghost x = t@.skip(k as int);
    if k == n {
        assert(x.len() == 0);
        return true;
    }
    let mut d = k + 1;
    if d < n && (t[d] == '+' || t[d] == '-') {
        d = d + 1;
    }
    let ghost ds = t@.skip(d as int);
    proof {
        let r = x.drop_first();
        assert(r =~= t@.skip(k + 1));
        if k + 1 < n && (t@[k + 1] == '+' || t@[k + 1] == '-') {
            assert(r[0] == t@[k + 1]);
            assert(r.drop_first() =~= ds);
        } else {
            if r.len() > 0 {
                assert(r[0] == t@[k + 1]);
            }
            assert(r =~= ds);
        }
    }
    if d >= n {
        return false;
    }
    let mut j = d;
    let mut all = true;
    while j < n
        invariant
            d <= j <= n,
            n == t@.len(),
            all == forall|l: int| d <= l < j ==> is_digit(#[trigger] t@[l]),
        decreases n - j,
    {
        if !is_digit_exec(t[j]) {
            all = false;
        }
        j = j + 1;
    }
    proof {
        if all {
            assert forall|l: int| 0 <= l < ds.len() implies is_digit(#[trigger] ds[l]) by {
                assert(ds[l] == t@[l + d]);
            }
        } else {
            let l = choose|l: int| d <= l < n && !is_digit(#[trigger] t@[l]);
            assert(ds[l - d] == t@[l]);
        }
    }
    all
}

/// The text of a list of characters.
fn string_from_chars(v: &Vec<char>) -> (r: String)
    ensures
        r@ == v@,
{
    let s = string_of(v, 0, v.len());
    assert(v@.subrange(0, v@.len() as int) =~= v@);
    s
}

fn parse_number_exec(s: &Vec<char>, start: usize) -> (r: Result<(Value, usize), ProtocolError>)
    requires
        start < s@.len(),
    ensures
        agrees_value(parse_number(s@, start as int), r),
{
    let mut acc: Vec<char> = Vec::new();
    let n = s.len();
    let mut p = start;
    if s[start] == '-' {
        acc.push('-');
        p = start + 1;
    }
    assert(acc@ =~= if s@[start as int] == '-' { seq!['-'] } else { Seq::<char>::empty() });
    match scan_number_exec(s, p, acc) {
        Ok((text, e)) => {
            if valid_float_exec(&text) {
                Ok((Value::Number(string_from_chars(&text)), e))
            } else {
                Err(ProtocolError::InvalidSyntax("Invalid number format"))
            }
        },
        Err(er) => Err(er),
    }
}

/// Setting a member in place, as `set_member` says.
fn set_member_exec(m: &mut Vec<(String, Value)>, key: String, v: Value)
    ensures
        members_view(final(m)@) == set_member(members_view(old(m)@), key@, v@),
{
    let ghost mv = members_view(m@);
    proof {
        lemma_members_view(m@);
    }
    let mut i = m.len();
    assert(mv.subrange(0, i as int) =~= mv);
    while i > 0
        invariant
            i <= m@.len(),
            m@ == old(m)@,
            mv == members_view(m@),
            mv.len() == m@.len(),
            forall|j: int| 0 <= j < m@.len() ==> #[trigger] mv[j] == (m@[j].0@, m@[j].1@),
            member_index(mv, key@) == member_index(mv.subrange(0, i as int), key@),
        decreases i,
    {
        assert(mv.subrange(0, i as int).drop_last() =~= mv.subrange(0, i - 1));
        if crate::util::text::str_eq(m[i - 1].0.as_str(), key.as_str()) {
            assert(mv.subrange(0, i as int).last() == mv[i - 1]);
            assert(member_index(mv, key@) == i - 1);
            let ghost kv = key@;
            let ghost vv = v@;
            m.set(i - 1, (key, v));
            proof {
                lemma_members_view(m@);
                assert(members_view(m@) =~= mv.update(i - 1, (kv, vv)));
            }
            return;
        }
        i = i - 1;
    }
    let ghost kv = key@;
    let ghost vv = v@;
    m.push((key, v));
    proof {
        assert(m@.drop_last() =~= old(m)@);
    }
}

fn parse_value_exec(s: &Vec<char>, start: usize) -> (r: Result<(Value, usize), ProtocolError>)
    requires
        start <= s@.len(),
    ensures
        agrees_value(parse_value(s@, start as int), r),
        r matches Ok((_, e)) ==> e <= s@.len(),
    decreases s@.len() + 2 - start, 0nat,
{
    let p = skip_ws_exec(s, start);
    if p >= s.len() {
        return Err(ProtocolError::UnexpectedEnd);
    }
    let c = s[p];
    if c == '"' {
        proof {
            lemma_scan_string(s@, p + 1, p + 1);
        }
        match scan_string_exec(s, p + 1) {
            Ok((text, e)) => Ok((Value::String(text), e)),
            Err(er) => Err(er),
        }
    } else if c == '[' {
        parse_array_exec(s, p + 1)
    } else if c == '{' {
        parse_object_exec(s, p + 1)
    } else if c == 't' {
        literal_exec(s, p, 0)
    } else if c == 'f' {
        literal_exec(s, p, 1)
    } else if c == 'n' {
        literal_exec(s, p, 2)
    } else if c == '-' || is_digit_exec(c) {
        let r = parse_number_exec(s, p);
        proof {
            lemma_parse_number_end(s@, p as int);
        }
        r
    } else {
        Err(ProtocolError::UnexpectedChar(lead_byte_exec(c)))
    }
}

proof fn lemma_scan_number_end(s: Seq<char>, pos: int, acc: Seq<char>)
    requires
        0 <= pos <= s.len(),
    ensures
        scan_number(s, pos, acc) matches Ok((_, e)) ==> pos <= e <= s.len(),
    decreases s.len() + 2 - pos,
{
    if pos < s.len() {
        let c = s[pos];
        if is_digit(c) || c == '.' {
            lemma_scan_number_end(s, pos + 1, acc.push(c));
        } else if c == 'e' || c == 'E' {
            let p = pos + 1;
            if p < s.len() && (s[p] == '+' || s[p] == '-') {
                lemma_scan_number_end(s, p + 1, acc.push('e').push(s[p]));
            } else {
                lemma_scan_number_end(s, p, acc.push('e'));
            }
        }
    }
}

proof fn lemma_parse_number_end(s: Seq<char>, start: int)
    requires
        0 <= start < s.len(),
    ensures
        parse_number(s, start) matches Ok((_, e)) ==> e <= s.len(),
{
    if s[start] == '-' {
        lemma_scan_number_end(s, start + 1, seq!['-']);
    } else {
        lemma_scan_number_end(s, start, Seq::empty());
    }
}

fn parse_array_exec(s: &Vec<char>, pos0: usize) -> (r: Result<(Value, usize), ProtocolError>)
    requires
        1 <= pos0 <= s@.len(),
    ensures
        agrees_value(parse_array(s@, pos0 as int, true, Seq::empty()), r),
        r matches Ok((_, e)) ==> e <= s@.len(),
    decreases s@.len() + 2 - pos0, 1nat,
{
    let mut items: Vec<Value> = Vec::new();
    let mut pos = pos0;
    let mut expecting = true;
    proof {
        lemma_values_view(items@);
    }
    while pos < s.len()
        invariant
            pos0 <= pos <= s@.len(),
            parse_array(s@, pos as int, expecting, values_view(items@)) == parse_array(
                s@,
                pos0 as int,
                true,
                Seq::empty(),
            ),
        decreases s@.len() - pos,
    {
        let p = skip_ws_exec(s, pos);
        if p >= s.len() {
            return Err(ProtocolError::UnexpectedEnd);
        }
        let c = s[p];
        if c == ']' && !expecting {
            return Ok((Value::Array(items), p + 1));
        } else if c == ',' && !expecting {
            pos = p + 1;
            expecting = true;
        } else if expecting {
            match parse_value_exec(s, p) {
                Ok((v, p2)) => {
                    if p2 <= p {
                        return Err(ProtocolError::UnexpectedEnd);
                    }
                    let ghost before = items@;
                    items.push(v);
                    assert(items@.drop_last() =~= before);
                    pos = p2;
                    expecting = false;
                },
                Err(er) => {
                    return Err(er);
                },
            }
        } else {
            return Err(ProtocolError::UnexpectedChar(lead_byte_exec(c)));
        }
    }
    Err(ProtocolError::UnexpectedEnd)
}

fn parse_object_exec(s: &Vec<char>, pos0: usize) -> (r: Result<(Value, usize), ProtocolError>)
    requires
        1 <= pos0 <= s@.len(),
    ensures
        agrees_value(parse_object(s@, pos0 as int, true, Seq::empty()), r),
        r matches Ok((_, e)) ==> e <= s@.len(),
    decreases s@.len() + 2 - pos0, 1nat,
{
    let mut members: Vec<(String, Value)> = Vec::new();
    let mut pos = pos0;
    let mut expecting = true;
    while pos < s.len()
        invariant
            pos0 <= pos <= s@.len(),
            parse_object(s@, pos as int, expecting, members_view(members@)) == parse_object(
                s@,
                pos0 as int,
                true,
                Seq::empty(),
            ),
        decreases s@.len() - pos,
    {
        let p = skip_ws_exec(s, pos);
        if p >= s.len() {
            return Err(ProtocolError::UnexpectedEnd);
        }
        let c = s[p];
        if c == '}' && !expecting {
            return Ok((Value::Object(members), p + 1));
        } else if c == ',' && !expecting {
            pos = p + 1;
            expecting = true;
        } else if c == '"' && expecting {
            proof {
                lemma_scan_string(s@, p + 1, p + 1);
            }
            let (key, q) = match scan_string_exec(s, p + 1) {
                Ok(x) => x,
                Err(er) => {
                    return Err(er);
                },
            };
            let q1 = skip_ws_exec(s, q);
            if q1 >= s.len() || s[q1] != ':' {
                return Err(ProtocolError::InvalidSyntax("Expected ':' after key"));
            }
            let q2 = skip_ws_exec(s, q1 + 1);
            if q2 <= p {
                return Err(ProtocolError::UnexpectedEnd);
            }
            match parse_value_exec(s, q2) {
                Ok((v, p2)) => {
                    if p2 <= p {
                        return Err(ProtocolError::UnexpectedEnd);
                    }
                    set_member_exec(&mut members, key, v);
                    pos = p2;
                    expecting = false;
                },
                Err(er) => {
                    return Err(er);
                },
            }
        } else {
            return Err(ProtocolError::UnexpectedChar(lead_byte_exec(c)));
        }
    }
    Err(ProtocolError::UnexpectedEnd)
}

/// The characters without leading and trailing whitespace.
fn trimmed(cs: &Vec<char>) -> (r: Vec<char>)
    ensures
        r@ == trim(cs@),
{
    let mut a: usize = 0;
    assert(cs@.skip(0) =~= cs@);
    while a < cs.len() && is_whitespace_exec(cs[a])
        invariant
            a <= cs@.len(),
            trim_start(cs@) == trim_start(cs@.skip(a as int)),
        decreases cs@.len() - a,
    {
        assert(cs@.skip(a as int).drop_first() =~= cs@.skip(a + 1));
        a = a + 1;
    }
    let ghost ts = trim_start(cs@);
    assert(ts == cs@.skip(a as int)) by {
        if a < cs@.len() {
            assert(cs@.skip(a as int)[0] == cs@[a as int]);
        }
    }
    let mut b = cs.len();
    assert(cs@.subrange(a as int, b as int) =~= ts);
    while b > a && is_whitespace_exec(cs[b - 1])
        invariant
            a <= b <= cs@.len(),
            ts == cs@.skip(a as int),
            trim_end(ts) == trim_end(cs@.subrange(a as int, b as int)),
        decreases b,
    {
        assert(cs@.subrange(a as int, b as int).drop_last() =~= cs@.subrange(a as int, b - 1));
        assert(cs@.subrange(a as int, b as int).last() == cs@[b - 1]);
        b = b - 1;
    }
    assert(trim_end(cs@.subrange(a as int, b as int)) == cs@.subrange(a as int, b as int)) by {
        if b > a {
            assert(cs@.subrange(a as int, b as int).last() == cs@[b - 1]);
        }
    }
    let mut t: Vec<char> = Vec::new();
    let mut i = a;
    while i < b
        invariant
            a <= i <= b <= cs@.len(),
            t@ == cs@.subrange(a as int, i as int),
        decreases b - i,
    {
        t.push(cs[i]);
        i = i + 1;
        assert(t@ =~= cs@.subrange(a as int, i as int));
    }
    t
}

impl Json {
    /// Reads a JSON object: surrounding whitespace is dropped, the rest must
    /// start with `{` and end with `}`, and its members are read from there;
    /// anything after the object's closing brace is ignored.
    pub fn deserialize(input: &str) -> (r: crate::Result<Vec<(String, Value)>>)
        ensures
            match spec_json_deserialize(input@) {
                Ok(m) => r matches Ok(x) && members_view(x@) == m,
                Err(e) => r matches Err(CordError::Protocol(e2)) && e2 == e,
            },
    {
        let cs = chars_of(input);
        let t = trimmed(&cs);
        if t.len() == 0 || t[0] != '{' || t[t.len() - 1] != '}' {
            return Err(CordError::Protocol(ProtocolError::InvalidSyntax("Invalid JSON object")));
        }
        match parse_object_exec(&t, 1) {
            Ok((Value::Object(m), _)) => Ok(m),
            Ok(_) => Err(CordError::Protocol(ProtocolError::InvalidSyntax("Expected object"))),
            Err(e) => Err(CordError::Protocol(e)),
        }
    }
}

} // verus!
