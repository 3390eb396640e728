//! The creation request body. The service accepts one input encoding: a JSON
//! object with a single `text` member, `{"text": "..."}`, with optional
//! whitespace between tokens. Inside the string literal the escapes `\"`,
//! `\\`, `\/`, `\b`, `\f`, `\n`, `\r`, `\t` and `\u00XX` are understood;
//! `\uXXXX` above U+00FF (including surrogate pairs) is not accepted.
//! Anything else — in particular a body with no `text` member — is invalid
//! input and is rejected before the store is touched.

use vstd::prelude::*;

use crate::render::{hex_val, is_hex_digit, json_decode_char};
use crate::store::Error;
use crate::strings::push_char;

verus! {

/// JSON's insignificant whitespace.
pub open spec fn is_ws(c: char) -> bool {
    c == ' ' || c == '\n' || c == '\r' || c == '\t'
}

/// The first position at or after `i` that holds no whitespace.
pub open spec fn skip_ws(s: Seq<char>, i: int) -> int
    decreases s.len() - i when 0 <= i <= s.len()
{
    if i < s.len() && is_ws(s[i]) {
        skip_ws(s, i + 1)
    } else {
        i
    }
}

/// The content of a JSON string literal read from position `i` (just past the
/// opening quote): the text it stands for, and the position just past the
/// closing quote. `None` when the literal never closes or an escape is
/// unknown.
pub open spec fn parse_str(s: Seq<char>, i: int) -> Option<(Seq<char>, int)>
    decreases s.len() - i when 0 <= i <= s.len()
{
    if i >= s.len() {
        None
    } else if s[i] == '"' {
        Some((Seq::empty(), i + 1))
    } else if s[i] == '\\' {
        if i + 2 <= s.len() && json_decode_char(s[i + 1]) is Some {
            match parse_str(s, i + 2) {
                None => None,
                Some(p) => Some((seq![json_decode_char(s[i + 1]).unwrap()] + p.0, p.1)),
            }
        } else if i + 6 <= s.len() && s[i + 1] == 'u' && s[i + 2] == '0' && s[i + 3] == '0'
            && is_hex_digit(s[i + 4]) && is_hex_digit(s[i + 5]) {
            match parse_str(s, i + 6) {
                None => None,
                Some(p) => Some(
                    (seq![((hex_val(s[i + 4]) * 16 + hex_val(s[i + 5])) as u32) as char] + p.0, p.1),
                ),
            }
        } else {
            None
        }
    } else {
        match parse_str(s, i + 1) {
            None => None,
            Some(p) => Some((seq![s[i]] + p.0, p.1)),
        }
    }
}

/// The text of a well-formed creation body, if the body is one: exactly
/// `{"text": <string literal>}`, with optional whitespace around the tokens.
pub open spec fn spec_parse_create(s: Seq<char>) -> Option<Seq<char>> {
    let i0 = skip_ws(s, 0);
    if i0 < s.len() && s[i0] == '{' {
        let i1 = skip_ws(s, i0 + 1);
        if i1 + 6 <= s.len() && s.subrange(i1, i1 + 6) == "\"text\""@ {
            let i2 = skip_ws(s, i1 + 6);
            if i2 < s.len() && s[i2] == ':' {
                let i3 = skip_ws(s, i2 + 1);
                if i3 < s.len() && s[i3] == '"' {
                    match parse_str(s, i3 + 1) {
                        None => None,
                        Some(p) => {
                            let i4 = skip_ws(s, p.1);
                            if i4 < s.len() && s[i4] == '}' && skip_ws(s, i4 + 1) == s.len() {
                                Some(p.0)
                            } else {
                                None
                            }
                        },
                    }
                } else {
                    None
                }
            } else {
                None
            }
        } else {
            None
        }
    } else {
        None
    }
}

/// Skip whitespace from position `i`.
fn skip_ws_str(s: &str, i: usize) -> (r: usize)
    requires
        i <= s@.len(),
    ensures
        r == skip_ws(s@, i as int),
        i <= r <= s@.len(),
{
    let n = s.unicode_len();
    let mut k: usize = i;
    while k < n
        invariant
            n == s@.len(),
            i <= k <= n,
            skip_ws(s@, i as int) == skip_ws(s@, k as int),
        ensures
            k == n || !is_ws(s@[k as int]),
        decreases n - k,
    {
        let c = s.get_char(k);
        if !(c == ' ' || c == '\n' || c == '\r' || c == '\t') {
            break;
        }
        proof {
            assert(skip_ws(s@, k as int) == skip_ws(s@, k + 1));
        }
        k += 1;
    }
    k
}

/// Whether the characters of `p` stand at position `i` of `s`.
fn matches_at(s: &str, i: usize, p: &str) -> (b: bool)
    requires
        i <= s@.len(),
    ensures
        b == (i + p@.len() <= s@.len() && s@.subrange(i as int, i + p@.len()) == p@),
{
    let n = s.unicode_len();
    let m = p.unicode_len();
    if m > n - i {
        return false;
    }
    let mut k: usize = 0;
    while k < m
        invariant
            n == s@.len(),
            m == p@.len(),
            i + m <= n,
            0 <= k <= m,
            forall|j: int| 0 <= j < k ==> s@[i + j] == p@[j],
        decreases m - k,
    {
        if s.get_char(i + k) != p.get_char(k) {
            proof {
                assert(s@.subrange(i as int, i + p@.len()) != p@) by {
                    if s@.subrange(i as int, i + p@.len()) == p@ {
                        assert(s@.subrange(i as int, i + p@.len())[k as int] == s@[i + k]);
                    }
                }
            }
            return false;
        }
        k += 1;
    }
    proof {
        assert(s@.subrange(i as int, i + p@.len()) =~= p@);
    }
    true
}

/// The value of a hexadecimal digit, executably.
fn hex_val_of(c: char) -> (r: Option<u8>)
    ensures
        r is Some <==> is_hex_digit(c),
        r is Some ==> r.unwrap() as int == hex_val(c) && r.unwrap() < 16,
{
    if '0' <= c && c <= '9' {
        Some(((c as u32) - ('0' as u32)) as u8)
    } else if 'a' <= c && c <= 'f' {
        Some(((c as u32) - ('a' as u32) + 10) as u8)
    } else if 'A' <= c && c <= 'F' {
        Some(((c as u32) - ('A' as u32) + 10) as u8)
    } else {
        None
    }
}

/// The escape decoder, executably.
fn decode_escape(c: char) -> (r: Option<char>)
    ensures
        r == json_decode_char(c),
{
    if c == '"' {
        Some('"')
    } else if c == '\\' {
        Some('\\')
    } else if c == '/' {
        Some('/')
    } else if c == 'b' {
        Some('\u{0008}')
    } else if c == 'f' {
        Some('\u{000c}')
    } else if c == 'n' {
        Some('\n')
    } else if c == 'r' {
        Some('\r')
    } else if c == 't' {
        Some('\t')
    } else {
        None
    }
}

/// Read a JSON string literal from position `i` (just past the opening
/// quote).
fn parse_str_at(s: &str, i: usize) -> (r: Option<(String, usize)>)
    requires
        i <= s@.len(),
    ensures
        match r {
            Some(p) => parse_str(s@, i as int) == Some((p.0@, p.1 as int)) && i < p.1 <= s@.len(),
            None => parse_str(s@, i as int) is None,
        },
    decreases s@.len() - i,
{
    let n = s.unicode_len();
    if i >= n {
        return None;
    }
    let c = s.get_char(i);
    if c == '"' {
        Some((String::new(), i + 1))
    } else if c == '\\' {
        if n - i < 2 {
            return None;
        }
        let nx = s.get_char(i + 1);
        match decode_escape(nx) {
            Some(dc) => {
                match parse_str_at(s, i + 2) {
                    None => None,
                    Some(p) => {
                        let mut out = String::new();
                        push_char(&mut out, dc);
                        out.append(p.0.as_str());
                        proof {
                            assert(out@ =~= seq![dc] + p.0@);
                        }
                        Some((out, p.1))
                    },
                }
            },
            None => {
                if !(nx == 'u' && n - i >= 6) {
                    return None;
                }
                if !(s.get_char(i + 2) == '0' && s.get_char(i + 3) == '0') {
                    return None;
                }
                let hv1 = match hex_val_of(s.get_char(i + 4)) {
                    Some(v) => v,
                    None => {
                        return None;
                    },
                };
                let hv0 = match hex_val_of(s.get_char(i + 5)) {
                    Some(v) => v,
                    None => {
                        return None;
                    },
                };
                let code: u8 = hv1 * 16 + hv0;
                let dc = code as char;
                proof {
                    assert(dc == ((hex_val(s@[i + 4]) * 16 + hex_val(s@[i + 5])) as u32) as char);
                }
                match parse_str_at(s, i + 6) {
                    None => None,
                    Some(p) => {
                        let mut out = String::new();
                        push_char(&mut out, dc);
                        out.append(p.0.as_str());
                        proof {
                            assert(out@ =~= seq![dc] + p.0@);
                        }
                        Some((out, p.1))
                    },
                }
            },
        }
    } else {
        match parse_str_at(s, i + 1) {
            None => None,
            Some(p) => {
                let mut out = String::new();
                push_char(&mut out, c);
                out.append(p.0.as_str());
                proof {
                    assert(out@ =~= seq![c] + p.0@);
                }
                Some((out, p.1))
            },
        }
    }
}

/// Parse a creation request body. Returns the submitted text exactly when the
/// body is a well-formed `{"text": ...}` object, and `InvalidInput` — with
/// nothing else done — otherwise.
pub fn parse_create_body(s: &str) -> (r: Result<String, Error>)
    ensures
        match r {
            Ok(t) => spec_parse_create(s@) == Some(t@),
            Err(e) => e == Error::InvalidInput && spec_parse_create(s@) is None,
        },
{
    let n = s.unicode_len();
    let i0 = skip_ws_str(s, 0);
    if !(i0 < n && s.get_char(i0) == '{') {
        return Err(Error::InvalidInput);
    }
    let i1 = skip_ws_str(s, i0 + 1);
    proof {
        reveal_strlit("\"text\"");
    }
    if !matches_at(s, i1, "\"text\"") {
        return Err(Error::InvalidInput);
    }
    let i2 = skip_ws_str(s, i1 + 6);
    if !(i2 < n && s.get_char(i2) == ':') {
        return Err(Error::InvalidInput);
    }
    let i3 = skip_ws_str(s, i2 + 1);
    if !(i3 < n && s.get_char(i3) == '"') {
        return Err(Error::InvalidInput);
    }
    match parse_str_at(s, i3 + 1) {
        None => Err(Error::InvalidInput),
        Some(p) => {
            let i4 = skip_ws_str(s, p.1);
            if !(i4 < n && s.get_char(i4) == '}') {
                return Err(Error::InvalidInput);
            }
            let i5 = skip_ws_str(s, i4 + 1);
            if i5 != n {
                return Err(Error::InvalidInput);
            }
            Ok(p.0)
        },
    }
}

} // verus!
