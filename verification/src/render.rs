//! The presentation adapter: a task, or a list of tasks, rendered either as
//! JSON or as an HTML fragment. Both forms are total functions of the task's
//! fields alone, so the two can never disagree about a task's text or its
//! completion flag.

use vstd::prelude::*;

use crate::strings::push_char;
use crate::task::{Task, TaskView};

verus! {

// ---------------------------------------------------------------------------
// Escaping
// ---------------------------------------------------------------------------
/// The lowercase hexadecimal digit for a value below sixteen.
pub open spec fn hex_digit(n: int) -> char {
    if n == 0 {
        '0'
    } else if n == 1 {
        '1'
    } else if n == 2 {
        '2'
    } else if n == 3 {
        '3'
    } else if n == 4 {
        '4'
    } else if n == 5 {
        '5'
    } else if n == 6 {
        '6'
    } else if n == 7 {
        '7'
    } else if n == 8 {
        '8'
    } else if n == 9 {
        '9'
    } else if n == 10 {
        'a'
    } else if n == 11 {
        'b'
    } else if n == 12 {
        'c'
    } else if n == 13 {
        'd'
    } else if n == 14 {
        'e'
    } else {
        'f'
    }
}

/// Whether a character is a hexadecimal digit, either case.
pub open spec fn is_hex_digit(c: char) -> bool {
    ('0' <= c && c <= '9') || ('a' <= c && c <= 'f') || ('A' <= c && c <= 'F')
}

/// The value of a hexadecimal digit.
pub open spec fn hex_val(c: char) -> int {
    if '0' <= c && c <= '9' {
        c as int - '0' as int
    } else if 'a' <= c && c <= 'f' {
        c as int - 'a' as int + 10
    } else {
        c as int - 'A' as int + 10
    }
}

/// `hex_val` inverts `hex_digit`.
proof fn lemma_hex_val_digit(n: int)
    requires
        0 <= n < 16,
    ensures
        is_hex_digit(hex_digit(n)),
        hex_val(hex_digit(n)) == n,
{
    if n == 0 {
        assert(hex_val('0') == 0);
    } else if n == 1 {
        assert(hex_val('1') == 1);
    } else if n == 2 {
        assert(hex_val('2') == 2);
    } else if n == 3 {
        assert(hex_val('3') == 3);
    } else if n == 4 {
        assert(hex_val('4') == 4);
    } else if n == 5 {
        assert(hex_val('5') == 5);
    } else if n == 6 {
        assert(hex_val('6') == 6);
    } else if n == 7 {
        assert(hex_val('7') == 7);
    } else if n == 8 {
        assert(hex_val('8') == 8);
    } else if n == 9 {
        assert(hex_val('9') == 9);
    } else if n == 10 {
        assert(hex_val('a') == 10);
    } else if n == 11 {
        assert(hex_val('b') == 11);
    } else if n == 12 {
        assert(hex_val('c') == 12);
    } else if n == 13 {
        assert(hex_val('d') == 13);
    } else if n == 14 {
        assert(hex_val('e') == 14);
    } else {
        assert(hex_val('f') == 15);
    }
}

/// What one character becomes inside a JSON string literal: the short escapes
/// for the quote, the backslash and the common control characters, `\u00XX`
/// for the other control characters, and the character itself otherwise.
pub open spec fn json_escape_char(c: char) -> Seq<char> {
    if c == '"' {
        seq!['\\', '"']
    } else if c == '\\' {
        seq!['\\', '\\']
    } else if c == '\n' {
        seq!['\\', 'n']
    } else if c == '\r' {
        seq!['\\', 'r']
    } else if c == '\t' {
        seq!['\\', 't']
    } else if (c as u32) < 32 {
        seq!['\\', 'u', '0', '0', hex_digit((c as u32) as int / 16), hex_digit((c as u32) as int % 16)]
    } else {
        seq![c]
    }
}

/// A text escaped for use inside a JSON string literal.
pub open spec fn json_escape(s: Seq<char>) -> Seq<char>
    decreases s.len(),
{
    if s.len() == 0 {
        Seq::empty()
    } else {
        json_escape_char(s[0]) + json_escape(s.skip(1))
    }
}

/// What one character becomes inside HTML text content.
pub open spec fn html_escape_char(c: char) -> Seq<char> {
    if c == '&' {
        "&amp;"@
    } else if c == '<' {
        "&lt;"@
    } else if c == '>' {
        "&gt;"@
    } else {
        seq![c]
    }
}

/// A text escaped for use as HTML text content.
pub open spec fn html_escape(s: Seq<char>) -> Seq<char>
    decreases s.len(),
{
    if s.len() == 0 {
        Seq::empty()
    } else {
        html_escape_char(s[0]) + html_escape(s.skip(1))
    }
}

/// Escaping a concatenation escapes each part.
proof fn lemma_json_escape_append(a: Seq<char>, b: Seq<char>)
    ensures
        json_escape(a + b) == json_escape(a) + json_escape(b),
    decreases a.len(),
{
    if a.len() == 0 {
        assert(a + b =~= b);
        assert(json_escape(a) + json_escape(b) =~= json_escape(b));
    } else {
        assert((a + b).skip(1) =~= a.skip(1) + b);
        lemma_json_escape_append(a.skip(1), b);
        assert(json_escape(a + b) =~= json_escape(a) + json_escape(b));
    }
}

/// Escaping a concatenation escapes each part.
proof fn lemma_html_escape_append(a: Seq<char>, b: Seq<char>)
    ensures
        html_escape(a + b) == html_escape(a) + html_escape(b),
    decreases a.len(),
{
    if a.len() == 0 {
        assert(a + b =~= b);
        assert(html_escape(a) + html_escape(b) =~= html_escape(b));
    } else {
        assert((a + b).skip(1) =~= a.skip(1) + b);
        lemma_html_escape_append(a.skip(1), b);
        assert(html_escape(a + b) =~= html_escape(a) + html_escape(b));
    }
}

/// The lowercase hexadecimal digit for a value below sixteen, executably.
fn hex_char(n: u32) -> (c: char)
    requires
        n < 16,
    ensures
        c == hex_digit(n as int),
{
    if n == 0 {
        '0'
    } else if n == 1 {
        '1'
    } else if n == 2 {
        '2'
    } else if n == 3 {
        '3'
    } else if n == 4 {
        '4'
    } else if n == 5 {
        '5'
    } else if n == 6 {
        '6'
    } else if n == 7 {
        '7'
    } else if n == 8 {
        '8'
    } else if n == 9 {
        '9'
    } else if n == 10 {
        'a'
    } else if n == 11 {
        'b'
    } else if n == 12 {
        'c'
    } else if n == 13 {
        'd'
    } else if n == 14 {
        'e'
    } else {
        'f'
    }
}

/// JSON-escape a text.
pub fn json_escape_str(s: &str) -> (r: String)
    ensures
        r@ == json_escape(s@),
{
    let n = s.unicode_len();
    let mut out = String::new();
    let mut k: usize = 0;
    while k < n
        invariant
            n == s@.len(),
            0 <= k <= n,
            out@ == json_escape(s@.take(k as int)),
        decreases n - k,
    {
        let c = s.get_char(k);
        if c == '"' {
            out.append("\\\"");
        } else if c == '\\' {
            out.append("\\\\");
        } else if c == '\n' {
            out.append("\\n");
        } else if c == '\r' {
            out.append("\\r");
        } else if c == '\t' {
            out.append("\\t");
        } else if (c as u32) < 32 {
            let v = c as u32;
            out.append("\\u00");
            let h1 = hex_char(v / 16);
            let h0 = hex_char(v % 16);
            push_char(&mut out, h1);
            push_char(&mut out, h0);
            proof {
                reveal_strlit("\\u00");
                assert(h1 == hex_digit((c as u32) as int / 16));
                assert(h0 == hex_digit((c as u32) as int % 16));
            }
        } else {
            push_char(&mut out, c);
        }
        proof {
            reveal_strlit("\\\"");
            reveal_strlit("\\\\");
            reveal_strlit("\\n");
            reveal_strlit("\\r");
            reveal_strlit("\\t");
            reveal_strlit("\\u00");
            assert(s@.take(k + 1) =~= s@.take(k as int) + seq![s@[k as int]]);
            lemma_json_escape_append(s@.take(k as int), seq![s@[k as int]]);
            reveal_with_fuel(json_escape, 2);
            assert(seq![c].skip(1) =~= Seq::<char>::empty());
            assert(json_escape(seq![c]) =~= json_escape_char(c));
            assert(out@ =~= json_escape(s@.take(k + 1)));
        }
        k += 1;
    }
    proof {
        assert(s@.take(n as int) =~= s@);
    }
    out
}

/// HTML-escape a text.
pub fn html_escape_str(s: &str) -> (r: String)
    ensures
        r@ == html_escape(s@),
{
    let n = s.unicode_len();
    let mut out = String::new();
    let mut k: usize = 0;
    while k < n
        invariant
            n == s@.len(),
            0 <= k <= n,
            out@ == html_escape(s@.take(k as int)),
        decreases n - k,
    {
        let c = s.get_char(k);
        if c == '&' {
            out.append("&amp;");
        } else if c == '<' {
            out.append("&lt;");
        } else if c == '>' {
            out.append("&gt;");
        } else {
            push_char(&mut out, c);
        }
        proof {
            assert(s@.take(k + 1) =~= s@.take(k as int) + seq![s@[k as int]]);
            lemma_html_escape_append(s@.take(k as int), seq![s@[k as int]]);
            reveal_with_fuel(html_escape, 2);
            assert(seq![c].skip(1) =~= Seq::<char>::empty());
            assert(html_escape(seq![c]) =~= html_escape_char(c));
            assert(out@ =~= html_escape(s@.take(k + 1)));
        }
        k += 1;
    }
    proof {
        assert(s@.take(n as int) =~= s@);
    }
    out
}

// ---------------------------------------------------------------------------
// Reading an escaped text back
// ---------------------------------------------------------------------------
/// The character a two-character JSON escape sequence `\x` stands for, if
/// any.
pub open spec fn json_decode_char(c: char) -> Option<char> {
    if c == '"' {
        Some('"')
    } else if c == '\\' {
        Some('\\')
    } else if c == '/' {
        Some('/')
    } else if c == 'b' {
        Some('\u{0008}')
    } else if c == 'f' {
        Some('\u{000c}')
    } else if c == 'n' {
        Some('\n')
    } else if c == 'r' {
        Some('\r')
    } else if c == 't' {
        Some('\t')
    } else {
        None
    }
}

/// The text a JSON-escaped string stands for: the two-character escapes, and
/// `\u00XX` for a code point below 256.
pub open spec fn json_unescape(s: Seq<char>) -> Seq<char>
    decreases s.len(),
{
    if s.len() == 0 {
        Seq::empty()
    } else if s.len() >= 2 && s[0] == '\\' && json_decode_char(s[1]) is Some {
        seq![json_decode_char(s[1]).unwrap()] + json_unescape(s.skip(2))
    } else if s.len() >= 6 && s[0] == '\\' && s[1] == 'u' && s[2] == '0' && s[3] == '0'
        && is_hex_digit(s[4]) && is_hex_digit(s[5]) {
        seq![((hex_val(s[4]) * 16 + hex_val(s[5])) as u32) as char] + json_unescape(s.skip(6))
    } else {
        seq![s[0]] + json_unescape(s.skip(1))
    }
}

/// The text an HTML-escaped content stands for.
pub open spec fn html_unescape(s: Seq<char>) -> Seq<char>
    decreases s.len(),
{
    if s.len() == 0 {
        Seq::empty()
    } else if s.len() >= 5 && s.subrange(0, 5) == "&amp;"@ {
        seq!['&'] + html_unescape(s.skip(5))
    } else if s.len() >= 4 && s.subrange(0, 4) == "&lt;"@ {
        seq!['<'] + html_unescape(s.skip(4))
    } else if s.len() >= 4 && s.subrange(0, 4) == "&gt;"@ {
        seq!['>'] + html_unescape(s.skip(4))
    } else {
        seq![s[0]] + html_unescape(s.skip(1))
    }
}

/// JSON escaping loses nothing: un-escaping recovers the text exactly.
pub proof fn lemma_json_escape_round_trip(s: Seq<char>)
    ensures
        json_unescape(json_escape(s)) == s,
    decreases s.len(),
{
    if s.len() == 0 {
    } else {
        lemma_json_escape_round_trip(s.skip(1));
        let c = s[0];
        let e = json_escape(s);
        let rest = json_escape(s.skip(1));
        assert(e =~= json_escape_char(c) + rest);
        if c == '"' || c == '\\' || c == '\n' || c == '\r' || c == '\t' {
            assert(e[0] == '\\');
            assert(json_decode_char(e[1]) == Some(c));
            assert(e.skip(2) =~= rest);
            assert(json_unescape(e) =~= seq![c] + s.skip(1));
        } else if (c as u32) < 32 {
            let v = c as u32;
            assert(e[0] == '\\' && e[1] == 'u' && e[2] == '0' && e[3] == '0');
            assert(json_decode_char('u') is None);
            assert(e[4] == hex_digit(v as int / 16) && e[5] == hex_digit(v as int % 16));
            lemma_hex_val_digit(v as int / 16);
            lemma_hex_val_digit(v as int % 16);
            assert(is_hex_digit(e[4]) && is_hex_digit(e[5]));
            assert(hex_val(e[4]) * 16 + hex_val(e[5]) == v as int);
            assert((hex_val(e[4]) * 16 + hex_val(e[5])) as u32 == v);
            vstd::utf8::char_u32_cast(c, v);
            assert(((hex_val(e[4]) * 16 + hex_val(e[5])) as u32) as char == c);
            assert(e.skip(6) =~= rest);
            assert(json_unescape(e) =~= seq![c] + s.skip(1));
        } else {
            assert(e[0] == c);
            assert(e.skip(1) =~= rest);
            assert(json_unescape(e) =~= seq![c] + s.skip(1));
        }
        assert(seq![c] + s.skip(1) =~= s);
    }
}

/// HTML escaping loses nothing: un-escaping recovers the text exactly.
pub proof fn lemma_html_escape_round_trip(s: Seq<char>)
    ensures
        html_unescape(html_escape(s)) == s,
    decreases s.len(),
{
    reveal_strlit("&amp;");
    reveal_strlit("&lt;");
    reveal_strlit("&gt;");
    if s.len() == 0 {
    } else {
        lemma_html_escape_round_trip(s.skip(1));
        let c = s[0];
        let e = html_escape(s);
        let rest = html_escape(s.skip(1));
        assert(e =~= html_escape_char(c) + rest);
        if c == '&' {
            assert(e.len() >= 5);
            assert(e.subrange(0, 5) =~= "&amp;"@);
            assert(e.skip(5) =~= rest);
            assert(html_unescape(e) =~= seq![c] + s.skip(1));
        } else if c == '<' {
            assert(e[1] == 'l');
            assert(e.len() >= 5 ==> e.subrange(0, 5) != "&amp;"@) by {
                if e.len() >= 5 && e.subrange(0, 5) == "&amp;"@ {
                    assert(e.subrange(0, 5)[1] == e[1]);
                }
            }
            assert(e.subrange(0, 4) =~= "&lt;"@);
            assert(e.skip(4) =~= rest);
            assert(html_unescape(e) =~= seq![c] + s.skip(1));
        } else if c == '>' {
            assert(e[1] == 'g');
            assert(e.len() >= 5 ==> e.subrange(0, 5) != "&amp;"@) by {
                if e.len() >= 5 && e.subrange(0, 5) == "&amp;"@ {
                    assert(e.subrange(0, 5)[1] == e[1]);
                }
            }
            assert(e.len() >= 4 ==> e.subrange(0, 4) != "&lt;"@) by {
                if e.len() >= 4 && e.subrange(0, 4) == "&lt;"@ {
                    assert(e.subrange(0, 4)[1] == e[1]);
                }
            }
            assert(e.subrange(0, 4) =~= "&gt;"@);
            assert(e.skip(4) =~= rest);
            assert(html_unescape(e) =~= seq![c] + s.skip(1));
        } else {
            assert(e[0] == c);
            assert(e.len() >= 5 ==> e.subrange(0, 5) != "&amp;"@) by {
                if e.len() >= 5 && e.subrange(0, 5) == "&amp;"@ {
                    assert(e.subrange(0, 5)[0] == e[0]);
                }
            }
            assert(e.len() >= 4 ==> e.subrange(0, 4) != "&lt;"@) by {
                if e.len() >= 4 && e.subrange(0, 4) == "&lt;"@ {
                    assert(e.subrange(0, 4)[0] == e[0]);
                }
            }
            assert(e.len() >= 4 ==> e.subrange(0, 4) != "&gt;"@) by {
                if e.len() >= 4 && e.subrange(0, 4) == "&gt;"@ {
                    assert(e.subrange(0, 4)[0] == e[0]);
                }
            }
            assert(e.skip(1) =~= rest);
            assert(html_unescape(e) =~= seq![c] + s.skip(1));
        }
        assert(seq![c] + s.skip(1) =~= s);
    }
}

// ---------------------------------------------------------------------------
// JSON form
// ---------------------------------------------------------------------------
/// The JSON spelling of a boolean.
pub open spec fn json_bool(b: bool) -> Seq<char> {
    if b {
        "true"@
    } else {
        "false"@
    }
}

/// The JSON object for one task: its three fields, field for field.
pub open spec fn json_of_task_seq(t: TaskView) -> Seq<char> {
    "{\"id\":\""@ + json_escape(t.id) + "\",\"text\":\""@ + json_escape(t.text)
        + "\",\"completed\":"@ + json_bool(t.completed) + "}"@
}

/// The JSON array for a list of tasks, comma-separated, in the list's order.
pub open spec fn json_items(ts: Seq<TaskView>) -> Seq<char>
    decreases ts.len(),
{
    if ts.len() == 0 {
        Seq::empty()
    } else if ts.len() == 1 {
        json_of_task_seq(ts[0])
    } else {
        json_items(ts.drop_last()) + ","@ + json_of_task_seq(ts.last())
    }
}

/// The JSON array for a list of tasks.
pub open spec fn json_of_tasks_seq(ts: Seq<TaskView>) -> Seq<char> {
    "["@ + json_items(ts) + "]"@
}

/// Render one task as a JSON object.
pub fn json_of_task(t: &Task) -> (r: String)
    ensures
        r@ == json_of_task_seq(t@),
{
    let mut out = String::from_str("{\"id\":\"");
    out.append(json_escape_str(t.id.as_str()).as_str());
    out.append("\",\"text\":\"");
    out.append(json_escape_str(t.text.as_str()).as_str());
    out.append("\",\"completed\":");
    if t.completed {
        out.append("true");
    } else {
        out.append("false");
    }
    out.append("}");
    proof {
        assert(out@ =~= json_of_task_seq(t@));
    }
    out
}

/// Render a list of tasks as a JSON array, in the list's order.
pub fn json_of_tasks(ts: &Vec<Task>) -> (r: String)
    ensures
        r@ == json_of_tasks_seq(ts@.map_values(|t: Task| t@)),
{
    let ghost tvs = ts@.map_values(|t: Task| t@);
    let mut out = String::from_str("[");
    let mut k: usize = 0;
    while k < ts.len()
        invariant
            tvs == ts@.map_values(|t: Task| t@),
            tvs.len() == ts@.len(),
            0 <= k <= ts@.len(),
            out@ == "["@ + json_items(tvs.take(k as int)),
        decreases ts@.len() - k,
    {
        if k > 0 {
            out.append(",");
        }
        let item = json_of_task(&ts[k]);
        out.append(item.as_str());
        proof {
            assert(tvs.take(k + 1).drop_last() =~= tvs.take(k as int));
            assert(tvs.take(k + 1).last() == tvs[k as int]);
            assert(tvs[k as int] == ts@[k as int]@);
            if k == 0 {
                assert(json_items(tvs.take(1)) =~= json_of_task_seq(tvs[0]));
            }
            assert(out@ =~= "["@ + json_items(tvs.take(k + 1)));
        }
        k += 1;
    }
    out.append("]");
    proof {
        assert(tvs.take(tvs.len() as int) =~= tvs);
        assert(out@ =~= json_of_tasks_seq(tvs));
    }
    out
}

// ---------------------------------------------------------------------------
// HTML-fragment form
// ---------------------------------------------------------------------------
/// The checkbox attribute that reflects completion.
pub open spec fn html_checked(b: bool) -> Seq<char> {
    if b {
        " checked"@
    } else {
        Seq::empty()
    }
}

/// The HTML fragment for one task: a checkbox reflecting `completed` and the
/// escaped text as a label.
pub open spec fn html_of_task_seq(t: TaskView) -> Seq<char> {
    "<li><input type=\"checkbox\""@ + html_checked(t.completed) + "><span>"@ + html_escape(t.text)
        + "</span></li>"@
}

/// The item fragments of a list of tasks, concatenated in the list's order.
pub open spec fn html_items(ts: Seq<TaskView>) -> Seq<char>
    decreases ts.len(),
{
    if ts.len() == 0 {
        Seq::empty()
    } else {
        html_items(ts.drop_last()) + html_of_task_seq(ts.last())
    }
}

/// The HTML fragment for a list of tasks.
pub open spec fn html_of_tasks_seq(ts: Seq<TaskView>) -> Seq<char> {
    "<ul>"@ + html_items(ts) + "</ul>"@
}

/// Render one task as an HTML list item.
pub fn html_of_task(t: &Task) -> (r: String)
    ensures
        r@ == html_of_task_seq(t@),
{
    let mut out = String::from_str("<li><input type=\"checkbox\"");
    if t.completed {
        out.append(" checked");
    }
    out.append("><span>");
    out.append(html_escape_str(t.text.as_str()).as_str());
    out.append("</span></li>");
    proof {
        assert(out@ =~= html_of_task_seq(t@));
    }
    out
}

/// Render a list of tasks as an HTML fragment, in the list's order.
pub fn html_of_tasks(ts: &Vec<Task>) -> (r: String)
    ensures
        r@ == html_of_tasks_seq(ts@.map_values(|t: Task| t@)),
{
    let ghost tvs = ts@.map_values(|t: Task| t@);
    let mut out = String::from_str("<ul>");
    let mut k: usize = 0;
    while k < ts.len()
        invariant
            tvs == ts@.map_values(|t: Task| t@),
            tvs.len() == ts@.len(),
            0 <= k <= ts@.len(),
            out@ == "<ul>"@ + html_items(tvs.take(k as int)),
        decreases ts@.len() - k,
    {
        let item = html_of_task(&ts[k]);
        out.append(item.as_str());
        proof {
            assert(tvs.take(k + 1).drop_last() =~= tvs.take(k as int));
            assert(tvs.take(k + 1).last() == tvs[k as int]);
            assert(tvs[k as int] == ts@[k as int]@);
            assert(out@ =~= "<ul>"@ + html_items(tvs.take(k + 1)));
        }
        k += 1;
    }
    out.append("</ul>");
    proof {
        assert(tvs.take(tvs.len() as int) =~= tvs);
        assert(out@ =~= html_of_tasks_seq(tvs));
    }
    out
}

// ---------------------------------------------------------------------------
// The two forms agree
// ---------------------------------------------------------------------------
/// Cross-representation consistency: the JSON rendering and the HTML-fragment
/// rendering of one task report the same task. The text each form embeds
/// un-escapes to the task's own text (so the two embedded texts stand for the
/// same content), and the completion markers of the two forms agree with the
/// task's flag and hence with each other.
pub proof fn lemma_cross_representation_consistency(t: TaskView)
    ensures
        json_unescape(json_escape(t.text)) == t.text,
        html_unescape(html_escape(t.text)) == t.text,
        json_unescape(json_escape(t.text)) == html_unescape(html_escape(t.text)),
        (json_bool(t.completed) == "true"@) <==> t.completed,
        (html_checked(t.completed) == " checked"@) <==> t.completed,
        (json_bool(t.completed) == "true"@) <==> (html_checked(t.completed) == " checked"@),
{
    lemma_json_escape_round_trip(t.text);
    lemma_html_escape_round_trip(t.text);
    reveal_strlit("true");
    reveal_strlit("false");
    reveal_strlit(" checked");
    assert("false"@.len() == 5);
    assert(" checked"@.len() == 8);
}

} // verus!
