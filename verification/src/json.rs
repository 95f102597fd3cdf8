//! Texts in JSON, and how long they are.
use vstd::prelude::*;
use vstd::string::*;

use crate::model;
use crate::text;
use crate::text::{chars_of, decimal};

verus! {

/// A character within a JSON string.
pub open spec fn escaped_char(c: char) -> Seq<char> {
    if c == '"' {
        seq!['\\', '"']
    } else if c == '\\' {
        seq!['\\', '\\']
    } else if c as u32 == 8 {
        seq!['\\', 'b']
    } else if c as u32 == 9 {
        seq!['\\', 't']
    } else if c as u32 == 10 {
        seq!['\\', 'n']
    } else if c as u32 == 12 {
        seq!['\\', 'f']
    } else if c as u32 == 13 {
        seq!['\\', 'r']
    } else if (c as u32) < 32 {
        seq!['\\', 'u', '0', '0'] + text::hex_text(c as nat, 2)
    } else {
        seq![c]
    }
}

/// The characters within a JSON string.
pub open spec fn escaped(s: Seq<char>) -> Seq<char>
    decreases s.len(),
{
    if s.len() == 0 {
        Seq::empty()
    } else {
        escaped(s.drop_last()) + escaped_char(s.last())
    }
}

/// A text as a JSON string.
pub open spec fn string_text(s: Seq<char>) -> Seq<char> {
    seq!['"'] + escaped(s) + seq!['"']
}

/// The `Display` of `serde_json::Value::String`: the text between quotation
/// marks, with quotation marks, backslashes and control characters escaped.
#[verifier::external_body]
pub(crate) fn json_string(s: &str) -> (r: String)
    ensures
        r@ == string_text(s@),
{
    serde_json::Value::String(s.to_owned()).to_string()
}

/// The compact JSON of the value that a text holds, where it is JSON.
pub uninterp spec fn compact(s: Seq<char>) -> Option<Seq<char>>;

/// `serde_json::from_str` into a `serde_json::Value`, and the value's
/// `Display`: a function of the text alone.
#[verifier::external_body]
fn read_compact(s: &str) -> (r: Option<String>)
    ensures
        model::opt_view(r) == compact(s@),
{
    match serde_json::from_str::<serde_json::Value>(s) {
        Ok(v) => Some(v.to_string()),
        Err(_) => None,
    }
}

/// The text that a member of the value in a text is, where the text is JSON of
/// an object with such a member.
pub uninterp spec fn text_member(s: Seq<char>, name: Seq<char>) -> Option<Seq<char>>;

/// `serde_json::from_str` into a `serde_json::Value`, then `Value::get` of a
/// name and `Value::as_str` of what that gives: a function of the text and the
/// name alone.
#[verifier::external_body]
pub(crate) fn read_text_member(s: &str, name: &str) -> (r: Option<String>)
    ensures
        model::opt_view(r) == text_member(s@, name@),
{
    match serde_json::from_str::<serde_json::Value>(s) {
        Ok(v) => match v.get(name) {
            Some(m) => m.as_str().map(str::to_owned),
            None => None,
        },
        Err(_) => None,
    }
}

/// The compact JSON of the object in a text with a member set to a text, where
/// the text is JSON of an object.
pub uninterp spec fn with_member(s: Seq<char>, name: Seq<char>, value: Seq<char>) -> Option<
    Seq<char>,
>;

/// `serde_json::from_str` into a `serde_json::Value`, then, where that is an
/// object, `serde_json::Map::insert` of a string under a name and the value's
/// `Display`: a function of the three texts alone. Read again, the member is
/// that string, and a member of another name is what it was.
#[verifier::external_body]
pub(crate) fn put_member(s: &str, name: &str, value: &str) -> (r: Option<String>)
    ensures
        model::opt_view(r) == with_member(s@, name@, value@),
        r matches Some(t) ==> text_member(t@, name@) == Some(value@),
        r matches Some(t) ==> forall|other: Seq<char>|
            other != name@ ==> #[trigger] text_member(t@, other) == text_member(s@, other),
{
    match serde_json::from_str::<serde_json::Value>(s) {
        Ok(serde_json::Value::Object(mut map)) => {
            map.insert(name.to_owned(), serde_json::Value::String(value.to_owned()));
            Some(serde_json::Value::Object(map).to_string())
        },
        _ => None,
    }
}

/// A text as JSON: the value that it holds where it is JSON, else a string.
pub open spec fn value_text(s: Seq<char>, held: Option<Seq<char>>) -> Seq<char> {
    match held {
        Some(v) => v,
        None => string_text(s),
    }
}

/// A text as JSON, with the value that it holds where it is JSON.
pub fn json_with(s: &str, held: Option<String>) -> (r: String)
    ensures
        r@ == value_text(s@, model::opt_view(held)),
{
    match held {
        Some(v) => v,
        None => json_string(s),
    }
}

/// A text as JSON.
pub fn json_of(s: &str) -> (r: String)
    ensures
        r@ == value_text(s@, compact(s@)),
{
    json_with(s, read_compact(s))
}

/// A truth value in JSON.
pub open spec fn bool_text(b: bool) -> Seq<char> {
    if b {
        "true"@
    } else {
        "false"@
    }
}

/// An optional text in JSON.
pub open spec fn opt_text(o: Option<Seq<char>>) -> Seq<char> {
    match o {
        Some(s) => string_text(s),
        None => "null"@,
    }
}

/// An optional number in JSON.
pub open spec fn opt_number(o: Option<usize>) -> Seq<char> {
    match o {
        Some(n) => text::decimal_text(n as nat),
        None => "null"@,
    }
}

/// Adds a text as a JSON string.
pub fn put_string(out: &mut String, s: &str)
    ensures
        final(out)@ == old(out)@ + string_text(s@),
{
    out.append(json_string(s).as_str());
}

/// Adds a truth value.
pub fn put_bool(out: &mut String, b: bool)
    ensures
        final(out)@ == old(out)@ + bool_text(b),
{
    if b {
        out.append("true");
    } else {
        out.append("false");
    }
}

/// Adds a number.
pub fn put_number(out: &mut String, n: usize)
    ensures
        final(out)@ == old(out)@ + text::decimal_text(n as nat),
{
    out.append(decimal(n as u64).as_str());
}

/// Adds an optional text.
pub fn put_opt_string(out: &mut String, o: &Option<String>)
    ensures
        final(out)@ == old(out)@ + opt_text(model::opt_view(*o)),
{
    match o {
        Some(s) => {
            put_string(out, s.as_str());
        },
        None => {
            out.append("null");
        },
    }
}

/// Adds an optional number.
pub fn put_opt_number(out: &mut String, o: Option<usize>)
    ensures
        final(out)@ == old(out)@ + opt_number(o),
{
    match o {
        Some(n) => {
            put_number(out, n);
        },
        None => {
            out.append("null");
        },
    }
}

/// How many bytes a character takes.
pub open spec fn char_width(c: char) -> nat {
    if (c as u32) < 0x80 {
        1
    } else if (c as u32) < 0x800 {
        2
    } else if (c as u32) < 0x10000 {
        3
    } else {
        4
    }
}

/// How many bytes a text takes.
pub open spec fn byte_len(s: Seq<char>) -> nat
    decreases s.len(),
{
    if s.len() == 0 {
        0
    } else {
        byte_len(s.drop_last()) + char_width(s.last())
    }
}

/// A longer text takes no fewer bytes.
proof fn byte_len_grows(s: Seq<char>, n: int)
    requires
        0 <= n <= s.len(),
    ensures
        byte_len(s.take(n)) <= byte_len(s),
    decreases s.len() - n,
{
    if n < s.len() {
        assert(s.take(n + 1).drop_last() == s.take(n));
        byte_len_grows(s, n + 1);
    } else {
        assert(s.take(n) == s);
    }
}

/// Whether a text takes more bytes than a budget.
pub fn exceeds(s: &str, budget: usize) -> (r: bool)
    ensures
        r == (byte_len(s@) > budget),
{
    let x = chars_of(s);
    let mut n: usize = 0;
    let mut i: usize = 0;
    while i < x.len()
        invariant
            i <= x@.len(),
            x@ == s@,
            n == byte_len(s@.take(i as int)),
            n <= budget,
        decreases x@.len() - i,
    {
        let c: u32 = x[i] as u32;
        assert(s@.take(i + 1).drop_last() == s@.take(i as int));
        let width: usize = if c < 0x80 {
            1
        } else if c < 0x800 {
            2
        } else if c < 0x10000 {
            3
        } else {
            4
        };
        i = i + 1;
        if budget - n < width {
            proof {
                byte_len_grows(s@, i as int);
            }
            return true;
        }
        n = n + width;
    }
    assert(s@.take(s@.len() as int) == s@);
    false
}

/// A text takes as many bytes as its parts.
pub proof fn byte_len_adds(a: Seq<char>, b: Seq<char>)
    ensures
        byte_len(a + b) == byte_len(a) + byte_len(b),
    decreases b.len(),
{
    if b.len() == 0 {
        assert(a + b == a);
    } else {
        byte_len_adds(a, b.drop_last());
        assert((a + b).drop_last() == a + b.drop_last());
    }
}

/// A text takes at most four bytes for a character.
pub proof fn byte_len_is_bounded(s: Seq<char>)
    ensures
        byte_len(s) <= 4 * s.len(),
    decreases s.len(),
{
    if s.len() > 0 {
        byte_len_is_bounded(s.drop_last());
    }
}

/// A character within a JSON string takes at most six bytes.
proof fn escaped_char_is_bounded(c: char)
    ensures
        byte_len(escaped_char(c)) <= 6,
{
    reveal_with_fuel(byte_len, 5);
    let e = escaped_char(c);
    if e.len() == 2 {
        assert(e.drop_last().drop_last().len() == 0);
    } else if (c as u32) < 32 && e.len() != 1 {
        reveal_with_fuel(text::hex_text, 3);
        let hex = text::hex_text(c as nat, 2);
        let head = seq!['\\', 'u', '0', '0'];
        assert(hex.len() == 2);
        assert((hex[0] as u32) < 0x80 && (hex[1] as u32) < 0x80);
        assert(hex.drop_last().drop_last().len() == 0);
        assert(byte_len(hex) == 2);
        assert(head.drop_last().drop_last().drop_last().drop_last().len() == 0);
        assert(byte_len(head) == 4);
        byte_len_adds(head, hex);
    }
}

/// The characters within a JSON string take at most six bytes each.
proof fn escaped_is_bounded(s: Seq<char>)
    ensures
        byte_len(escaped(s)) <= 6 * s.len(),
    decreases s.len(),
{
    if s.len() > 0 {
        escaped_is_bounded(s.drop_last());
        escaped_char_is_bounded(s.last());
        byte_len_adds(escaped(s.drop_last()), escaped_char(s.last()));
    }
}

/// A JSON string takes at most six bytes for a character, and its quotation
/// marks.
pub proof fn string_text_is_bounded(s: Seq<char>)
    ensures
        byte_len(string_text(s)) <= 6 * s.len() + 2,
{
    let mark = seq!['"'];
    reveal_with_fuel(byte_len, 2);
    assert(mark.drop_last().len() == 0);
    assert(byte_len(mark) == 1);
    escaped_is_bounded(s);
    byte_len_adds(mark, escaped(s));
    byte_len_adds(mark + escaped(s), mark);
}

/// An optional text takes no more than a string or four bytes for each of four
/// characters.
pub proof fn opt_text_is_bounded(o: Option<Seq<char>>, n: nat)
    requires
        o matches Some(s) ==> s.len() <= n,
    ensures
        byte_len(opt_text(o)) <= 6 * n + 16,
{
    match o {
        Some(s) => {
            string_text_is_bounded(s);
        },
        None => {
            reveal_strlit("null");
            byte_len_is_bounded("null"@);
        },
    }
}

/// A truth value takes no more than four bytes for each of five characters.
pub proof fn bool_text_is_bounded(b: bool)
    ensures
        byte_len(bool_text(b)) <= 20,
{
    reveal_strlit("true");
    reveal_strlit("false");
    byte_len_is_bounded("true"@);
    byte_len_is_bounded("false"@);
}

/// A text is escaped character by character.
pub proof fn texts_are_escaped_by_character(a: Seq<char>, b: Seq<char>, c: char)
    ensures
        escaped(a + b) == escaped(a) + escaped(b),
        escaped(seq![c]) == escaped_char(c),
        escaped(Seq::empty()) == Seq::<char>::empty(),
        byte_len(seq![c]) == char_width(c),
    decreases b.len(),
{
    assert(seq![c].drop_last() =~= Seq::<char>::empty());
    assert(escaped(seq![c].drop_last()) =~= Seq::<char>::empty());
    assert(escaped(seq![c]) =~= escaped_char(c));
    assert(byte_len(seq![c].drop_last()) == 0);
    if b.len() == 0 {
        assert(a + b =~= a);
        assert(escaped(a) + escaped(b) =~= escaped(a));
    } else {
        assert((a + b).last() == b.last());
        assert((a + b).drop_last() =~= a + b.drop_last());
        texts_are_escaped_by_character(a, b.drop_last(), c);
        assert(escaped(a + b) =~= escaped(a) + escaped(b));
    }
}

/// What a character is written as: itself, but for the quotation mark, the stroke
/// and the control characters, which stand behind a stroke.
pub proof fn marks_stand_behind_a_stroke(c: char)
    ensures
        escaped_char('"') == seq!['\\', '"'],
        escaped_char('\\') == seq!['\\', '\\'],
        escaped_char('\n') == seq!['\\', 'n'],
        escaped_char('\r') == seq!['\\', 'r'],
        escaped_char('\t') == seq!['\\', 't'],
        c as u32 >= 32 && c != '"' && c != '\\' ==> escaped_char(c) == seq![c],
        (c as u32) < 32 ==> escaped_char(c).len() >= 2 && escaped_char(c)[0] == '\\',
        char_width('a') == 1 && char_width('é') == 2 && char_width('中') == 3 && char_width('😀')
            == 4,
{
}

/// A value is written as what it is: a text in quotation marks, what is not there
/// as nothing, and what is a value already as it stands.
pub proof fn values_are_written_as_they_are(s: Seq<char>, v: Seq<char>, n: usize)
    ensures
        string_text(s).len() == escaped(s).len() + 2,
        string_text(s)[0] == '"' && string_text(s).last() == '"',
        string_text(s).subrange(1, string_text(s).len() - 1) == escaped(s),
        value_text(s, Some(v)) == v,
        value_text(s, None) == string_text(s),
        opt_text(Some(s)) == string_text(s),
        opt_text(None) == "null"@,
        opt_number(Some(n)) == text::decimal_text(n as nat),
        opt_number(None) == "null"@,
        bool_text(true) == "true"@,
        bool_text(false) == "false"@,
{
    assert(string_text(s).subrange(1, string_text(s).len() - 1) =~= escaped(s));
}

} // verus!
