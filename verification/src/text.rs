//! Text as sequences of characters: comparison, search, trimming, replacing
//! and joining, each stated over the characters a text consists of.
use vstd::prelude::*;
use vstd::string::*;

use crate::model;

verus! {

/// `String::push`: the character is added at the end, nothing else changes.
pub assume_specification[ String::push ](s: &mut String, c: char)
    ensures
        final(s)@ == old(s)@.push(c),
;

/// The lowercase form of a text, as `str::to_lowercase` gives it.
pub uninterp spec fn lowercased(s: Seq<char>) -> Seq<char>;

/// `str::to_lowercase`: the Unicode lowercase form, a function of the text
/// alone. Which characters it holds is left to Unicode's tables.
#[verifier::external_body]
pub(crate) fn lowercase(s: &str) -> (r: String)
    ensures
        r@ == lowercased(s@),
{
    s.to_lowercase()
}

/// Whether a character has Unicode's `White_Space` property.
pub open spec fn white(c: char) -> bool {
    let n = c as u32;
    ||| 0x9 <= n <= 0xD
    ||| n == 0x20
    ||| n == 0x85
    ||| n == 0xA0
    ||| n == 0x1680
    ||| 0x2000 <= n <= 0x200A
    ||| n == 0x2028
    ||| n == 0x2029
    ||| n == 0x202F
    ||| n == 0x205F
    ||| n == 0x3000
}

/// Tells white space.
pub fn is_white(c: char) -> (r: bool)
    ensures
        r == white(c),
{
    let n: u32 = c as u32;
    (0x9 <= n && n <= 0xD) || n == 0x20 || n == 0x85 || n == 0xA0 || n == 0x1680
        || (0x2000 <= n && n <= 0x200A) || n == 0x2028 || n == 0x2029 || n == 0x202F
        || n == 0x205F || n == 0x3000
}

/// The text inside an optional borrowed text.
pub open spec fn opt_str(o: Option<&str>) -> Option<Seq<char>> {
    match o {
        Some(s) => Some(s@),
        None => None,
    }
}

/// The characters of a text, in order.
pub fn chars_of(s: &str) -> (r: Vec<char>)
    ensures
        r@ == s@,
{
    let mut out: Vec<char> = Vec::new();
    for c in it: s.chars()
        invariant
            out@ == s@.take(it.index()),
            it.seq() == s@,
    {
        out.push(c);
    }
    proof {
        assert(s@.take(s@.len() as int) == s@);
    }
    out
}

/// The text made of the characters from `from` up to `to`.
pub fn span(v: &Vec<char>, from: usize, to: usize) -> (r: String)
    requires
        from <= to <= v@.len(),
    ensures
        r@ == v@.subrange(from as int, to as int),
{
    let mut out = String::new();
    let mut i: usize = from;
    while i < to
        invariant
            from <= i <= to <= v@.len(),
            out@ == v@.subrange(from as int, i as int),
        decreases to - i,
    {
        out.push(v[i]);
        i = i + 1;
        assert(v@.subrange(from as int, i as int) == v@.subrange(from as int, i - 1).push(v@[i - 1]));
    }
    out
}

/// A copy of a borrowed text.
pub fn owned(s: &str) -> (r: String)
    ensures
        r@ == s@,
{
    s.to_owned()
}

/// Whether two texts are the same, character for character.
pub fn same_text(a: &str, b: &str) -> (r: bool)
    ensures
        r == (a@ == b@),
{
    let x = chars_of(a);
    let y = chars_of(b);
    if x.len() != y.len() {
        return false;
    }
    let mut i: usize = 0;
    while i < x.len()
        invariant
            x@ == a@,
            y@ == b@,
            x@.len() == y@.len(),
            i <= x@.len(),
            forall|k: int| 0 <= k < i ==> x@[k] == y@[k],
        decreases x@.len() - i,
    {
        if x[i] != y[i] {
            return false;
        }
        i = i + 1;
    }
    assert(a@ =~= b@);
    true
}

/// Whether `part` stands in `s` at position `i`.
pub open spec fn stands_at(s: Seq<char>, part: Seq<char>, i: int) -> bool {
    0 <= i <= s.len() - part.len() && s.subrange(i, i + part.len()) == part
}

/// Whether `part` stands somewhere in `s`.
pub open spec fn has_part(s: Seq<char>, part: Seq<char>) -> bool {
    exists|i: int| stands_at(s, part, i)
}

/// Whether `part` stands in `s` at position `i`.
pub fn is_at(s: &Vec<char>, part: &Vec<char>, i: usize) -> (r: bool)
    ensures
        r == stands_at(s@, part@, i as int),
{
    if s.len() < part.len() || i > s.len() - part.len() {
        return false;
    }
    let limit: usize = s.len();
    let mut k: usize = 0;
    while k < part.len()
        invariant
            k <= part@.len(),
            limit == s@.len(),
            i + part@.len() <= limit,
            forall|j: int| 0 <= j < k ==> s@[i + j] == part@[j],
        decreases part@.len() - k,
    {
        if s[i + k] != part[k] {
            assert(s@.subrange(i as int, i + part@.len())[k as int] != part@[k as int]);
            return false;
        }
        k = k + 1;
    }
    assert(s@.subrange(i as int, i + part@.len()) =~= part@);
    true
}

/// Whether `part` stands somewhere in `s`.
pub fn contains_text(s: &str, part: &str) -> (r: bool)
    ensures
        r == has_part(s@, part@),
{
    let x = chars_of(s);
    let y = chars_of(part);
    if x.len() < y.len() {
        return false;
    }
    let last: usize = x.len() - y.len();
    let mut i: usize = 0;
    while i <= last
        invariant
            x@ == s@,
            y@ == part@,
            last == x@.len() - y@.len(),
            i <= last + 1,
            forall|k: int| 0 <= k < i ==> !stands_at(s@, part@, k),
        decreases last + 1 - i,
    {
        if is_at(&x, &y, i) {
            assert(stands_at(s@, part@, i as int));
            return true;
        }
        if i == last {
            assert forall|k: int| !stands_at(s@, part@, k) by {}
            return false;
        }
        i = i + 1;
    }
    false
}

/// Whether `s` starts with `part`.
pub open spec fn begins(s: Seq<char>, part: Seq<char>) -> bool {
    s.len() >= part.len() && s.take(part.len() as int) == part
}

/// Whether `s` ends with `part`.
pub open spec fn finishes(s: Seq<char>, part: Seq<char>) -> bool {
    s.len() >= part.len() && s.skip(s.len() - part.len()) == part
}

/// Whether `s` starts with `part`.
pub fn starts_with(s: &str, part: &str) -> (r: bool)
    ensures
        r == begins(s@, part@),
{
    let x = chars_of(s);
    let y = chars_of(part);
    proof {
        if s@.len() >= part@.len() {
            assert(s@.take(part@.len() as int) == s@.subrange(0, part@.len() as int));
        }
    }
    is_at(&x, &y, 0)
}

/// Whether `s` ends with `part`.
pub fn ends_with(s: &str, part: &str) -> (r: bool)
    ensures
        r == finishes(s@, part@),
{
    let x = chars_of(s);
    let y = chars_of(part);
    if x.len() < y.len() {
        return false;
    }
    proof {
        let at = s@.len() - part@.len();
        assert(s@.skip(at) == s@.subrange(at, at + part@.len()));
    }
    is_at(&x, &y, x.len() - y.len())
}

/// What stands behind a prefix, where the text has it.
pub fn strip_prefix(s: &str, part: &str) -> (r: Option<String>)
    ensures
        match r {
            Some(t) => begins(s@, part@) && t@ == s@.skip(part@.len() as int),
            None => !begins(s@, part@),
        },
{
    if starts_with(s, part) {
        let x = chars_of(s);
        let y = chars_of(part);
        let rest = span(&x, y.len(), x.len());
        assert(rest@ == s@.skip(part@.len() as int));
        Some(rest)
    } else {
        None
    }
}

/// The lowercase form of an ASCII letter; every other character itself.
pub open spec fn ascii_low(c: char) -> char {
    if 'A' <= c <= 'Z' {
        ((c as u32 + 32) as u32) as char
    } else {
        c
    }
}

/// Whether two texts differ at most in the case of ASCII letters.
pub open spec fn same_ascii(a: Seq<char>, b: Seq<char>) -> bool {
    a.len() == b.len() && forall|i: int| 0 <= i < a.len() ==> ascii_low(a[i]) == ascii_low(b[i])
}

/// The code point of a character with its ASCII case removed.
fn folded(c: char) -> (r: u32)
    ensures
        r == ascii_low(c) as u32,
{
    let n: u32 = c as u32;
    if 65 <= n && n <= 90 {
        n + 32
    } else {
        n
    }
}

/// Whether two texts differ at most in the case of ASCII letters.
pub fn eq_ignore_ascii_case(a: &str, b: &str) -> (r: bool)
    ensures
        r == same_ascii(a@, b@),
{
    let x = chars_of(a);
    let y = chars_of(b);
    if x.len() != y.len() {
        return false;
    }
    let mut i: usize = 0;
    while i < x.len()
        invariant
            x@ == a@,
            y@ == b@,
            x@.len() == y@.len(),
            i <= x@.len(),
            forall|k: int| 0 <= k < i ==> ascii_low(x@[k]) == ascii_low(y@[k]),
        decreases x@.len() - i,
    {
        if folded(x[i]) != folded(y[i]) {
            return false;
        }
        i = i + 1;
    }
    true
}

/// A text without its leading white space.
pub open spec fn trimmed_start(s: Seq<char>) -> Seq<char>
    decreases s.len(),
{
    if s.len() > 0 && white(s[0]) {
        trimmed_start(s.drop_first())
    } else {
        s
    }
}

/// A text without its trailing white space.
pub open spec fn trimmed_end(s: Seq<char>) -> Seq<char>
    decreases s.len(),
{
    if s.len() > 0 && white(s.last()) {
        trimmed_end(s.drop_last())
    } else {
        s
    }
}

/// A text without the white space around it.
pub open spec fn trimmed(s: Seq<char>) -> Seq<char> {
    trimmed_end(trimmed_start(s))
}

/// Whether a text is empty or white space alone.
pub open spec fn blank(s: Seq<char>) -> bool {
    trimmed(s).len() == 0
}

/// A text without its trailing white space.
pub fn trim_end(s: &str) -> (r: String)
    ensures
        r@ == trimmed_end(s@),
{
    let x = chars_of(s);
    let mut n: usize = x.len();
    assert(s@.take(s@.len() as int) == s@);
    while n > 0 && is_white(x[n - 1])
        invariant
            n <= x@.len(),
            x@ == s@,
            trimmed_end(s@) == trimmed_end(s@.take(n as int)),
        decreases n,
    {
        assert(s@.take(n as int).drop_last() == s@.take(n - 1));
        n = n - 1;
    }
    let r = span(&x, 0, n);
    assert(r@ == s@.take(n as int));
    r
}

/// A text without the white space around it.
pub fn trim(s: &str) -> (r: String)
    ensures
        r@ == trimmed(s@),
{
    let x = chars_of(s);
    let mut n: usize = 0;
    assert(s@.skip(0) == s@);
    while n < x.len() && is_white(x[n])
        invariant
            n <= x@.len(),
            x@ == s@,
            trimmed_start(s@) == trimmed_start(s@.skip(n as int)),
        decreases x@.len() - n,
    {
        assert(s@.skip(n as int).drop_first() == s@.skip(n + 1));
        n = n + 1;
    }
    let r = span(&x, n, x.len());
    assert(r@ == s@.skip(n as int));
    trim_end(r.as_str())
}

/// Whether a text is empty or white space alone.
pub fn is_blank(s: &str) -> (r: bool)
    ensures
        r == blank(s@),
{
    let t = trim(s);
    t.as_str().is_empty()
}

/// `s` with each occurrence of `part`, from the left and without overlap,
/// replaced by `with`.
pub open spec fn replaced(s: Seq<char>, part: Seq<char>, with: Seq<char>) -> Seq<char>
    decreases s.len(),
{
    if part.len() == 0 || s.len() == 0 {
        s
    } else if begins(s, part) {
        with + replaced(s.skip(part.len() as int), part, with)
    } else {
        seq![s[0]] + replaced(s.drop_first(), part, with)
    }
}

/// Replaces each occurrence of a nonempty part.
pub fn replace_all(s: &str, part: &str, with: &str) -> (r: String)
    requires
        part@.len() > 0,
    ensures
        r@ == replaced(s@, part@, with@),
{
    let x = chars_of(s);
    let y = chars_of(part);
    let mut out = String::new();
    let mut i: usize = 0;
    assert(s@.skip(0) == s@);
    while i < x.len()
        invariant
            x@ == s@,
            y@ == part@,
            part@.len() > 0,
            i <= x@.len(),
            replaced(s@, part@, with@) == out@ + replaced(s@.skip(i as int), part@, with@),
        decreases x@.len() - i,
    {
        let ghost rest = s@.skip(i as int);
        if is_at(&x, &y, i) {
            proof {
                assert(rest.take(part@.len() as int) == s@.subrange(i as int, i + part@.len()));
                assert(rest.skip(part@.len() as int) == s@.skip(i + part@.len()));
            }
            let ghost before = out@;
            out.append(with);
            i = i + y.len();
            assert(before + (with@ + replaced(s@.skip(i as int), part@, with@)) == out@ + replaced(
                s@.skip(i as int),
                part@,
                with@,
            ));
        } else {
            proof {
                if begins(rest, part@) {
                    assert(rest.take(part@.len() as int) == s@.subrange(i as int, i + part@.len()));
                }
                assert(rest.drop_first() == s@.skip(i + 1));
            }
            let ghost before = out@;
            out.push(x[i]);
            i = i + 1;
            assert(before + (seq![rest[0]] + replaced(s@.skip(i as int), part@, with@)) == out@
                + replaced(s@.skip(i as int), part@, with@));
        }
    }
    assert(replaced(s@.skip(i as int), part@, with@) == Seq::<char>::empty());
    assert(out@ + Seq::<char>::empty() == out@);
    out
}

/// The parts put together with a separator between neighbours.
pub open spec fn joined(parts: Seq<Seq<char>>, sep: Seq<char>) -> Seq<char>
    decreases parts.len(),
{
    if parts.len() == 0 {
        Seq::empty()
    } else if parts.len() == 1 {
        parts[0]
    } else {
        joined(parts.drop_last(), sep) + sep + parts.last()
    }
}

/// Puts texts together with a separator between neighbours.
pub fn join(parts: &Vec<String>, sep: &str) -> (r: String)
    ensures
        r@ == joined(model::seq_view(parts@), sep@),
{
    let mut out = String::new();
    let mut i: usize = 0;
    while i < parts.len()
        invariant
            i <= parts@.len(),
            out@ == joined(model::seq_view(parts@).take(i as int), sep@),
        decreases parts@.len() - i,
    {
        if i > 0 {
            out.append(sep);
        }
        out.append(parts[i].as_str());
        i = i + 1;
        proof {
            let now = model::seq_view(parts@).take(i as int);
            assert(now.drop_last() == model::seq_view(parts@).take(i - 1));
        }
    }
    assert(model::seq_view(parts@).take(parts@.len() as int) == model::seq_view(parts@));
    out
}

/// The parts of a text between separators.
pub open spec fn pieces(s: Seq<char>, sep: char) -> Seq<Seq<char>>
    decreases s.len(),
{
    if s.len() == 0 {
        seq![Seq::empty()]
    } else {
        let before = pieces(s.drop_last(), sep);
        if s.last() == sep {
            before.push(Seq::empty())
        } else {
            before.update(before.len() - 1, before.last().push(s.last()))
        }
    }
}

/// Splits a text at separators.
pub fn split(s: &str, sep: char) -> (r: Vec<String>)
    ensures
        model::seq_view(r@) == pieces(s@, sep),
        r@.len() > 0,
{
    let x = chars_of(s);
    let mut out: Vec<String> = Vec::new();
    let mut part = String::new();
    let mut i: usize = 0;
    assert(model::seq_view(out@).push(part@) =~= pieces(s@.take(0), sep));
    while i < x.len()
        invariant
            i <= x@.len(),
            x@ == s@,
            model::seq_view(out@).push(part@) == pieces(s@.take(i as int), sep),
        decreases x@.len() - i,
    {
        let ghost before = out@;
        let ghost old_part = part@;
        proof {
            assert(s@.take(i + 1).drop_last() == s@.take(i as int));
            assert(s@.take(i + 1).last() == x@[i as int]);
        }
        if x[i] == sep {
            out.push(part);
            part = String::new();
            assert(model::seq_view(out@) =~= model::seq_view(before).push(old_part));
            assert(part@ =~= Seq::<char>::empty());
        } else {
            part.push(x[i]);
            assert(model::seq_view(before).push(old_part).update(
                before.len() as int,
                old_part.push(x@[i as int]),
            ) =~= model::seq_view(before).push(part@));
        }
        i = i + 1;
    }
    assert(s@.take(s@.len() as int) == s@);
    let ghost before = out@;
    out.push(part);
    assert(model::seq_view(out@) =~= model::seq_view(before).push(part@));
    out
}

/// The parts without the white space around them, those that hold nothing
/// else left out.
pub open spec fn filled(parts: Seq<Seq<char>>) -> Seq<Seq<char>>
    decreases parts.len(),
{
    if parts.len() == 0 {
        Seq::empty()
    } else if blank(parts.last()) {
        filled(parts.drop_last())
    } else {
        filled(parts.drop_last()).push(trimmed(parts.last()))
    }
}

/// The words of a list that is written with separators.
pub fn split_filled(s: &str, sep: char) -> (r: Vec<String>)
    ensures
        model::seq_view(r@) == filled(pieces(s@, sep)),
{
    let parts = split(s, sep);
    let ghost ps = model::seq_view(parts@);
    let mut out: Vec<String> = Vec::new();
    assert(model::seq_view(out@) =~= filled(ps.take(0)));
    let mut i: usize = 0;
    while i < parts.len()
        invariant
            i <= parts@.len(),
            ps == model::seq_view(parts@),
            model::seq_view(out@) == filled(ps.take(i as int)),
        decreases parts@.len() - i,
    {
        let ghost before = out@;
        proof {
            assert(ps.take(i + 1).drop_last() == ps.take(i as int));
            assert(ps.take(i + 1).last() == parts@[i as int]@);
        }
        let word = trim(parts[i].as_str());
        if !word.as_str().is_empty() {
            out.push(word);
            assert(model::seq_view(out@) =~= model::seq_view(before).push(word@));
        }
        i = i + 1;
    }
    assert(ps.take(ps.len() as int) == ps);
    out
}

/// The first `n` characters, or all of them where there are fewer.
pub open spec fn clipped(s: Seq<char>, n: nat) -> Seq<char> {
    if s.len() <= n {
        s
    } else {
        s.take(n as int)
    }
}

/// Keeps at most `n` characters.
pub fn take_chars(s: &str, n: usize) -> (r: String)
    ensures
        r@ == clipped(s@, n as nat),
{
    let x = chars_of(s);
    if x.len() <= n {
        owned(s)
    } else {
        let r = span(&x, 0, n);
        assert(r@ == s@.take(n as int));
        r
    }
}

/// The decimal digit for a number below ten.
pub open spec fn digit(n: nat) -> char {
    ((48 + n) as u32) as char
}

/// A natural number in decimal.
pub open spec fn decimal_text(n: nat) -> Seq<char>
    decreases n,
{
    if n < 10 {
        seq![digit(n)]
    } else {
        decimal_text(n / 10).push(digit(n % 10))
    }
}

/// A number with so many digits.
spec fn ten_to(k: nat) -> nat
    decreases k,
{
    if k == 0 {
        1
    } else {
        10 * ten_to((k - 1) as nat)
    }
}

/// A number below a power of ten has no more digits than its exponent.
proof fn decimal_len(n: nat, k: nat)
    requires
        k > 0,
        n < ten_to(k),
    ensures
        decimal_text(n).len() <= k,
    decreases k,
{
    if n >= 10 {
        reveal_with_fuel(ten_to, 2);
        decimal_len(n / 10, (k - 1) as nat);
    }
}

/// A number of the machine has at most twenty digits.
pub proof fn decimal_is_bounded(n: u64)
    ensures
        decimal_text(n as nat).len() <= 20,
{
    reveal_with_fuel(ten_to, 21);
    decimal_len(n as nat, 20);
}

/// The decimal digit for a number below ten.
fn digit_of(n: u64) -> (r: char)
    requires
        n < 10,
    ensures
        r == digit(n as nat),
{
    match n {
        0 => '0',
        1 => '1',
        2 => '2',
        3 => '3',
        4 => '4',
        5 => '5',
        6 => '6',
        7 => '7',
        8 => '8',
        _ => '9',
    }
}

/// Writes a number in decimal.
pub fn decimal(n: u64) -> (r: String)
    ensures
        r@ == decimal_text(n as nat),
    decreases n,
{
    if n < 10 {
        let mut s = String::new();
        s.push(digit_of(n));
        assert(s@ == seq![digit(n as nat)]);
        s
    } else {
        let mut s = decimal(n / 10);
        s.push(digit_of(n % 10));
        s
    }
}

/// A whole number in decimal, with a minus sign where it is negative.
pub open spec fn signed_text(n: int) -> Seq<char> {
    if n < 0 {
        seq!['-'] + decimal_text((-n) as nat)
    } else {
        decimal_text(n as nat)
    }
}

/// Writes a signed number in decimal.
pub fn signed_decimal(n: i64) -> (r: String)
    ensures
        r@ == signed_text(n as int),
{
    if n >= 0 {
        decimal(n as u64)
    } else {
        let mut s = String::new();
        s.push('-');
        let magnitude: u64 = if n == i64::MIN {
            9223372036854775808
        } else {
            (-n) as u64
        };
        let d = decimal(magnitude);
        s.append(d.as_str());
        assert(s@ == seq!['-'] + d@);
        s
    }
}

/// The lowercase hexadecimal digit for a number below sixteen.
pub open spec fn hex_digit(n: nat) -> char {
    if n < 10 {
        digit(n)
    } else {
        ((87 + n) as u32) as char
    }
}

/// The lowest `len` hexadecimal digits of a number.
pub open spec fn hex_text(n: nat, len: nat) -> Seq<char>
    decreases len,
{
    if len == 0 {
        Seq::empty()
    } else {
        hex_text(n / 16, (len - 1) as nat).push(hex_digit(n % 16))
    }
}

/// As many digits as are asked for.
pub proof fn hex_text_len(n: nat, len: nat)
    ensures
        hex_text(n, len).len() == len,
    decreases len,
{
    if len > 0 {
        hex_text_len(n / 16, (len - 1) as nat);
    }
}

/// The lowercase hexadecimal digit for a number below sixteen.
fn hex_digit_of(n: u64) -> (r: char)
    requires
        n < 16,
    ensures
        r == hex_digit(n as nat),
{
    match n {
        10 => 'a',
        11 => 'b',
        12 => 'c',
        13 => 'd',
        14 => 'e',
        15 => 'f',
        _ => digit_of(n),
    }
}

/// Writes the lowest `len` hexadecimal digits of a number.
pub fn hex(n: u64, len: usize) -> (r: String)
    ensures
        r@ == hex_text(n as nat, len as nat),
    decreases len,
{
    if len == 0 {
        String::new()
    } else {
        let mut s = hex(n / 16, len - 1);
        s.push(hex_digit_of(n % 16));
        s
    }
}

/// A text with its ASCII letters in lower case.
pub open spec fn ascii_lowered(s: Seq<char>) -> Seq<char> {
    Seq::new(s.len(), |i: int| ascii_low(s[i]))
}

/// A character in lower case where it is an ASCII letter.
fn lower_letter(c: char) -> (r: char)
    ensures
        r == ascii_low(c),
{
    if 'A' <= c && c <= 'Z' {
        (c as u8 + 32) as char
    } else {
        c
    }
}

/// A text with its ASCII letters in lower case.
pub fn ascii_lowercase(s: &str) -> (r: String)
    ensures
        r@ == ascii_lowered(s@),
{
    let x = chars_of(s);
    let mut out = String::new();
    let mut i: usize = 0;
    assert(out@ =~= ascii_lowered(s@).take(0));
    while i < x.len()
        invariant
            i <= x@.len(),
            x@ == s@,
            out@ == ascii_lowered(s@).take(i as int),
        decreases x@.len() - i,
    {
        out.push(lower_letter(x[i]));
        i = i + 1;
        assert(out@ =~= ascii_lowered(s@).take(i as int));
    }
    assert(ascii_lowered(s@).take(s@.len() as int) =~= ascii_lowered(s@));
    out
}

/// The words of a text: what stands between white space.
pub open spec fn words(s: Seq<char>) -> Seq<Seq<char>>
    decreases s.len(),
{
    if s.len() == 0 {
        Seq::empty()
    } else {
        let before = words(s.drop_last());
        if white(s.last()) {
            before
        } else if s.len() > 1 && !white(s[s.len() - 2]) && before.len() > 0 {
            before.update(before.len() - 1, before.last().push(s.last()))
        } else {
            before.push(seq![s.last()])
        }
    }
}

/// A text that ends in a word has one.
proof fn last_word_exists(s: Seq<char>)
    requires
        s.len() > 0,
        !white(s.last()),
    ensures
        words(s).len() > 0,
{
}

/// The words of a text.
pub fn split_whitespace(s: &str) -> (r: Vec<String>)
    ensures
        model::seq_view(r@) == words(s@),
{
    let x = chars_of(s);
    let mut out: Vec<String> = Vec::new();
    let mut open = false;
    let mut i: usize = 0;
    assert(model::seq_view(out@) =~= words(s@.take(0)));
    while i < x.len()
        invariant
            i <= x@.len(),
            x@ == s@,
            open == (i > 0 && !white(s@[i - 1])),
            model::seq_view(out@) == words(s@.take(i as int)),
        decreases x@.len() - i,
    {
        let c = x[i];
        let ghost before = model::seq_view(out@);
        proof {
            assert(s@.take(i + 1).drop_last() == s@.take(i as int));
            assert(s@.take(i + 1).last() == c);
            if open {
                assert(s@.take(i as int).last() == s@[i - 1]);
                last_word_exists(s@.take(i as int));
                assert(s@.take(i + 1)[i - 1] == s@[i - 1]);
            } else if i > 0 {
                assert(s@.take(i + 1)[i - 1] == s@[i - 1]);
            }
        }
        if is_white(c) {
            open = false;
        } else if open {
            let ghost had = out@;
            match out.pop() {
                Some(last) => {
                    let ghost old_word = last@;
                    let mut word = last;
                    word.push(c);
                    out.push(word);
                    assert(model::seq_view(out@) =~= before.update(
                        before.len() - 1,
                        old_word.push(c),
                    ));
                },
                None => {},
            }
        } else {
            let mut word = String::new();
            word.push(c);
            out.push(word);
            assert(word@ =~= seq![c]);
            assert(model::seq_view(out@) =~= before.push(seq![c]));
            open = true;
        }
        i = i + 1;
    }
    assert(s@.take(s@.len() as int) == s@);
    out
}

/// The number that a row of digits stands for.
pub open spec fn digits_value(s: Seq<char>) -> nat
    decreases s.len(),
{
    if s.len() == 0 {
        0
    } else {
        digits_value(s.drop_last()) * 10 + (s.last() as int - '0' as int) as nat
    }
}

/// Whether a text is a row of digits.
pub open spec fn all_digits(s: Seq<char>) -> bool {
    s.len() > 0 && forall|i: int| 0 <= i < s.len() ==> '0' <= #[trigger] s[i] <= '9'
}

/// The number that a text stands for: digits, with a plus sign before them or
/// without, where it is not too large.
pub open spec fn number(s: Seq<char>) -> Option<u64> {
    let digits = if s.len() > 0 && s[0] == '+' {
        s.drop_first()
    } else {
        s
    };
    if all_digits(digits) && digits_value(digits) <= u64::MAX {
        Some(digits_value(digits) as u64)
    } else {
        None
    }
}

/// More digits stand for no smaller number.
proof fn digits_grow(s: Seq<char>, n: int)
    requires
        all_digits(s),
        0 <= n <= s.len(),
    ensures
        digits_value(s.take(n)) <= digits_value(s),
    decreases s.len() - n,
{
    if n < s.len() {
        assert(s.take(n + 1).drop_last() == s.take(n));
        digits_grow(s, n + 1);
    } else {
        assert(s.take(n) == s);
    }
}

/// The number that a text stands for.
pub fn parse_number(s: &str) -> (r: Option<u64>)
    ensures
        r == number(s@),
{
    let x = chars_of(s);
    let from: usize = if x.len() > 0 && x[0] == '+' {
        1
    } else {
        0
    };
    let ghost digits = if s@.len() > 0 && s@[0] == '+' {
        s@.drop_first()
    } else {
        s@
    };
    if from == x.len() {
        return None;
    }
    let mut k: usize = from;
    while k < x.len()
        invariant
            from <= k <= x@.len(),
            x@ == s@,
            digits.len() == s@.len() - from,
            digits == if s@.len() > 0 && s@[0] == '+' {
                s@.drop_first()
            } else {
                s@
            },
            forall|i: int| 0 <= i < digits.len() ==> #[trigger] digits[i] == s@[i + from],
            forall|i: int| 0 <= i < k - from ==> '0' <= #[trigger] digits[i] <= '9',
        decreases x@.len() - k,
    {
        let c = x[k];
        assert(digits[k - from] == c);
        if !('0' <= c && c <= '9') {
            return None;
        }
        k = k + 1;
    }
    assert(all_digits(digits));
    let mut value: u64 = 0;
    let mut i: usize = from;
    assert(digits.take(0).len() == 0);
    while i < x.len()
        invariant
            from <= i <= x@.len(),
            x@ == s@,
            digits.len() == s@.len() - from,
            forall|j: int| 0 <= j < digits.len() ==> #[trigger] digits[j] == s@[j + from],
            all_digits(digits),
            digits == if s@.len() > 0 && s@[0] == '+' {
                s@.drop_first()
            } else {
                s@
            },
            value == digits_value(digits.take(i - from)),
        decreases x@.len() - i,
    {
        let c = x[i];
        proof {
            assert(digits[i - from] == c);
            assert(digits.take(i - from + 1).drop_last() == digits.take(i - from));
            assert(digits.take(i - from + 1).last() == c);
            digits_grow(digits, i - from + 1);
        }
        let d: u64 = (c as u32 - '0' as u32) as u64;
        if value > 1844674407370955161 || (value == 1844674407370955161 && d > 5) {
            return None;
        }
        value = value * 10 + d;
        i = i + 1;
    }
    assert(digits.take(digits.len() as int) == digits);
    Some(value)
}

/// Whether all characters of a text are blanks.
pub open spec fn all_white(s: Seq<char>) -> bool {
    forall|i: int| 0 <= i < s.len() ==> white(#[trigger] s[i])
}

/// What is cut from the start is blank, and what is left does not begin with a
/// blank.
proof fn start_is_cut(s: Seq<char>) -> (a: int)
    ensures
        0 <= a <= s.len(),
        trimmed_start(s) == s.skip(a),
        all_white(s.take(a)),
        a < s.len() ==> !white(s[a]),
    decreases s.len(),
{
    if s.len() > 0 && white(s[0]) {
        let rest = s.drop_first();
        let b = start_is_cut(rest);
        assert(rest.skip(b) =~= s.skip(b + 1));
        assert forall|i: int| 0 <= i < b + 1 implies white(#[trigger] s.take(b + 1)[i]) by {
            if i > 0 {
                assert(rest.take(b)[i - 1] == s[i]);
            }
        }
        if b < rest.len() {
            assert(rest[b] == s[b + 1]);
        }
        b + 1
    } else {
        assert(s.skip(0) =~= s);
        0
    }
}

/// What is cut from the end is blank, and what is left does not end with a
/// blank.
proof fn end_is_cut(s: Seq<char>) -> (b: int)
    ensures
        0 <= b <= s.len(),
        trimmed_end(s) == s.take(b),
        all_white(s.skip(b)),
        b > 0 ==> !white(s[b - 1]),
    decreases s.len(),
{
    if s.len() > 0 && white(s.last()) {
        let rest = s.drop_last();
        let b = end_is_cut(rest);
        assert(rest.take(b) =~= s.take(b));
        assert forall|i: int| 0 <= i < s.len() - b implies white(#[trigger] s.skip(b)[i]) by {
            if i < rest.len() - b {
                assert(rest.skip(b)[i] == s[b + i]);
            }
        }
        b
    } else {
        assert(s.take(s.len() as int) =~= s);
        s.len() as int
    }
}

/// Trimming takes the blanks at both ends and nothing else: what is left is a
/// part of the text between blanks that neither begins nor ends with one.
pub proof fn trimming_takes_only_blanks(s: Seq<char>) -> (r: (int, int))
    ensures
        0 <= r.0 <= r.1 <= s.len(),
        trimmed(s) == s.subrange(r.0, r.1),
        all_white(s.take(r.0)),
        all_white(s.skip(r.1)),
        trimmed(s).len() > 0 ==> !white(trimmed(s)[0]) && !white(trimmed(s).last()),
{
    let a = start_is_cut(s);
    let t = s.skip(a);
    let n = end_is_cut(t);
    assert(t.take(n) =~= s.subrange(a, a + n));
    if n > 0 {
        assert(t[0] == s[a]);
    }
    assert forall|i: int| 0 <= i < s.len() - (a + n) implies white(#[trigger] s.skip(a + n)[i]) by {
        assert(t.skip(n)[i] == s[a + n + i]);
    }
    (a, a + n)
}

/// A text is blank exactly where all its characters are.
pub proof fn blank_texts_hold_only_blanks(s: Seq<char>)
    ensures
        blank(s) <==> all_white(s),
{
    let (a, b) = trimming_takes_only_blanks(s);
    if blank(s) {
        assert(a == b);
        assert forall|i: int| 0 <= i < s.len() implies white(#[trigger] s[i]) by {
            if i < a {
                assert(s.take(a)[i] == s[i]);
            } else {
                assert(s.skip(b)[i - b] == s[i]);
            }
        }
    } else if all_white(s) {
        assert(trimmed(s)[0] == s[a]);
    }
}

/// A text without blanks at its ends is left as it is.
pub proof fn trimmed_text_is_left(s: Seq<char>)
    requires
        s.len() == 0 || !white(s[0]) && !white(s.last()),
    ensures
        trimmed(s) == s,
{
}

/// Blanks are what the standard calls so: among them the space, the tabulator
/// and the ends of lines, and no character that is seen.
pub proof fn blanks_are_known(c: char)
    ensures
        c == ' ' || c == '\t' || c == '\n' || c == '\r' || c == '\u{3000}' ==> white(c),
        '!' <= c <= '~' ==> !white(c),
{
}

/// A text in which the part stands nowhere is left as it is.
pub proof fn replacing_nothing_changes_nothing(s: Seq<char>, part: Seq<char>, with: Seq<char>)
    requires
        !has_part(s, part),
    ensures
        replaced(s, part, with) == s,
    decreases s.len(),
{
    if part.len() > 0 && s.len() > 0 {
        if begins(s, part) {
            assert(stands_at(s, part, 0)) by {
                assert(s.subrange(0, part.len() as int) =~= s.take(part.len() as int));
            }
        } else {
            assert forall|i: int| !stands_at(s.drop_first(), part, i) by {
                if stands_at(s.drop_first(), part, i) {
                    assert(s.drop_first().subrange(i, i + part.len()) =~= s.subrange(
                        i + 1,
                        i + 1 + part.len(),
                    ));
                    assert(stands_at(s, part, i + 1));
                }
            }
            replacing_nothing_changes_nothing(s.drop_first(), part, with);
            assert(seq![s[0]] + s.drop_first() =~= s);
        }
    }
}

/// The first part of a text that is replaced gives way to what it is replaced
/// with; what stands before it is kept, and so is it done with what follows.
pub proof fn replacing_goes_from_part_to_part(
    before: Seq<char>,
    part: Seq<char>,
    after: Seq<char>,
    with: Seq<char>,
)
    requires
        part.len() > 0,
        forall|i: int| 0 <= i < before.len() ==> !stands_at(before + part + after, part, i),
    ensures
        replaced(before + part + after, part, with) == before + with + replaced(after, part, with),
    decreases before.len(),
{
    let s = before + part + after;
    if before.len() == 0 {
        assert(s.take(part.len() as int) =~= part);
        assert(s.skip(part.len() as int) =~= after);
        assert(before + with + replaced(after, part, with) =~= with + replaced(after, part, with));
    } else {
        if begins(s, part) {
            assert(s.subrange(0, part.len() as int) =~= s.take(part.len() as int));
            assert(stands_at(s, part, 0));
        }
        let rest = before.drop_first();
        assert(s.drop_first() =~= rest + part + after);
        assert forall|i: int| 0 <= i < rest.len() implies !stands_at(rest + part + after, part, i) by {
            if stands_at(rest + part + after, part, i) {
                assert(s.drop_first().subrange(i, i + part.len()) =~= s.subrange(
                    i + 1,
                    i + 1 + part.len(),
                ));
                assert(stands_at(s, part, i + 1));
            }
        }
        replacing_goes_from_part_to_part(rest, part, after, with);
        assert(seq![s[0]] + (rest + with + replaced(after, part, with)) =~= before + with
            + replaced(after, part, with));
    }
}

/// The pieces of a text, joined by what they were split at, are the text.
pub proof fn split_text_is_joined_again(s: Seq<char>, sep: char)
    ensures
        joined(pieces(s, sep), seq![sep]) == s,
        pieces(s, sep).len() > 0,
        forall|i: int| 0 <= i < pieces(s, sep).len() ==> !(#[trigger] pieces(s, sep)[i]).contains(sep),
    decreases s.len(),
{
    if s.len() > 0 {
        let short = s.drop_last();
        split_text_is_joined_again(short, sep);
        let before = pieces(short, sep);
        if s.last() == sep {
            let after = before.push(Seq::<char>::empty());
            assert(after.drop_last() =~= before);
            assert(joined(before, seq![sep]) + seq![sep] + Seq::<char>::empty() =~= s);
            assert(pieces(s, sep) == after);
        } else {
            let n = before.len() - 1;
            let tail = before.last().push(s.last());
            let after = before.update(n, tail);
            assert(after.drop_last() =~= before.drop_last());
            assert forall|i: int| 0 <= i < after.len() implies !(#[trigger] after[i]).contains(
                sep,
            ) by {
                if i == n {
                    assert forall|k: int| 0 <= k < tail.len() implies tail[k] != sep by {
                        if k < tail.len() - 1 {
                            assert(before[n][k] == tail[k]);
                            assert(!before[n].contains(sep));
                        }
                    }
                } else {
                    assert(after[i] == before[i]);
                }
            }
            if before.len() == 1 {
                assert(after[0] == tail);
                assert(tail =~= s);
            } else {
                assert(joined(before.drop_last(), seq![sep]) + seq![sep] + tail =~= (joined(
                    before.drop_last(),
                    seq![sep],
                ) + seq![sep] + before.last()).push(s.last()));
                assert(short.push(s.last()) =~= s);
            }
        }
    } else {
        assert(pieces(s, sep)[0] =~= s);
    }
}

/// Of parts, those that are not blank are kept, trimmed and in their order: what
/// is kept of two lists is what is kept of the one and then of the other, and of
/// one part it is that part, trimmed, unless it is blank.
pub proof fn filled_parts_are_kept(a: Seq<Seq<char>>, b: Seq<Seq<char>>, part: Seq<char>)
    ensures
        filled(a + b) == filled(a) + filled(b),
        filled(seq![part]) == if all_white(part) {
            Seq::empty()
        } else {
            seq![trimmed(part)]
        },
    decreases b.len(),
{
    blank_texts_hold_only_blanks(part);
    assert(seq![part].drop_last() =~= Seq::<Seq<char>>::empty());
    assert(filled(seq![part].drop_last()) =~= Seq::<Seq<char>>::empty());
    assert(Seq::<Seq<char>>::empty().push(trimmed(part)) =~= seq![trimmed(part)]);
    if b.len() == 0 {
        assert(a + b =~= a);
        assert(filled(a) + filled(b) =~= filled(a));
    } else {
        filled_parts_are_kept(a, b.drop_last(), part);
        assert((a + b).drop_last() =~= a + b.drop_last());
        assert((a + b).last() == b.last());
        assert((filled(a) + filled(b.drop_last())).push(trimmed(b.last())) =~= filled(a) + filled(
            b.drop_last(),
        ).push(trimmed(b.last())));
    }
}

/// A text is cut at its end alone, and only where it is too long.
pub proof fn cutting_keeps_the_start(s: Seq<char>, n: nat)
    ensures
        clipped(s, n).is_prefix_of(s),
        clipped(s, n).len() == if s.len() <= n {
            s.len()
        } else {
            n
        },
{
}

/// A number in digits is read as the number, and has no zero before its first
/// digit.
pub proof fn number_in_digits_is_read_back(n: nat)
    ensures
        all_digits(decimal_text(n)),
        digits_value(decimal_text(n)) == n,
        n > 0 ==> decimal_text(n)[0] != '0',
        n <= u64::MAX ==> number(decimal_text(n)) == Some(n as u64),
    decreases n,
{
    if n >= 10 {
        number_in_digits_is_read_back(n / 10);
        let before = decimal_text(n / 10);
        let all = decimal_text(n);
        assert(all.drop_last() =~= before);
        assert(all.last() as int == 48 + n % 10);
        assert(all[0] == before[0]);
        assert forall|i: int| 0 <= i < all.len() implies '0' <= #[trigger] all[i] <= '9' by {
            if i < before.len() {
                assert(all[i] == before[i]);
            }
        }
    } else {
        let all = decimal_text(n);
        assert(all.drop_last() =~= Seq::<char>::empty());
        assert(all[0] as int == 48 + n);
        assert(digits_value(all.drop_last()) == 0);
    }
    assert(decimal_text(n)[0] != '+');
}

/// A number with a sign is the digits of its amount, behind a minus exactly
/// where it is negative.
pub proof fn sign_stands_before_the_digits(n: int)
    ensures
        n >= 0 ==> signed_text(n).len() > 0 && signed_text(n)[0] != '-' && digits_value(
            signed_text(n),
        ) == n,
        n < 0 ==> signed_text(n).len() > 1 && signed_text(n)[0] == '-' && digits_value(
            signed_text(n).drop_first(),
        ) == -n,
{
    let amount: nat = if n < 0 {
        (-n) as nat
    } else {
        n as nat
    };
    number_in_digits_is_read_back(amount);
    assert((seq!['-'] + decimal_text(amount)).drop_first() =~= decimal_text(amount));
}

/// What sixteen digits of a base of sixteen tell.
pub open spec fn hex_value(s: Seq<char>) -> nat
    decreases s.len(),
{
    if s.len() == 0 {
        0
    } else {
        hex_value(s.drop_last()) * 16 + (if '0' <= s.last() <= '9' {
            (s.last() as int - '0' as int) as nat
        } else {
            (s.last() as int - 'a' as int + 10) as nat
        })
    }
}

/// So many sixteens multiplied.
pub open spec fn sixteen_to(k: nat) -> nat
    decreases k,
{
    if k == 0 {
        1
    } else {
        16 * sixteen_to((k - 1) as nat)
    }
}

/// A number in digits of a base of sixteen is read as the number where the
/// digits are enough, and its digits are small letters or figures.
pub proof fn hex_is_read_back(n: nat, len: nat)
    requires
        n < sixteen_to(len),
    ensures
        hex_text(n, len).len() == len,
        hex_value(hex_text(n, len)) == n,
        forall|i: int|
            0 <= i < len ==> '0' <= #[trigger] hex_text(n, len)[i] <= '9' || 'a' <= hex_text(
                n,
                len,
            )[i] <= 'f',
    decreases len,
{
    hex_text_len(n, len);
    if len > 0 {
        let k = (len - 1) as nat;
        assert(n / 16 < sixteen_to(k));
        hex_is_read_back(n / 16, k);
        let before = hex_text(n / 16, k);
        let all = hex_text(n, len);
        assert(all.drop_last() =~= before);
        let d = n % 16;
        assert(all.last() as int == if d < 10 {
            48 + d
        } else {
            87 + d
        });
        assert forall|i: int| 0 <= i < len implies '0' <= #[trigger] all[i] <= '9' || 'a' <= all[i]
            <= 'f' by {
            if i < k {
                assert(all[i] == before[i]);
            }
        }
    }
}

/// Letters of the alphabet differ from their capitals alone: a capital is made
/// small, and every other character is left.
pub proof fn only_capitals_are_made_small(c: char)
    ensures
        'A' <= c <= 'Z' ==> 'a' <= ascii_low(c) <= 'z' && ascii_low(c) as int == c as int + ('a' as int
            - 'A' as int),
        !('A' <= c <= 'Z') ==> ascii_low(c) == c,
        ascii_low(ascii_low(c)) == ascii_low(c),
{
}

/// Whether a text is a word: there is something in it, and no blank.
pub open spec fn is_word(s: Seq<char>) -> bool {
    s.len() > 0 && forall|i: int| 0 <= i < s.len() ==> !white(#[trigger] s[i])
}

/// The words of a text are words, and the last stands at its end unless the text
/// ends with a blank.
proof fn words_end_with_the_text(s: Seq<char>)
    ensures
        forall|i: int| 0 <= i < words(s).len() ==> is_word(#[trigger] words(s)[i]),
        s.len() > 0 && !white(s.last()) ==> words(s).len() > 0,
    decreases s.len(),
{
    if s.len() > 0 {
        words_end_with_the_text(s.drop_last());
        let before = words(s.drop_last());
        if !white(s.last()) {
            if s.len() > 1 && !white(s[s.len() - 2]) && before.len() > 0 {
                let tail = before.last().push(s.last());
                assert(is_word(before.last()));
                assert(is_word(tail));
            } else {
                assert(is_word(seq![s.last()]));
            }
        }
    }
}

/// The words of a text behind which a blank and one word more stand.
proof fn word_is_appended(s: Seq<char>, blanks: Seq<char>, w: Seq<char>)
    requires
        all_white(blanks),
        blanks.len() > 0 || s.len() == 0,
        is_word(w),
    ensures
        words(s + blanks + w) == words(s).push(w),
    decreases blanks.len() + w.len(),
{
    let all = s + blanks + w;
    if w.len() == 1 {
        blanks_are_passed(s, blanks);
        assert(all.drop_last() =~= s + blanks);
        assert(all.last() == w[0]);
        if all.len() > 1 {
            assert(blanks.len() > 0);
            assert(all[all.len() - 2] == blanks[blanks.len() - 1]);
        }
        assert(seq![w[0]] =~= w);
    } else {
        let short = w.drop_last();
        assert(is_word(short)) by {
            assert forall|i: int| 0 <= i < short.len() implies !white(#[trigger] short[i]) by {
                assert(short[i] == w[i]);
            }
        }
        word_is_appended(s, blanks, short);
        assert(all.drop_last() =~= s + blanks + short);
        assert(all[all.len() - 2] == w[w.len() - 2]);
        let before = words(s).push(short);
        assert(before.update(before.len() - 1, before.last().push(all.last())) =~= words(s).push(w))
            by {
            assert(short.push(w.last()) =~= w);
        }
    }
}

/// Blanks at the end add no word.
proof fn blanks_are_passed(s: Seq<char>, blanks: Seq<char>)
    requires
        all_white(blanks),
    ensures
        words(s + blanks) == words(s),
    decreases blanks.len(),
{
    if blanks.len() > 0 {
        let fewer = blanks.drop_last();
        assert forall|i: int| 0 <= i < fewer.len() implies white(#[trigger] fewer[i]) by {
            assert(fewer[i] == blanks[i]);
        }
        blanks_are_passed(s, fewer);
        assert((s + blanks).drop_last() =~= s + fewer);
        assert(white(blanks[blanks.len() - 1]));
    } else {
        assert(s + blanks =~= s);
    }
}

/// The words of a text are parts of it without a blank. Words that stand in a
/// text with one space between them are found again, in their order.
pub proof fn words_are_found_again(s: Seq<char>, ws: Seq<Seq<char>>)
    ensures
        forall|i: int| 0 <= i < words(s).len() ==> is_word(#[trigger] words(s)[i]),
        (forall|i: int| 0 <= i < ws.len() ==> is_word(#[trigger] ws[i])) ==> words(
            joined(ws, seq![' ']),
        ) == ws,
    decreases ws.len(),
{
    words_end_with_the_text(s);
    if forall|i: int| 0 <= i < ws.len() ==> is_word(#[trigger] ws[i]) {
        if ws.len() == 0 {
            assert(words(joined(ws, seq![' '])) =~= ws);
        } else {
            let before = ws.drop_last();
            assert forall|i: int| 0 <= i < before.len() implies is_word(#[trigger] before[i]) by {
                assert(before[i] == ws[i]);
            }
            words_are_found_again(s, before);
            assert(is_word(ws[ws.len() - 1]));
            if ws.len() == 1 {
                let nothing = Seq::<char>::empty();
                word_is_appended(nothing, nothing, ws[0]);
                assert(nothing + nothing + ws[0] =~= ws[0]);
                assert(words(nothing).push(ws[0]) =~= ws);
            } else {
                assert(all_white(seq![' ']));
                word_is_appended(joined(before, seq![' ']), seq![' '], ws.last());
                assert(before.push(ws.last()) =~= ws);
            }
        }
    }
}

} // verus!
