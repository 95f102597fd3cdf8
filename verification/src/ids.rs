//! Fresh identifiers.
use vstd::prelude::*;

use crate::text::chars_of;

verus! {

/// Whether a character is a lowercase hexadecimal digit.
pub open spec fn is_hex(c: char) -> bool {
    '0' <= c <= '9' || 'a' <= c <= 'f'
}

/// Where the hyphens of an identifier stand.
pub open spec fn hyphen_place(i: int) -> bool {
    i == 8 || i == 13 || i == 18 || i == 23
}

/// Whether a text has the shape of a hyphenated random identifier: thirty-six
/// characters, hyphens in four fixed places, lowercase hexadecimal digits
/// elsewhere, among them the digits that say that it is random.
pub open spec fn hyphenated(s: Seq<char>) -> bool {
    &&& s.len() == 36
    &&& forall|i: int|
        0 <= i < 36 ==> if hyphen_place(i) {
            s[i] == '-'
        } else {
            is_hex(#[trigger] s[i])
        }
    &&& s[14] == '4'
    &&& s[19] == '8' || s[19] == '9' || s[19] == 'a' || s[19] == 'b'
}

/// `uuid::Uuid::new_v4` and its `Display`: a random identifier in lowercase
/// hyphenated form. Which identifier comes is left to chance.
#[verifier::external_body]
pub(crate) fn fresh_uuid() -> (r: String)
    ensures
        hyphenated(r@),
{
    uuid::Uuid::new_v4().to_string()
}

/// A text without its hyphens.
pub open spec fn unhyphenated(s: Seq<char>) -> Seq<char>
    decreases s.len(),
{
    if s.len() == 0 {
        s
    } else if s.last() == '-' {
        unhyphenated(s.drop_last())
    } else {
        unhyphenated(s.drop_last()).push(s.last())
    }
}

/// Removes the hyphens of a text.
pub fn without_hyphens(s: &str) -> (r: String)
    ensures
        r@ == unhyphenated(s@),
{
    let x = chars_of(s);
    let mut out = String::new();
    let mut i: usize = 0;
    while i < x.len()
        invariant
            x@ == s@,
            i <= x@.len(),
            out@ == unhyphenated(s@.take(i as int)),
        decreases x@.len() - i,
    {
        proof {
            let now = s@.take(i + 1);
            assert(now.drop_last() == s@.take(i as int));
            assert(now.last() == x@[i as int]);
        }
        if x[i] != '-' {
            out.push(x[i]);
        }
        i = i + 1;
    }
    assert(s@.take(s@.len() as int) == s@);
    out
}

/// A fresh identifier without hyphens.
pub fn fresh_simple() -> (r: String)
    ensures
        exists|u: Seq<char>| #[trigger] hyphenated(u) && r@ == unhyphenated(u),
{
    let u = fresh_uuid();
    let r = without_hyphens(u.as_str());
    assert(hyphenated(u@) && r@ == unhyphenated(u@));
    r
}

/// Taking the hyphens out leaves everything else, in its order.
pub proof fn only_hyphens_are_taken_out(a: Seq<char>, b: Seq<char>, c: char)
    ensures
        unhyphenated(a + b) == unhyphenated(a) + unhyphenated(b),
        c != '-' ==> unhyphenated(seq![c]) == seq![c],
        unhyphenated(seq!['-']) == Seq::<char>::empty(),
    decreases b.len(),
{
    assert(seq![c].drop_last() =~= Seq::<char>::empty());
    assert(seq!['-'].drop_last() =~= Seq::<char>::empty());
    assert(unhyphenated(Seq::<char>::empty()) =~= Seq::<char>::empty());
    if c != '-' {
        assert(unhyphenated(seq![c]) =~= seq![c]);
    }
    if b.len() == 0 {
        assert(a + b =~= a);
        assert(unhyphenated(a) + unhyphenated(b) =~= unhyphenated(a));
    } else {
        assert((a + b).last() == b.last());
        assert((a + b).drop_last() =~= a + b.drop_last());
        only_hyphens_are_taken_out(a, b.drop_last(), c);
        assert(unhyphenated(a + b) =~= unhyphenated(a) + unhyphenated(b));
    }
}

} // verus!
