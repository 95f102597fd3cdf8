//! What the accessibility adapters share: redaction of public names, words
//! that raise the risk of an action, search tokens and the order of offers.
use vstd::prelude::*;
use vstd::string::*;

use crate::text;
use crate::text::{chars_of, contains_text, lowercase, owned, span, take_chars};
use crate::types::{
    Argument, ArgumentModel, CandidateKind, KindModel, NativeAction, Predicate, PredicateModel,
    RiskClass,
};
use crate::model;

verus! {

/// How many characters of a name are shown.
pub const NAME_LIMIT: usize = 80;

/// Whether a character is an ASCII digit.
pub open spec fn is_digit(c: char) -> bool {
    '0' <= c <= '9'
}

/// Whether `n` digits stand in a row at a position.
pub open spec fn digits_at(s: Seq<char>, i: int, n: int) -> bool {
    0 <= i && i + n <= s.len() && forall|k: int| i <= k < i + n ==> is_digit(#[trigger] s[k])
}

/// Whether eight digits stand in a row somewhere.
pub open spec fn long_number(s: Seq<char>) -> bool {
    exists|i: int| digits_at(s, i, 8)
}

/// Whether one of the words stands in a text.
pub open spec fn mentions(s: Seq<char>, words: Seq<Seq<char>>) -> bool {
    exists|i: int| 0 <= i < words.len() && text::has_part(s, #[trigger] words[i])
}

/// The texts of a list of literals.
pub open spec fn literals(v: Seq<&'static str>) -> Seq<Seq<char>> {
    Seq::new(v.len(), |i: int| v[i]@)
}

/// Whether one of the words stands in a text.
pub fn mentions_any(s: &str, words: &Vec<&'static str>) -> (r: bool)
    ensures
        r == mentions(s@, literals(words@)),
{
    let ghost w = literals(words@);
    let mut i: usize = 0;
    while i < words.len()
        invariant
            i <= words@.len(),
            w == literals(words@),
            forall|k: int| 0 <= k < i ==> !text::has_part(s@, #[trigger] w[k]),
        decreases words@.len() - i,
    {
        if contains_text(s, words[i]) {
            assert(text::has_part(s@, w[i as int]));
            return true;
        }
        i = i + 1;
    }
    false
}

/// Whether eight digits stand in a row somewhere.
pub fn has_long_number(s: &str) -> (r: bool)
    ensures
        r == long_number(s@),
{
    let x = chars_of(s);
    let mut run: usize = 0;
    let mut i: usize = 0;
    while i < x.len()
        invariant
            x@ == s@,
            i <= x@.len(),
            run <= i,
            run < 8,
            digits_at(s@, i - run, run as int),
            i - run == 0 || !is_digit(s@[i - run - 1]),
            forall|k: int| #![trigger digits_at(s@, k, 8)] k + 8 <= i ==> !digits_at(s@, k, 8),
        decreases x@.len() - i,
    {
        let c = x[i];
        if '0' <= c && c <= '9' {
            run = run + 1;
            if run == 8 {
                assert(digits_at(s@, i - 7, 8));
                return true;
            }
            proof {
                assert forall|k: int| #![trigger digits_at(s@, k, 8)] k + 8 <= i + 1 implies !digits_at(
                    s@,
                    k,
                    8,
                ) by {
                    if digits_at(s@, k, 8) && k + 8 == i + 1 {
                        assert(is_digit(s@[i + 1 - run - 1]));
                    }
                }
            }
        } else {
            run = 0;
            proof {
                assert forall|k: int| #![trigger digits_at(s@, k, 8)] k + 8 <= i + 1 implies !digits_at(
                    s@,
                    k,
                    8,
                ) by {
                    if digits_at(s@, k, 8) && k + 8 == i + 1 {
                        assert(is_digit(s@[i as int]));
                    }
                }
            }
        }
        i = i + 1;
    }
    false
}

/// Words that mark a name as a secret.
pub open spec fn secret_words() -> Seq<Seq<char>> {
    seq!["apikey_"@, "api_key"@, "bearer "@, "password"@, "密码"@]
}

/// Whether a name may hold a secret: an address sign, a long number, or a word
/// that marks one.
pub open spec fn sensitive(s: Seq<char>) -> bool {
    ||| text::has_part(s, "@"@)
    ||| long_number(s)
    ||| mentions(text::lowercased(s), secret_words())
}

/// A name as it is shown.
pub open spec fn redacted(s: Seq<char>) -> Seq<char> {
    if sensitive(s) {
        "redacted control"@
    } else {
        text::clipped(s, NAME_LIMIT as nat)
    }
}

/// A name as it is shown: nothing of it where it may hold a secret, its first
/// characters otherwise.
pub fn redact(value: &str) -> (r: String)
    ensures
        r@ == redacted(value@),
{
    let words: Vec<&'static str> = vec!["apikey_", "api_key", "bearer ", "password", "密码"];
    assert(literals(words@) =~= secret_words());
    let lower = lowercase(value);
    if contains_text(value, "@") || has_long_number(value) || mentions_any(lower.as_str(), &words) {
        owned("redacted control")
    } else {
        take_chars(value, NAME_LIMIT)
    }
}

/// Nothing of a name that may hold a secret is shown, and no shown name is
/// longer than the limit.
pub proof fn redaction_hides_and_bounds(s: Seq<char>)
    ensures
        sensitive(s) ==> redacted(s) == "redacted control"@,
        redacted(s).len() <= NAME_LIMIT,
{
    reveal_strlit("redacted control");
}

/// Whether a character is a letter or a digit in any script, as
/// `char::is_alphanumeric` says.
pub uninterp spec fn alphanumeric(c: char) -> bool;

/// `char::is_alphanumeric`: Unicode's letters and numbers, a function of the
/// character alone.
#[verifier::external_body]
fn is_alphanumeric(c: char) -> (r: bool)
    ensures
        r == alphanumeric(c),
{
    c.is_alphanumeric()
}

/// How many characters at the end of a text are letters or digits.
pub open spec fn tail_run(s: Seq<char>) -> nat
    decreases s.len(),
{
    if s.len() == 0 || !alphanumeric(s.last()) {
        0
    } else {
        tail_run(s.drop_last()) + 1
    }
}

/// The runs of letters and digits in a text that are at least two long, in
/// their order.
pub open spec fn tokens(s: Seq<char>) -> Seq<Seq<char>>
    decreases s.len(),
{
    if s.len() == 0 {
        Seq::empty()
    } else if alphanumeric(s.last()) {
        let run = tail_run(s);
        proof {
            tail_run_fits(s);
        }
        let before = tokens(s.take(s.len() - run));
        if run >= 2 {
            before.push(s.skip(s.len() - run))
        } else {
            before
        }
    } else {
        tokens(s.drop_last())
    }
}

/// A run is no longer than its text.
pub proof fn tail_run_fits(s: Seq<char>)
    ensures
        tail_run(s) <= s.len(),
    decreases s.len(),
{
    if s.len() > 0 && alphanumeric(s.last()) {
        tail_run_fits(s.drop_last());
    }
}

/// The search tokens of a text.
pub fn tokens_of(s: &str) -> (r: Vec<String>)
    ensures
        model::seq_view(r@) == tokens(s@),
{
    let x = chars_of(s);
    let n: usize = x.len();
    let mut out: Vec<String> = Vec::new();
    let mut start: usize = 0;
    let mut i: usize = 0;
    assert(model::seq_view(out@) == tokens(s@.take(0)));
    while i < n
        invariant
            x@ == s@,
            n == x@.len(),
            start <= i <= n,
            tail_run(s@.take(i as int)) == i - start,
            start == 0 || !alphanumeric(s@[start - 1]),
            model::seq_view(out@) == tokens(s@.take(start as int)),
        decreases n - i,
    {
        let ghost now = s@.take(i + 1);
        proof {
            assert(now.drop_last() == s@.take(i as int));
            assert(now.last() == s@[i as int]);
        }
        if is_alphanumeric(x[i]) {
            i = i + 1;
        } else {
            proof {
                flush_token(s@, start as int, i as int);
            }
            if i - start >= 2 {
                let ghost before = out@;
                let token = span(&x, start, i);
                out.push(token);
                assert(model::seq_view(out@) == model::seq_view(before).push(token@));
            }
            i = i + 1;
            start = i;
        }
    }
    proof {
        flush_token(s@, start as int, n as int);
        assert(s@.take(n as int) == s@);
    }
    if n - start >= 2 {
        let ghost before = out@;
        let token = span(&x, start, n);
        out.push(token);
        assert(model::seq_view(out@) == model::seq_view(before).push(token@));
    }
    out
}

/// The tokens of a text that ends with a run: those before it, and the run
/// where it is long enough.
proof fn flush_token(s: Seq<char>, start: int, i: int)
    requires
        0 <= start <= i <= s.len(),
        tail_run(s.take(i)) == i - start,
        start == 0 || !alphanumeric(s[start - 1]),
    ensures
        tokens(s.take(i)) == if i - start >= 2 {
            tokens(s.take(start)).push(s.subrange(start, i))
        } else {
            tokens(s.take(start))
        },
{
    let t = s.take(i);
    if i > start {
        assert(alphanumeric(t.last()));
        assert(t.take(t.len() - (i - start)) == s.take(start));
        assert(t.skip(t.len() - (i - start)) == s.subrange(start, i));
    }
}

/// What choosing an action means; scrolling is not offered.
pub open spec fn kind_model(action: NativeAction) -> Option<KindModel> {
    match action {
        NativeAction::Invoke => Some(KindModel::Invoke),
        NativeAction::Toggle => Some(KindModel::Toggle),
        NativeAction::Select => Some(KindModel::Select),
        NativeAction::Expand => Some(KindModel::Expand),
        NativeAction::Collapse => Some(KindModel::Collapse),
        NativeAction::Focus => Some(KindModel::Focus),
        NativeAction::SetValue => Some(KindModel::SetValue("value"@)),
        NativeAction::Scroll => None,
    }
}

/// What choosing an action means, where it is offered at all.
pub fn kind_of(action: NativeAction) -> (r: Option<CandidateKind>)
    ensures
        model::opt_view(r) == kind_model(action),
{
    match action {
        NativeAction::Invoke => Some(CandidateKind::Invoke),
        NativeAction::Toggle => Some(CandidateKind::Toggle),
        NativeAction::Select => Some(CandidateKind::Select),
        NativeAction::Expand => Some(CandidateKind::Expand),
        NativeAction::Collapse => Some(CandidateKind::Collapse),
        NativeAction::Focus => Some(CandidateKind::Focus),
        NativeAction::SetValue => Some(CandidateKind::SetValue { slot_id: owned("value") }),
        NativeAction::Scroll => None,
    }
}

/// A condition on one target.
pub open spec fn target_predicate(name: Seq<char>, target: Seq<char>) -> PredicateModel {
    PredicateModel { name, arguments: seq![ArgumentModel { key: "target"@, value: target }] }
}

/// A condition on one target.
pub fn predicate(name: &str, target: &str) -> (r: Predicate)
    ensures
        r@ == target_predicate(name@, target@),
{
    let argument = Argument { key: owned("target"), value: owned(target) };
    let r = Predicate { name: owned(name), arguments: vec![argument] };
    assert(r@.arguments =~= seq![argument@]);
    r
}

/// The name of the effect that an action is expected to have.
pub open spec fn effect_name(action: NativeAction) -> Option<Seq<char>> {
    match action {
        NativeAction::Invoke => Some("invoke_target_changed_or_disappeared"@),
        NativeAction::Toggle => Some("target_toggle_changed"@),
        NativeAction::Select => Some("target_selected"@),
        NativeAction::Expand => Some("target_expanded"@),
        NativeAction::Collapse => Some("target_collapsed"@),
        NativeAction::Focus => Some("target_focused"@),
        NativeAction::SetValue => Some("target_value_changed"@),
        NativeAction::Scroll => None,
    }
}

/// The effects that an action is expected to have on its target.
pub open spec fn effects_model(action: NativeAction, target: Seq<char>) -> Seq<PredicateModel> {
    match effect_name(action) {
        Some(name) => seq![target_predicate(name, target)],
        None => Seq::empty(),
    }
}

/// The effects that an action is expected to have on its target.
pub fn expected_effects(action: NativeAction, target: &str) -> (r: Vec<Predicate>)
    ensures
        model::seq_view(r@) == effects_model(action, target@),
{
    let name = match action {
        NativeAction::Invoke => "invoke_target_changed_or_disappeared",
        NativeAction::Toggle => "target_toggle_changed",
        NativeAction::Select => "target_selected",
        NativeAction::Expand => "target_expanded",
        NativeAction::Collapse => "target_collapsed",
        NativeAction::Focus => "target_focused",
        NativeAction::SetValue => "target_value_changed",
        NativeAction::Scroll => {
            let none: Vec<Predicate> = Vec::new();
            assert(model::seq_view(none@) =~= Seq::<PredicateModel>::empty());
            return none;
        },
    };
    let p = predicate(name, target);
    let r = vec![p];
    assert(model::seq_view(r@) =~= seq![p@]);
    r
}

/// Words of an action that goes out to others.
pub open spec fn commit_words() -> Seq<Seq<char>> {
    seq!["send"@, "发送"@, "publish"@, "发布"@, "submit"@, "提交"@]
}

/// Words of an action that writes.
pub open spec fn write_words() -> Seq<Seq<char>> {
    seq!["save"@, "保存"@, "apply"@, "应用"@]
}

/// How far an action reaches: text entry is a bounded write, anything but a
/// press is reversible, and a press is judged by the words of its name.
pub open spec fn risk_model(
    action: NativeAction,
    name: Option<Seq<char>>,
    critical: Seq<Seq<char>>,
) -> RiskClass {
    let lower = text::lowercased(
        match name {
            Some(s) => s,
            None => Seq::empty(),
        },
    );
    if action == NativeAction::SetValue {
        RiskClass::BoundedWrite
    } else if action != NativeAction::Invoke {
        RiskClass::Reversible
    } else if mentions(lower, critical) {
        RiskClass::DestructiveCritical
    } else if mentions(lower, commit_words()) {
        RiskClass::ExternalCommit
    } else if mentions(lower, write_words()) {
        RiskClass::BoundedWrite
    } else {
        RiskClass::Reversible
    }
}

/// How far an action reaches, given the words of critical actions.
pub fn risk_of(
    action: NativeAction,
    name: &Option<String>,
    critical: &Vec<&'static str>,
) -> (r: RiskClass)
    ensures
        r == risk_model(action, model::opt_view(*name), literals(critical@)),
{
    if action == NativeAction::SetValue {
        return RiskClass::BoundedWrite;
    }
    if action != NativeAction::Invoke {
        return RiskClass::Reversible;
    }
    let lower = match name {
        Some(s) => lowercase(s.as_str()),
        None => lowercase(String::new().as_str()),
    };
    let commit: Vec<&'static str> = vec!["send", "发送", "publish", "发布", "submit", "提交"];
    assert(literals(commit@) =~= commit_words());
    let write: Vec<&'static str> = vec!["save", "保存", "apply", "应用"];
    assert(literals(write@) =~= write_words());
    if mentions_any(lower.as_str(), critical) {
        RiskClass::DestructiveCritical
    } else if mentions_any(lower.as_str(), &commit) {
        RiskClass::ExternalCommit
    } else if mentions_any(lower.as_str(), &write) {
        RiskClass::BoundedWrite
    } else {
        RiskClass::Reversible
    }
}

/// Whether an order lists every position once, highest score first, and equal
/// scores in their given order.
pub open spec fn is_ranking(scores: Seq<i32>, order: Seq<usize>) -> bool {
    &&& order.len() == scores.len()
    &&& forall|i: int| 0 <= i < order.len() ==> #[trigger] order[i] < scores.len()
    &&& forall|i: int, j: int|
        0 <= i < j < order.len() ==> ranks_before(
            scores,
            #[trigger] order[i] as int,
            #[trigger] order[j] as int,
        )
}

/// Whether a position comes before another: by a higher score, or by standing
/// earlier with the same.
pub open spec fn ranks_before(scores: Seq<i32>, a: int, b: int) -> bool {
    scores[a] > scores[b] || (scores[a] == scores[b] && a < b)
}

/// Whether an order lists a position.
pub open spec fn ranked_at(order: Seq<usize>, p: int) -> bool {
    exists|k: int| 0 <= k < order.len() && #[trigger] order[k] == p
}

/// The positions of scores from the highest down, equal ones as they stand.
pub fn descending(scores: &Vec<i32>) -> (r: Vec<usize>)
    ensures
        is_ranking(scores@, r@),
{
    let mut out: Vec<usize> = Vec::new();
    let mut i: usize = 0;
    while i < scores.len()
        invariant
            i <= scores@.len(),
            out@.len() == i,
            forall|k: int| 0 <= k < i ==> #[trigger] out@[k] < i,
            forall|a: int, b: int|
                0 <= a < b < i ==> ranks_before(
                    scores@,
                    #[trigger] out@[a] as int,
                    #[trigger] out@[b] as int,
                ),
        decreases scores@.len() - i,
    {
        let mut at: usize = out.len();
        while at > 0 && scores[out[at - 1]] < scores[i]
            invariant
                i < scores@.len(),
                at <= out@.len() == i,
                forall|k: int| 0 <= k < i ==> #[trigger] out@[k] < i,
                forall|k: int| at <= k < i ==> scores@[#[trigger] out@[k] as int] < scores@[i as int],
            decreases at,
        {
            at = at - 1;
        }
        let ghost before = out@;
        out.insert(at, i);
        proof {
            assert forall|a: int, b: int| 0 <= a < b < i + 1 implies ranks_before(
                scores@,
                #[trigger] out@[a] as int,
                #[trigger] out@[b] as int,
            ) by {
                let oa = if a < at {
                    a
                } else {
                    a - 1
                };
                let ob = if b < at {
                    b
                } else {
                    b - 1
                };
                if a != at {
                    assert(out@[a] == before[oa]);
                }
                if b != at {
                    assert(out@[b] == before[ob]);
                }
                if b == at && at > 0 && a < at - 1 {
                    assert(ranks_before(scores@, before[a] as int, before[at - 1] as int));
                }
            }
            assert forall|k: int| 0 <= k < i + 1 implies #[trigger] out@[k] < i + 1 by {
                if k < at {
                    assert(out@[k] == before[k]);
                } else if k > at {
                    assert(out@[k] == before[k - 1]);
                }
            }
        }
        i = i + 1;
    }
    out
}

/// There is only one such order.
pub proof fn ranking_is_unique(scores: Seq<i32>, a: Seq<usize>, b: Seq<usize>)
    requires
        is_ranking(scores, a),
        is_ranking(scores, b),
    ensures
        a == b,
{
    ranking_covers(scores, a);
    ranking_covers(scores, b);
    assert forall|n: int| 0 <= n <= a.len() implies a.take(n) == b.take(n) by {
        same_start(scores, a, b, n);
    }
    assert(a.take(a.len() as int) == a);
    assert(b.take(b.len() as int) == b);
}

/// The two orders agree on their first `n` positions.
proof fn same_start(scores: Seq<i32>, a: Seq<usize>, b: Seq<usize>, n: int)
    requires
        is_ranking(scores, a),
        is_ranking(scores, b),
        0 <= n <= a.len(),
        forall|p: int| 0 <= p < scores.len() ==> #[trigger] ranked_at(a, p),
        forall|p: int| 0 <= p < scores.len() ==> #[trigger] ranked_at(b, p),
    ensures
        a.take(n) == b.take(n),
    decreases n,
{
    if n > 0 {
        same_start(scores, a, b, n - 1);
        let x = a[n - 1] as int;
        let y = b[n - 1] as int;
        assert(ranked_at(b, x) && ranked_at(a, y));
        let kx = choose|k: int| 0 <= k < b.len() && #[trigger] b[k] == x;
        let ky = choose|k: int| 0 <= k < a.len() && #[trigger] a[k] == y;
        if kx < n - 1 {
            assert(b.take(n - 1)[kx] == a.take(n - 1)[kx]);
            assert(ranks_before(scores, a[kx] as int, a[n - 1] as int));
        }
        if ky < n - 1 {
            assert(a.take(n - 1)[ky] == b.take(n - 1)[ky]);
            assert(ranks_before(scores, b[ky] as int, b[n - 1] as int));
        }
        if kx > n - 1 && ky > n - 1 {
            assert(ranks_before(scores, b[n - 1] as int, b[kx] as int));
            assert(ranks_before(scores, a[n - 1] as int, a[ky] as int));
        }
        assert(x == y);
        assert(a.take(n) == a.take(n - 1).push(a[n - 1]));
        assert(b.take(n) == b.take(n - 1).push(b[n - 1]));
    }
}

/// An order lists every position: as many distinct positions as there are.
pub proof fn ranking_covers(scores: Seq<i32>, order: Seq<usize>)
    requires
        is_ranking(scores, order),
    ensures
        order.no_duplicates(),
        forall|p: int| 0 <= p < scores.len() ==> #[trigger] ranked_at(order, p),
{
    assert forall|i: int, j: int| 0 <= i < order.len() && 0 <= j < order.len() && i
        != j implies order[i] != order[j] by {
        if i < j {
            assert(ranks_before(scores, order[i] as int, order[j] as int));
        } else {
            assert(ranks_before(scores, order[j] as int, order[i] as int));
        }
    }
    let n = scores.len();
    let places = order.map_values(|x: usize| x as int);
    assert(places.no_duplicates());
    places.unique_seq_to_set();
    let full = vstd::set_lib::set_int_range(0, n as int);
    vstd::set_lib::lemma_int_range(0, n as int);
    assert(places.to_set().subset_of(full)) by {
        assert forall|p: int| places.to_set().contains(p) implies full.contains(p) by {
            let k = choose|k: int| 0 <= k < places.len() && places[k] == p;
            assert(order[k] < scores.len());
        }
    }
    vstd::set_lib::lemma_subset_equality(places.to_set(), full);
    assert forall|p: int| 0 <= p < n implies #[trigger] ranked_at(order, p) by {
        assert(full.contains(p));
        assert(places.to_set().contains(p));
        let k = choose|k: int| 0 <= k < places.len() && places[k] == p;
        assert(order[k] == p);
    }
}

/// A run at the end of a text is made of letters and figures, and what stands
/// before it is none.
proof fn tail_run_is_right(s: Seq<char>)
    ensures
        tail_run(s) <= s.len(),
        forall|i: int| s.len() - tail_run(s) <= i < s.len() ==> alphanumeric(#[trigger] s[i]),
        tail_run(s) < s.len() ==> !alphanumeric(s[s.len() - tail_run(s) - 1]),
    decreases s.len(),
{
    if s.len() > 0 && alphanumeric(s.last()) {
        let short = s.drop_last();
        tail_run_is_right(short);
        assert forall|i: int| s.len() - tail_run(s) <= i < s.len() implies alphanumeric(
            #[trigger] s[i],
        ) by {
            if i < short.len() {
                assert(short[i] == s[i]);
            }
        }
        if tail_run(s) < s.len() {
            assert(short[short.len() - tail_run(short) - 1] == s[s.len() - tail_run(s) - 1]);
        }
    }
}

/// The run at the end of a text behind a character that is none.
proof fn tail_run_stops(a: Seq<char>, c: char, b: Seq<char>)
    requires
        !alphanumeric(c),
    ensures
        tail_run(a.push(c) + b) == tail_run(b),
    decreases b.len(),
{
    let all = a.push(c) + b;
    if b.len() == 0 {
        assert(all.last() == c);
    } else {
        assert(all.last() == b.last());
        assert(all.drop_last() =~= a.push(c) + b.drop_last());
        tail_run_stops(a, c, b.drop_last());
    }
}

/// A text of letters and figures alone is one run.
proof fn tail_run_is_whole(s: Seq<char>)
    requires
        forall|i: int| 0 <= i < s.len() ==> alphanumeric(#[trigger] s[i]),
    ensures
        tail_run(s) == s.len(),
    decreases s.len(),
{
    if s.len() > 0 {
        let short = s.drop_last();
        assert forall|i: int| 0 <= i < short.len() implies alphanumeric(#[trigger] short[i]) by {
            assert(short[i] == s[i]);
        }
        assert(alphanumeric(s[s.len() - 1]));
        tail_run_is_whole(short);
    }
}

/// The tokens of a text are its runs of letters and figures, from the left, but
/// for single ones: a character that is neither parts the tokens before it from
/// those behind it, and a run is one token where it has at least two characters.
pub proof fn tokens_are_runs(a: Seq<char>, c: char, b: Seq<char>, run: Seq<char>)
    requires
        !alphanumeric(c),
    ensures
        tokens(a.push(c) + b) == tokens(a) + tokens(b),
        (forall|i: int| 0 <= i < run.len() ==> alphanumeric(#[trigger] run[i])) ==> tokens(run)
            == if run.len() >= 2 {
            seq![run]
        } else {
            Seq::empty()
        },
    decreases b.len(),
{
    if (forall|i: int| 0 <= i < run.len() ==> alphanumeric(#[trigger] run[i])) {
        tail_run_is_whole(run);
        if run.len() > 0 {
            assert(alphanumeric(run[run.len() - 1]));
            assert(run.take(0) =~= Seq::<char>::empty());
            assert(run.skip(0) =~= run);
            assert(tokens(run.take(0)) =~= Seq::<Seq<char>>::empty());
            assert(Seq::<Seq<char>>::empty().push(run) =~= seq![run]);
        }
    }
    let all = a.push(c) + b;
    if b.len() == 0 {
        assert(all =~= a.push(c));
        assert(all.last() == c);
        assert(all.drop_last() =~= a);
        assert(tokens(a) + tokens(b) =~= tokens(a));
    } else if !alphanumeric(b.last()) {
        assert(all.last() == b.last());
        assert(all.drop_last() =~= a.push(c) + b.drop_last());
        tokens_are_runs(a, c, b.drop_last(), run);
    } else {
        assert(all.last() == b.last());
        tail_run_stops(a, c, b);
        tail_run_is_right(b);
        let n = tail_run(b);
        let rest = b.take(b.len() - n);
        assert(n > 0);
        tokens_are_runs(a, c, rest, run);
        assert(all.take(all.len() - n) =~= a.push(c) + rest);
        assert(all.skip(all.len() - n) =~= b.skip(b.len() - n));
        let w = b.skip(b.len() - n);
        assert((tokens(a) + tokens(rest)).push(w) =~= tokens(a) + tokens(rest).push(w));
    }
}

/// A name is shown as it is, up to eighty characters, unless it may hold a
/// secret: an address, a long number or a word for one.
pub proof fn plain_names_are_shown(s: Seq<char>)
    ensures
        !sensitive(s) ==> redacted(s).is_prefix_of(s),
        !sensitive(s) && s.len() <= 80 ==> redacted(s) == s,
        !sensitive(s) && s.len() > 80 ==> redacted(s).len() == 80,
        sensitive(s) <==> {
            ||| exists|i: int| 0 <= i < s.len() && #[trigger] s[i] == '@'
            ||| exists|i: int| #[trigger] digits_at(s, i, 8)
            ||| text::has_part(text::lowercased(s), "apikey_"@)
            ||| text::has_part(text::lowercased(s), "api_key"@)
            ||| text::has_part(text::lowercased(s), "bearer "@)
            ||| text::has_part(text::lowercased(s), "password"@)
            ||| text::has_part(text::lowercased(s), "密码"@)
        },
{
    reveal_strlit("@");
    text::cutting_keeps_the_start(s, 80);
    if text::has_part(s, "@"@) {
        let i = choose|i: int| text::stands_at(s, "@"@, i);
        assert(s.subrange(i, i + 1)[0] == s[i]);
    }
    if exists|i: int| 0 <= i < s.len() && #[trigger] s[i] == '@' {
        let i = choose|i: int| 0 <= i < s.len() && #[trigger] s[i] == '@';
        assert(s.subrange(i, i + 1) =~= "@"@);
        assert(text::stands_at(s, "@"@, i));
    }
    let low = text::lowercased(s);
    let ws = secret_words();
    assert(ws[0] == "apikey_"@ && ws[1] == "api_key"@ && ws[2] == "bearer "@ && ws[3] == "password"@
        && ws[4] == "密码"@);
    if mentions(low, ws) {
        let k = choose|k: int| 0 <= k < ws.len() && text::has_part(low, #[trigger] ws[k]);
        assert(k == 0 || k == 1 || k == 2 || k == 3 || k == 4);
    }
}

/// What an action is chosen as, and what it is expected to bring about.
pub proof fn actions_are_chosen_as_what_they_are(action: NativeAction, target: Seq<char>)
    ensures
        kind_model(NativeAction::Invoke) == Some(KindModel::Invoke),
        kind_model(NativeAction::Toggle) == Some(KindModel::Toggle),
        kind_model(NativeAction::Select) == Some(KindModel::Select),
        kind_model(NativeAction::Expand) == Some(KindModel::Expand),
        kind_model(NativeAction::Collapse) == Some(KindModel::Collapse),
        kind_model(NativeAction::Focus) == Some(KindModel::Focus),
        kind_model(NativeAction::SetValue) == Some(KindModel::SetValue("value"@)),
        kind_model(action) is None <==> action == NativeAction::Scroll,
        action != NativeAction::Scroll ==> effects_model(action, target).len() == 1
            && effects_model(action, target)[0].arguments.len() == 1 && effects_model(
            action,
            target,
        )[0].arguments[0].key == "target"@ && effects_model(action, target)[0].arguments[0].value
            == target,
        effects_model(NativeAction::Invoke, target)[0].name
            == "invoke_target_changed_or_disappeared"@,
        effects_model(NativeAction::Toggle, target)[0].name == "target_toggle_changed"@,
        effects_model(NativeAction::Select, target)[0].name == "target_selected"@,
        effects_model(NativeAction::Expand, target)[0].name == "target_expanded"@,
        effects_model(NativeAction::Collapse, target)[0].name == "target_collapsed"@,
        effects_model(NativeAction::Focus, target)[0].name == "target_focused"@,
        effects_model(NativeAction::SetValue, target)[0].name == "target_value_changed"@,
{
}

/// How risky an action is: one that presses a control is judged by the words in
/// its name, the gravest first; text entry writes within bounds, and every other
/// action can be taken back.
pub proof fn risk_follows_the_name(
    action: NativeAction,
    name: Option<Seq<char>>,
    critical: Seq<Seq<char>>,
)
    ensures
        ({
            let low = text::lowercased(
                match name {
                    Some(s) => s,
                    None => Seq::empty(),
                },
            );
            let risk = risk_model(action, name, critical);
            let grave = exists|i: int|
                0 <= i < critical.len() && text::has_part(low, #[trigger] critical[i]);
            let commits = text::has_part(low, "send"@) || text::has_part(low, "发送"@)
                || text::has_part(low, "publish"@) || text::has_part(low, "发布"@)
                || text::has_part(low, "submit"@) || text::has_part(low, "提交"@);
            let writes = text::has_part(low, "save"@) || text::has_part(low, "保存"@)
                || text::has_part(low, "apply"@) || text::has_part(low, "应用"@);
            &&& action == NativeAction::SetValue ==> risk == RiskClass::BoundedWrite
            &&& action != NativeAction::SetValue && action != NativeAction::Invoke ==> risk
                == RiskClass::Reversible
            &&& action == NativeAction::Invoke && grave ==> risk == RiskClass::DestructiveCritical
            &&& action == NativeAction::Invoke && !grave && commits ==> risk
                == RiskClass::ExternalCommit
            &&& action == NativeAction::Invoke && !grave && !commits && writes ==> risk
                == RiskClass::BoundedWrite
            &&& action == NativeAction::Invoke && !grave && !commits && !writes ==> risk
                == RiskClass::Reversible
        }),
{
    let low = text::lowercased(
        match name {
            Some(s) => s,
            None => Seq::empty(),
        },
    );
    let cw = commit_words();
    assert(cw[0] == "send"@ && cw[1] == "发送"@ && cw[2] == "publish"@ && cw[3] == "发布"@ && cw[4]
        == "submit"@ && cw[5] == "提交"@);
    if mentions(low, cw) {
        let k = choose|k: int| 0 <= k < cw.len() && text::has_part(low, #[trigger] cw[k]);
        assert(k == 0 || k == 1 || k == 2 || k == 3 || k == 4 || k == 5);
    }
    let ww = write_words();
    assert(ww[0] == "save"@ && ww[1] == "保存"@ && ww[2] == "apply"@ && ww[3] == "应用"@);
    if mentions(low, ww) {
        let k = choose|k: int| 0 <= k < ww.len() && text::has_part(low, #[trigger] ww[k]);
        assert(k == 0 || k == 1 || k == 2 || k == 3);
    }
}

/// The best comes first: nothing listed stands behind something with a lower
/// score, and what scores the same is listed as it was given.
pub proof fn best_comes_first(scores: Seq<i32>, order: Seq<usize>, i: int, j: int)
    requires
        is_ranking(scores, order),
        0 <= i < j < order.len(),
    ensures
        scores[order[i] as int] >= scores[order[j] as int],
        scores[order[i] as int] == scores[order[j] as int] ==> order[i] < order[j],
        order.len() == scores.len(),
{
    assert(ranks_before(scores, order[i] as int, order[j] as int));
}

} // verus!
