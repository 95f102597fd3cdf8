//! Searching the screen: what is done with the places that matched.
//!
//! Similarities are numbers by which places are ordered; how they were
//! measured is not known here.
use vstd::prelude::*;
use vstd::string::*;

use crate::model;
use crate::model::Plain;
use crate::semantics;
use crate::semantics::descending;
use crate::text;
use crate::text::{chars_of, owned, same_text, split_filled};

verus! {

/// A place where a character matched: its left edge, its width, how well it
/// matched, and the character.
#[derive(Debug, Clone, PartialEq, Eq)]
pub struct Hit {
    pub x: i32,
    pub w: u32,
    pub sim: i32,
    pub ch: String,
}

/// The content of a [`Hit`].
#[verifier::ext_equal]
pub struct HitModel {
    pub x: i32,
    pub w: u32,
    pub sim: i32,
    pub ch: Seq<char>,
}

impl View for Hit {
    type V = HitModel;

    open spec fn view(&self) -> HitModel {
        HitModel { x: self.x, w: self.w, sim: self.sim, ch: self.ch@ }
    }
}

impl Plain for Hit {
    fn copied(&self) -> (r: Self) {
        Hit { x: self.x, w: self.w, sim: self.sim, ch: self.ch.clone() }
    }

    fn same(&self, other: &Self) -> (r: bool) {
        self.x == other.x && self.w == other.w && self.sim == other.sim && same_text(
            self.ch.as_str(),
            other.ch.as_str(),
        )
    }
}

/// The words of a search, written with bars between them.
pub open spec fn words_model(words: Seq<char>) -> Seq<Seq<char>> {
    text::filled(text::pieces(words, '|'))
}

/// The words of a search.
pub fn search_words(words: &str) -> (r: Vec<String>)
    ensures
        model::seq_view(r@) == words_model(words@),
{
    split_filled(words, '|')
}

/// Whether a character stands in one of some words.
pub open spec fn in_words(words: Seq<Seq<char>>, c: char) -> bool {
    exists|i: int| 0 <= i < words.len() && (#[trigger] words[i]).contains(c)
}

/// Whether a template is looked for: it is one character of the words, or
/// there are no words.
pub open spec fn wanted(ch: Seq<char>, words: Seq<Seq<char>>) -> bool {
    words.len() == 0 || (ch.len() == 1 && in_words(words, ch[0]))
}

/// Whether a character stands in a text.
fn holds_char(s: &Vec<char>, c: char) -> (r: bool)
    ensures
        r == s@.contains(c),
{
    let mut i: usize = 0;
    while i < s.len()
        invariant
            i <= s@.len(),
            forall|k: int| 0 <= k < i ==> s@[k] != c,
        decreases s@.len() - i,
    {
        if s[i] == c {
            return true;
        }
        i = i + 1;
    }
    false
}

/// Whether a template is looked for.
fn is_wanted(ch: &str, words: &Vec<String>) -> (r: bool)
    ensures
        r == wanted(ch@, model::seq_view(words@)),
{
    if words.len() == 0 {
        return true;
    }
    let own = chars_of(ch);
    if own.len() != 1 {
        return false;
    }
    let ghost ws = model::seq_view(words@);
    let mut i: usize = 0;
    while i < words.len()
        invariant
            i <= words@.len(),
            ws == model::seq_view(words@),
            own@ == ch@,
            own@.len() == 1,
            forall|k: int| 0 <= k < i ==> !(#[trigger] ws[k]).contains(ch@[0]),
        decreases words@.len() - i,
    {
        let word = chars_of(words[i].as_str());
        if holds_char(&word, own[0]) {
            assert(ws[i as int].contains(ch@[0]));
            return true;
        }
        i = i + 1;
    }
    false
}

/// The positions of the templates that are looked for.
pub open spec fn wanted_places(chars: Seq<Seq<char>>, words: Seq<Seq<char>>) -> Seq<int>
    decreases chars.len(),
{
    if chars.len() == 0 {
        Seq::empty()
    } else {
        let before = wanted_places(chars.drop_last(), words);
        if wanted(chars.last(), words) {
            before.push(chars.len() - 1)
        } else {
            before
        }
    }
}

/// The positions of the templates that are looked for.
pub fn templates_to_search(chars: &Vec<String>, words: &Vec<String>) -> (r: Vec<usize>)
    ensures
        r@.len() == wanted_places(model::seq_view(chars@), model::seq_view(words@)).len(),
        forall|i: int|
            0 <= i < r@.len() ==> #[trigger] r@[i] == wanted_places(
                model::seq_view(chars@),
                model::seq_view(words@),
            )[i],
{
    let ghost cs = model::seq_view(chars@);
    let ghost ws = model::seq_view(words@);
    let mut out: Vec<usize> = Vec::new();
    let mut i: usize = 0;
    while i < chars.len()
        invariant
            i <= chars@.len(),
            cs == model::seq_view(chars@),
            ws == model::seq_view(words@),
            out@.len() == wanted_places(cs.take(i as int), ws).len(),
            forall|k: int|
                0 <= k < out@.len() ==> #[trigger] out@[k] == wanted_places(
                    cs.take(i as int),
                    ws,
                )[k],
        decreases chars@.len() - i,
    {
        proof {
            assert(cs.take(i + 1).drop_last() == cs.take(i as int));
            assert(cs.take(i + 1).last() == chars@[i as int]@);
        }
        if is_wanted(chars[i].as_str(), words) {
            out.push(i);
        }
        i = i + 1;
    }
    assert(cs.take(cs.len() as int) == cs);
    out
}

/// Whether two places overlap: their edges are closer than a quarter of their
/// widths together.
pub open spec fn overlap(a: HitModel, b: HitModel) -> bool {
    let gap = if a.x >= b.x {
        a.x - b.x
    } else {
        b.x - a.x
    };
    gap < (a.w + b.w) / 4
}

/// Whether a place overlaps one of a list.
pub open spec fn overlaps_any(kept: Seq<HitModel>, h: HitModel) -> bool {
    exists|i: int| 0 <= i < kept.len() && overlap(h, #[trigger] kept[i])
}

/// The places that are kept: each unless it overlaps one that was kept before
/// it.
pub open spec fn kept_of(hits: Seq<HitModel>) -> Seq<HitModel>
    decreases hits.len(),
{
    if hits.len() == 0 {
        Seq::empty()
    } else {
        let before = kept_of(hits.drop_last());
        if overlaps_any(before, hits.last()) {
            before
        } else {
            before.push(hits.last())
        }
    }
}

/// Places in an order.
pub open spec fn arranged(s: Seq<HitModel>, order: Seq<usize>) -> Seq<HitModel> {
    Seq::new(s.len(), |i: int| s[order[i] as int])
}

/// How well places matched.
pub open spec fn sims_of(s: Seq<HitModel>) -> Seq<i32> {
    Seq::new(s.len(), |i: int| s[i].sim)
}

/// Numbers that fall as the left edge rises.
pub open spec fn leftness(s: Seq<HitModel>) -> Seq<i32> {
    Seq::new(s.len(), |i: int| (-1 - s[i].x) as i32)
}

/// Whether a place overlaps another.
fn overlapping(a: &Hit, b: &Hit) -> (r: bool)
    ensures
        r == overlap(a@, b@),
{
    let gap: i64 = if a.x >= b.x {
        a.x as i64 - b.x as i64
    } else {
        b.x as i64 - a.x as i64
    };
    gap < ((a.w as u64 + b.w as u64) / 4) as i64
}

/// Puts places in an order.
fn arrange(hits: &Vec<Hit>, order: &Vec<usize>) -> (r: Vec<Hit>)
    requires
        order@.len() == hits@.len(),
        forall|i: int| 0 <= i < order@.len() ==> #[trigger] order@[i] < hits@.len(),
    ensures
        model::seq_view(r@) == arranged(model::seq_view(hits@), order@),
{
    let ghost hs = model::seq_view(hits@);
    let mut out: Vec<Hit> = Vec::new();
    let mut i: usize = 0;
    while i < order.len()
        invariant
            i <= order@.len(),
            order@.len() == hits@.len(),
            hs == model::seq_view(hits@),
            forall|k: int| 0 <= k < order@.len() ==> #[trigger] order@[k] < hits@.len(),
            out@.len() == i,
            forall|k: int| 0 <= k < i ==> (#[trigger] out@[k])@ == arranged(hs, order@)[k],
        decreases order@.len() - i,
    {
        let at: usize = order[i];
        assert(at < hits@.len());
        assert(hs[at as int] == hits@[at as int]@);
        out.push(hits[at].copied());
        i = i + 1;
    }
    assert(model::seq_view(out@) =~= arranged(hs, order@));
    out
}

/// Puts places from the best down.
fn best_first(hits: &Vec<Hit>) -> (r: Vec<Hit>)
    ensures
        exists|order: Seq<usize>| #[trigger]
            semantics::is_ranking(sims_of(model::seq_view(hits@)), order) && model::seq_view(r@)
                == arranged(model::seq_view(hits@), order),
{
    let ghost hs = model::seq_view(hits@);
    let mut sims: Vec<i32> = Vec::new();
    let mut i: usize = 0;
    while i < hits.len()
        invariant
            i <= hits@.len(),
            hs == model::seq_view(hits@),
            sims@.len() == i,
            forall|k: int| 0 <= k < i ==> #[trigger] sims@[k] == hs[k].sim,
        decreases hits@.len() - i,
    {
        sims.push(hits[i].sim);
        i = i + 1;
    }
    assert(sims@ =~= sims_of(hs));
    let order = descending(&sims);
    arrange(hits, &order)
}

/// Puts places from the left to the right.
fn left_first(hits: &Vec<Hit>) -> (r: Vec<Hit>)
    ensures
        exists|order: Seq<usize>| #[trigger]
            semantics::is_ranking(leftness(model::seq_view(hits@)), order) && model::seq_view(r@)
                == arranged(model::seq_view(hits@), order),
{
    let ghost hs = model::seq_view(hits@);
    let mut keys: Vec<i32> = Vec::new();
    let mut i: usize = 0;
    while i < hits.len()
        invariant
            i <= hits@.len(),
            hs == model::seq_view(hits@),
            keys@.len() == i,
            forall|k: int| 0 <= k < i ==> #[trigger] keys@[k] == leftness(hs)[k],
        decreases hits@.len() - i,
    {
        let key: i32 = -1 - hits[i].x;
        assert(hs[i as int].x == hits@[i as int].x);
        keys.push(key);
        i = i + 1;
    }
    assert(keys@ =~= leftness(hs));
    let order = descending(&keys);
    arrange(hits, &order)
}

/// The places that are kept.
fn keep(hits: &Vec<Hit>) -> (r: Vec<Hit>)
    ensures
        model::seq_view(r@) == kept_of(model::seq_view(hits@)),
{
    let ghost hs = model::seq_view(hits@);
    let mut out: Vec<Hit> = Vec::new();
    assert(model::seq_view(out@) =~= kept_of(hs.take(0)));
    let mut i: usize = 0;
    while i < hits.len()
        invariant
            i <= hits@.len(),
            hs == model::seq_view(hits@),
            model::seq_view(out@) == kept_of(hs.take(i as int)),
        decreases hits@.len() - i,
    {
        let ghost before = out@;
        let ghost kept = model::seq_view(out@);
        proof {
            assert(hs.take(i + 1).drop_last() == hs.take(i as int));
            assert(hs.take(i + 1).last() == hits@[i as int]@);
        }
        let mut hit = false;
        let mut k: usize = 0;
        while k < out.len()
            invariant
                k <= out@.len(),
                i < hits@.len(),
                kept == model::seq_view(out@),
                hit == exists|j: int| 0 <= j < k && overlap(hits@[i as int]@, #[trigger] kept[j]),
            decreases out@.len() - k,
        {
            assert(kept[k as int] == out@[k as int]@);
            if overlapping(&hits[i], &out[k]) {
                hit = true;
            }
            k = k + 1;
        }
        if !hit {
            let item = hits[i].copied();
            out.push(item);
            assert(model::seq_view(out@) =~= model::seq_view(before).push(item@));
        }
        i = i + 1;
    }
    assert(hs.take(hs.len() as int) == hs);
    out
}

/// Whether a row of places is what is left of places that matched: the best of
/// those that overlap, from the left to the right.
pub open spec fn is_line(hits: Seq<HitModel>, line: Seq<HitModel>) -> bool {
    exists|by_fit: Seq<usize>, by_edge: Seq<usize>|
        {
            let kept = kept_of(arranged(hits, by_fit));
            &&& #[trigger] semantics::is_ranking(sims_of(hits), by_fit)
            &&& #[trigger] semantics::is_ranking(
                leftness(kept_of(arranged(hits, by_fit))),
                by_edge,
            )
            &&& line == arranged(kept, by_edge)
        }
}

/// The row of places that is left of places that matched.
pub fn line_of(hits: &Vec<Hit>) -> (r: Vec<Hit>)
    ensures
        is_line(model::seq_view(hits@), model::seq_view(r@)),
{
    let ghost hs = model::seq_view(hits@);
    let sorted = best_first(hits);
    let ghost by_fit = choose|order: Seq<usize>| #[trigger]
        semantics::is_ranking(sims_of(hs), order) && model::seq_view(sorted@) == arranged(
            hs,
            order,
        );
    let kept = keep(&sorted);
    let ghost ks = model::seq_view(kept@);
    let line = left_first(&kept);
    let ghost by_edge = choose|order: Seq<usize>| #[trigger]
        semantics::is_ranking(leftness(ks), order) && model::seq_view(line@) == arranged(
            ks,
            order,
        );
    assert(semantics::is_ranking(sims_of(hs), by_fit));
    assert(semantics::is_ranking(leftness(kept_of(arranged(hs, by_fit))), by_edge));
    line
}

/// Of places that are kept no two overlap, and each that is not kept overlaps
/// a kept one that came before it.
pub proof fn kept_places_are_apart(hits: Seq<HitModel>)
    ensures
        forall|i: int, j: int|
            0 <= i < j < kept_of(hits).len() ==> !overlap(
                #[trigger] kept_of(hits)[j],
                #[trigger] kept_of(hits)[i],
            ),
        forall|i: int|
            0 <= i < hits.len() ==> kept_of(hits).contains(#[trigger] hits[i]) || overlaps_any(
                kept_of(hits),
                hits[i],
            ),
        forall|i: int|
            0 <= i < kept_of(hits).len() ==> hits.contains(#[trigger] kept_of(hits)[i]),
    decreases hits.len(),
{
    if hits.len() > 0 {
        let rest = hits.drop_last();
        kept_places_are_apart(rest);
        let before = kept_of(rest);
        let now = kept_of(hits);
        assert forall|i: int| 0 <= i < hits.len() implies now.contains(#[trigger] hits[i])
            || overlaps_any(now, hits[i]) by {
            if i < rest.len() {
                assert(rest[i] == hits[i]);
                if before.contains(hits[i]) {
                    let k = before.index_of(hits[i]);
                    assert(now[k] == hits[i]);
                } else {
                    let k = choose|k: int| 0 <= k < before.len() && overlap(
                        hits[i],
                        #[trigger] before[k],
                    );
                    assert(now[k] == before[k]);
                }
            } else if !overlaps_any(before, hits.last()) {
                assert(now[now.len() - 1] == hits[i]);
            }
        }
        assert forall|i: int| 0 <= i < now.len() implies hits.contains(#[trigger] now[i]) by {
            if i < before.len() {
                assert(now[i] == before[i]);
                let k = rest.index_of(before[i]);
                assert(hits[k] == rest[k]);
            } else {
                assert(hits[hits.len() - 1] == now[i]);
            }
        }
    }
}

/// Whether a word stands in a row at a position: its characters one after the
/// other, each to the right of the one before and not too far.
pub open spec fn word_at(line: Seq<HitModel>, word: Seq<char>, reach: int, i: int) -> bool {
    &&& 0 <= i
    &&& i + word.len() <= line.len()
    &&& forall|k: int| 0 <= k < word.len() ==> letter_at(line, word, reach, i, k)
}

/// Whether one character of a word stands in a row.
pub open spec fn letter_at(
    line: Seq<HitModel>,
    word: Seq<char>,
    reach: int,
    i: int,
    k: int,
) -> bool {
    &&& line[i + k].ch == seq![word[k]]
    &&& k > 0 ==> 0 < line[i + k].x - line[i + k - 1].x <= reach
}

/// The positions of a word in a row, from one on and without overlap.
pub open spec fn places(line: Seq<HitModel>, word: Seq<char>, reach: int, from: int) -> Seq<int>
    decreases line.len() - from,
{
    if word.len() == 0 || from < 0 || from + word.len() > line.len() {
        Seq::empty()
    } else if word_at(line, word, reach, from) {
        seq![from] + places(line, word, reach, from + word.len())
    } else {
        places(line, word, reach, from + 1)
    }
}

/// The rightmost edge of `n` places from a position on.
pub open spec fn right_edge(line: Seq<HitModel>, i: int, n: int) -> int
    decreases n,
{
    if n <= 1 {
        line[i].x + line[i].w
    } else {
        let before = right_edge(line, i, n - 1);
        let own = line[i + n - 1].x + line[i + n - 1].w;
        if own > before {
            own
        } else {
            before
        }
    }
}

/// A word that was found: where it stands on the screen, how wide it is, and
/// how well each character matched.
#[derive(Debug, Clone, PartialEq, Eq)]
pub struct WordMatch {
    pub word: String,
    pub x: i64,
    pub y: i32,
    pub width: i64,
    pub sims: Vec<i32>,
}

/// The content of a [`WordMatch`].
#[verifier::ext_equal]
pub struct WordMatchModel {
    pub word: Seq<char>,
    pub x: int,
    pub y: i32,
    pub width: int,
    pub sims: Seq<i32>,
}

impl View for WordMatch {
    type V = WordMatchModel;

    open spec fn view(&self) -> WordMatchModel {
        WordMatchModel {
            word: self.word@,
            x: self.x as int,
            y: self.y,
            width: self.width as int,
            sims: self.sims@,
        }
    }
}

/// The word at a position of a row, with the region's offset.
pub open spec fn match_at(
    line: Seq<HitModel>,
    word: Seq<char>,
    i: int,
    region_x: i32,
    region_y: i32,
) -> WordMatchModel {
    WordMatchModel {
        word,
        x: line[i].x + region_x,
        y: region_y,
        width: right_edge(line, i, word.len() as int) - line[i].x,
        sims: Seq::new(word.len(), |k: int| line[i + k].sim),
    }
}

/// The matches of one word.
pub open spec fn word_matches(
    line: Seq<HitModel>,
    word: Seq<char>,
    reach: int,
    region_x: i32,
    region_y: i32,
) -> Seq<WordMatchModel> {
    let at = places(line, word, reach, 0);
    Seq::new(at.len(), |i: int| match_at(line, word, at[i], region_x, region_y))
}

/// The matches of all words, word by word.
pub open spec fn all_matches(
    line: Seq<HitModel>,
    words: Seq<Seq<char>>,
    reach: int,
    region_x: i32,
    region_y: i32,
) -> Seq<WordMatchModel>
    decreases words.len(),
{
    if words.len() == 0 {
        Seq::empty()
    } else {
        all_matches(line, words.drop_last(), reach, region_x, region_y) + word_matches(
            line,
            words.last(),
            reach,
            region_x,
            region_y,
        )
    }
}

/// The characters of a row.
pub open spec fn line_text(line: Seq<HitModel>) -> Seq<char>
    decreases line.len(),
{
    if line.len() == 0 {
        Seq::empty()
    } else {
        line_text(line.drop_last()) + line.last().ch
    }
}

/// The widest of some templates; twenty where there are none.
pub open spec fn widest(widths: Seq<u32>) -> u32
    decreases widths.len(),
{
    if widths.len() == 0 {
        20
    } else if widths.len() == 1 {
        widths[0]
    } else {
        let before = widest(widths.drop_last());
        if widths.last() > before {
            widths.last()
        } else {
            before
        }
    }
}

/// The widest of some templates.
fn widest_of(widths: &Vec<u32>) -> (r: u32)
    ensures
        r == widest(widths@),
{
    if widths.len() == 0 {
        return 20;
    }
    let mut best: u32 = widths[0];
    let mut i: usize = 1;
    assert(widths@.take(1).len() == 1);
    while i < widths.len()
        invariant
            1 <= i <= widths@.len(),
            best == widest(widths@.take(i as int)),
        decreases widths@.len() - i,
    {
        assert(widths@.take(i + 1).drop_last() == widths@.take(i as int));
        if widths[i] > best {
            best = widths[i];
        }
        i = i + 1;
    }
    assert(widths@.take(widths@.len() as int) == widths@);
    best
}

/// Whether a word stands in a row at a position.
fn stands(line: &Vec<Hit>, word: &Vec<char>, reach: i64, i: usize) -> (r: bool)
    requires
        i + word@.len() <= line@.len(),
    ensures
        r == word_at(model::seq_view(line@), word@, reach as int, i as int),
{
    let ghost ls = model::seq_view(line@);
    let total: usize = line.len();
    let mut k: usize = 0;
    while k < word.len()
        invariant
            k <= word@.len(),
            i + word@.len() <= line@.len(),
            total == line@.len(),
            ls == model::seq_view(line@),
            forall|j: int|
                0 <= j < k ==> letter_at(ls, word@, reach as int, i as int, j),
        decreases word@.len() - k,
    {
        let own = chars_of(line[i + k].ch.as_str());
        assert(ls[i + k] == line@[i + k]@);
        if own.len() != 1 || own[0] != word[k] {
            proof {
                assert(ls[i + k].ch != seq![word@[k as int]]) by {
                    if ls[i + k].ch == seq![word@[k as int]] {
                        assert(own@[0] == word@[k as int]);
                    }
                }
                assert(!letter_at(ls, word@, reach as int, i as int, k as int));
            }
            return false;
        }
        assert(ls[i + k].ch =~= seq![word@[k as int]]);
        if k > 0 {
            assert(ls[i + k - 1] == line@[i + k - 1]@);
            let step: i64 = line[i + k].x as i64 - line[i + k - 1].x as i64;
            if step <= 0 || step > reach {
                assert(!letter_at(ls, word@, reach as int, i as int, k as int));
                return false;
            }
        }
        assert(letter_at(ls, word@, reach as int, i as int, k as int));
        k = k + 1;
    }
    true
}

/// Describes the word at a position of a row.
fn describe_match(line: &Vec<Hit>, word: &str, i: usize, n: usize, region_x: i32, region_y: i32) -> (r:
    WordMatch)
    requires
        0 < n,
        n == word@.len(),
        i + n <= line@.len(),
    ensures
        r@ == match_at(model::seq_view(line@), word@, i as int, region_x, region_y),
{
    let ghost ls = model::seq_view(line@);
    let mut right: i64 = line[i].x as i64 + line[i].w as i64;
    let mut sims: Vec<i32> = Vec::new();
    sims.push(line[i].sim);
    let total: usize = line.len();
    let mut k: usize = 1;
    while k < n
        invariant
            1 <= k <= n,
            total == line@.len(),
            i + n <= line@.len(),
            ls == model::seq_view(line@),
            right == right_edge(ls, i as int, k as int),
            -2147483648 <= right <= 6442450942,
            sims@.len() == k,
            forall|j: int| 0 <= j < k ==> #[trigger] sims@[j] == ls[i + j].sim,
        decreases n - k,
    {
        let own: i64 = line[i + k].x as i64 + line[i + k].w as i64;
        if own > right {
            right = own;
        }
        sims.push(line[i + k].sim);
        k = k + 1;
    }
    let r = WordMatch {
        word: owned(word),
        x: line[i].x as i64 + region_x as i64,
        y: region_y,
        width: right - line[i].x as i64,
        sims,
    };
    assert(r@.sims =~= match_at(ls, word@, i as int, region_x, region_y).sims);
    r
}

/// Adds the matches of one word.
fn scan_word(
    out: &mut Vec<WordMatch>,
    line: &Vec<Hit>,
    word: &str,
    reach: i64,
    region_x: i32,
    region_y: i32,
)
    ensures
        model::seq_view(final(out)@) == model::seq_view(old(out)@) + word_matches(
            model::seq_view(line@),
            word@,
            reach as int,
            region_x,
            region_y,
        ),
{
    let ghost ls = model::seq_view(line@);
    let ghost before = model::seq_view(out@);
    let ghost all = places(ls, word@, reach as int, 0);
    let letters = chars_of(word);
    let n: usize = letters.len();
    let ghost mut done: nat = 0;
    if n == 0 {
        assert(model::seq_view(out@) =~= before + word_matches(
            ls,
            word@,
            reach as int,
            region_x,
            region_y,
        ));
        return ;
    }
    let mut i: usize = 0;
    assert(all.skip(0) =~= all);
    while i < line.len() && n <= line.len() - i
        invariant
            i <= line@.len(),
            n == word@.len(),
            0 < n,
            letters@ == word@,
            ls == model::seq_view(line@),
            all == places(ls, word@, reach as int, 0),
            done <= all.len(),
            all.skip(done as int) == places(ls, word@, reach as int, i as int),
            model::seq_view(out@).len() == before.len() + done,
            forall|k: int|
                0 <= k < before.len() ==> #[trigger] model::seq_view(out@)[k] == before[k],
            forall|k: int|
                before.len() <= k < before.len() + done ==> #[trigger] model::seq_view(out@)[k]
                    == match_at(ls, word@, all[k - before.len()], region_x, region_y),
        decreases line@.len() - i,
    {
        if stands(line, &letters, reach, i) {
            let ghost now = out@;
            let found = describe_match(line, word, i, n, region_x, region_y);
            out.push(found);
            proof {
                assert(model::seq_view(out@) =~= model::seq_view(now).push(found@));
                let rest = places(ls, word@, reach as int, i + n);
                assert(all.skip(done as int) == seq![i as int] + rest);
                assert(all.skip(done as int)[0] == i as int);
                assert(all[done as int] == i as int);
                assert(all.skip(done as int + 1) =~= rest) by {
                    assert(all.skip(done as int).skip(1) =~= all.skip(done as int + 1));
                    assert((seq![i as int] + rest).skip(1) =~= rest);
                }
                done = done + 1;
            }
            i = i + n;
        } else {
            i = i + 1;
        }
    }
    proof {
        assert(places(ls, word@, reach as int, i as int) =~= Seq::empty());
        assert(done == all.len());
        assert(model::seq_view(out@) =~= before + word_matches(
            ls,
            word@,
            reach as int,
            region_x,
            region_y,
        ));
    }
}

/// What a search for words found.
pub struct TextReport {
    pub found: bool,
    /// The characters of the row.
    pub text: String,
    pub matches: Vec<WordMatch>,
    /// What may have gone wrong where nothing was found.
    pub fallback_hint: Option<&'static str>,
}

/// The words that are given where nothing was found.
pub open spec fn hint_text() -> Seq<char> {
    "未在屏幕区域中找到目标文字。原因可能：1) 字库中不含需要的字符（请先用桌面取字添加到字库）；2) 文字未显示在截取区域内；3) 颜色或背景干扰导致匹配失败。"@
}

/// Whether a report says what a search of a row of places for words found.
pub open spec fn reports(
    r: TextReport,
    line: Seq<HitModel>,
    words: Seq<Seq<char>>,
    widths: Seq<u32>,
    region_x: i32,
    region_y: i32,
) -> bool {
    let ms = all_matches(line, words, 2 * widest(widths), region_x, region_y);
    &&& model::seq_view(r.matches@) == ms
    &&& r.found == (ms.len() > 0)
    &&& r.text@ == line_text(line)
    &&& text::opt_str(r.fallback_hint) == if ms.len() > 0 {
        None
    } else {
        Some(hint_text())
    }
}

/// Searches a row of places for words.
pub fn search_line(
    line: &Vec<Hit>,
    words: &Vec<String>,
    widths: &Vec<u32>,
    region_x: i32,
    region_y: i32,
) -> (r: TextReport)
    ensures
        reports(r, model::seq_view(line@), model::seq_view(words@), widths@, region_x, region_y),
{
    let ghost ls = model::seq_view(line@);
    let ghost ws = model::seq_view(words@);
    let reach: i64 = 2 * (widest_of(widths) as i64);
    let mut out: Vec<WordMatch> = Vec::new();
    assert(model::seq_view(out@) =~= all_matches(ls, ws.take(0), reach as int, region_x, region_y));
    let mut i: usize = 0;
    while i < words.len()
        invariant
            i <= words@.len(),
            ls == model::seq_view(line@),
            ws == model::seq_view(words@),
            model::seq_view(out@) == all_matches(
                ls,
                ws.take(i as int),
                reach as int,
                region_x,
                region_y,
            ),
        decreases words@.len() - i,
    {
        proof {
            assert(ws.take(i + 1).drop_last() == ws.take(i as int));
            assert(ws.take(i + 1).last() == words@[i as int]@);
        }
        scan_word(&mut out, line, words[i].as_str(), reach, region_x, region_y);
        i = i + 1;
    }
    assert(ws.take(ws.len() as int) == ws);
    let mut text = String::new();
    let mut k: usize = 0;
    assert(text@ =~= line_text(ls.take(0)));
    while k < line.len()
        invariant
            k <= line@.len(),
            ls == model::seq_view(line@),
            text@ == line_text(ls.take(k as int)),
        decreases line@.len() - k,
    {
        proof {
            assert(ls.take(k + 1).drop_last() == ls.take(k as int));
            assert(ls.take(k + 1).last() == line@[k as int]@);
        }
        text.append(line[k].ch.as_str());
        k = k + 1;
    }
    assert(ls.take(ls.len() as int) == ls);
    let found = out.len() > 0;
    let fallback_hint: Option<&'static str> = if found {
        None
    } else {
        Some(
            "未在屏幕区域中找到目标文字。原因可能：1) 字库中不含需要的字符（请先用桌面取字添加到字库）；2) 文字未显示在截取区域内；3) 颜色或背景干扰导致匹配失败。",
        )
    };
    TextReport { found, text, matches: out, fallback_hint }
}

/// Every position that is reported for a word is one where the word stands,
/// and the words of two positions share no character.
pub proof fn reported_words_stand_apart(
    line: Seq<HitModel>,
    word: Seq<char>,
    reach: int,
    from: int,
)
    ensures
        forall|i: int|
            0 <= i < places(line, word, reach, from).len() ==> word_at(
                line,
                word,
                reach,
                #[trigger] places(line, word, reach, from)[i],
            ) && places(line, word, reach, from)[i] >= from,
        forall|i: int, j: int|
            0 <= i < j < places(line, word, reach, from).len() ==> #[trigger] places(
                line,
                word,
                reach,
                from,
            )[i] + word.len() <= #[trigger] places(line, word, reach, from)[j],
    decreases line.len() - from,
{
    if word.len() == 0 || from < 0 || from + word.len() > line.len() {
        assert(places(line, word, reach, from).len() == 0);
    } else if word_at(line, word, reach, from) {
        reported_words_stand_apart(line, word, reach, from + word.len());
        let rest = places(line, word, reach, from + word.len());
        let all = places(line, word, reach, from);
        assert(all == seq![from] + rest);
        assert forall|i: int| 0 <= i < all.len() implies word_at(
            line,
            word,
            reach,
            #[trigger] all[i],
        ) && all[i] >= from by {
            if i > 0 {
                assert(all[i] == rest[i - 1]);
            }
        }
        assert forall|i: int, j: int| 0 <= i < j < all.len() implies #[trigger] all[i] + word.len()
            <= #[trigger] all[j] by {
            assert(all[j] == rest[j - 1]);
            if i > 0 {
                assert(all[i] == rest[i - 1]);
            }
        }
    } else {
        reported_words_stand_apart(line, word, reach, from + 1);
        assert(places(line, word, reach, from) == places(line, word, reach, from + 1));
    }
}

/// A rectangle on a screen.
#[derive(Debug, Clone, Copy, PartialEq, Eq, Structural)]
pub struct Rect {
    pub x: i32,
    pub y: i32,
    pub w: i32,
    pub h: i32,
}

/// What became of one template of an image search.
#[derive(Debug, Clone, Copy, PartialEq, Eq, Structural)]
pub enum Attempt {
    /// The template could not be read or compared.
    Unusable,
    /// The closest place, how well it matched, and whether that is enough.
    Compared { enough: bool, confidence: i32, rect: Option<Rect> },
}

/// What an image search says.
#[derive(Debug, Clone, Copy, PartialEq, Eq, Structural)]
pub enum ImageOutcome {
    /// The template at this position was found.
    Found { template: usize, rect: Rect },
    /// None was found; this came closest.
    Closest { template: usize, rect: Rect },
    /// None was found, and this template could not be used.
    Unreadable { template: usize },
    /// None was found.
    Nothing,
}

impl ImageOutcome {
    /// What is said of a search that found nothing.
    pub fn diagnostic(&self) -> (r: Option<&'static str>)
        ensures
            text::opt_str(r) == match *self {
                ImageOutcome::Closest { .. } => Some(
                    "not found: closest candidate below threshold"@,
                ),
                ImageOutcome::Unreadable { .. } => Some("template file not found or unreadable"@),
                _ => None,
            },
    {
        match self {
            ImageOutcome::Closest { .. } => Some("not found: closest candidate below threshold"),
            ImageOutcome::Unreadable { .. } => Some("template file not found or unreadable"),
            _ => None,
        }
    }
}

/// The position of the attempt that came closest among those that were not
/// enough, the first of equal ones.
pub open spec fn closest(attempts: Seq<Attempt>) -> Option<int>
    decreases attempts.len(),
{
    if attempts.len() == 0 {
        None
    } else {
        let before = closest(attempts.drop_last());
        match attempts.last() {
            Attempt::Compared { enough, confidence, rect } if !enough => match before {
                None => Some(attempts.len() - 1),
                Some(i) => if confidence > attempts[i]->confidence {
                    Some(attempts.len() - 1)
                } else {
                    before
                },
            },
            _ => before,
        }
    }
}

/// The position of the first template that could not be used.
pub open spec fn first_unusable(attempts: Seq<Attempt>) -> Option<int>
    decreases attempts.len(),
{
    if attempts.len() == 0 {
        None
    } else {
        match first_unusable(attempts.drop_last()) {
            Some(i) => Some(i),
            None => if attempts.last() == Attempt::Unusable {
                Some(attempts.len() - 1)
            } else {
                None
            },
        }
    }
}

/// Whether an attempt ends the search.
pub open spec fn decisive(a: Attempt) -> bool {
    a matches Attempt::Compared { enough, confidence, rect } && enough && rect is Some
}

/// A rectangle moved by the region's offset.
pub open spec fn moved(rect: Rect, region_x: i32, region_y: i32) -> Rect {
    Rect { x: (rect.x + region_x) as i32, y: (rect.y + region_y) as i32, ..rect }
}

/// What a search says once every template was tried: the closest place, where
/// there is one; else the first template that could not be used.
pub open spec fn failed(attempts: Seq<Attempt>, region_x: i32, region_y: i32) -> ImageOutcome {
    let near = closest(attempts);
    if near is Some && attempts[near->Some_0]->rect is Some {
        ImageOutcome::Closest {
            template: near->Some_0 as usize,
            rect: moved(attempts[near->Some_0]->rect->Some_0, region_x, region_y),
        }
    } else {
        match first_unusable(attempts) {
            Some(i) => ImageOutcome::Unreadable { template: i as usize },
            None => ImageOutcome::Nothing,
        }
    }
}

/// Whether a rectangle stays on the screen's number range when it is moved.
pub open spec fn movable(a: Attempt, region_x: i32, region_y: i32) -> bool {
    a matches Attempt::Compared { enough, confidence, rect: Some(rect) } ==> {
        &&& i32::MIN <= rect.x + region_x <= i32::MAX
        &&& i32::MIN <= rect.y + region_y <= i32::MAX
    }
}

/// An image search: what became of the templates that were tried.
pub struct ImageSearch {
    pub region_x: i32,
    pub region_y: i32,
    pub attempts: Vec<Attempt>,
    /// The position of the closest that was not enough.
    pub near: Option<usize>,
    /// The position of the first that could not be used.
    pub unusable: Option<usize>,
}

/// The position as a number.
pub open spec fn place(o: Option<usize>) -> Option<int> {
    match o {
        Some(i) => Some(i as int),
        None => None,
    }
}

impl ImageSearch {
    /// What holds of every search.
    pub open spec fn wf(self) -> bool {
        &&& place(self.near) == closest(self.attempts@)
        &&& place(self.unusable) == first_unusable(self.attempts@)
        &&& forall|i: int|
            0 <= i < self.attempts@.len() ==> !decisive(#[trigger] self.attempts@[i]) && movable(
                self.attempts@[i],
                self.region_x,
                self.region_y,
            )
    }

    /// A search that has tried nothing.
    pub fn begin(region_x: i32, region_y: i32) -> (r: ImageSearch)
        ensures
            r.wf(),
            r.region_x == region_x,
            r.region_y == region_y,
            r.attempts@ == Seq::<Attempt>::empty(),
    {
        ImageSearch { region_x, region_y, attempts: Vec::new(), near: None, unusable: None }
    }

    /// Takes in what became of the next template. The search ends with the
    /// first that matched well enough.
    pub fn step(&mut self, attempt: Attempt) -> (r: Option<ImageOutcome>)
        requires
            old(self).wf(),
            movable(attempt, old(self).region_x, old(self).region_y),
        ensures
            final(self).region_x == old(self).region_x,
            final(self).region_y == old(self).region_y,
            if decisive(attempt) {
                &&& r == Some(
                    ImageOutcome::Found {
                        template: old(self).attempts@.len() as usize,
                        rect: moved(
                            attempt->rect->Some_0,
                            old(self).region_x,
                            old(self).region_y,
                        ),
                    },
                )
                &&& *final(self) == *old(self)
            } else {
                &&& r is None
                &&& final(self).attempts@ == old(self).attempts@.push(attempt)
                &&& final(self).wf()
            },
    {
        let at: usize = self.attempts.len();
        match attempt {
            Attempt::Unusable => {
                if self.unusable.is_none() {
                    self.unusable = Some(at);
                }
            },
            Attempt::Compared { enough, confidence, rect } => {
                if enough {
                    match rect {
                        Some(found) => {
                            return Some(
                                ImageOutcome::Found {
                                    template: at,
                                    rect: Rect {
                                        x: found.x + self.region_x,
                                        y: found.y + self.region_y,
                                        w: found.w,
                                        h: found.h,
                                    },
                                },
                            );
                        },
                        None => {},
                    }
                } else {
                    let better = match self.near {
                        None => true,
                        Some(i) => {
                            proof {
                                closest_is_compared(self.attempts@);
                            }
                            match self.attempts[i] {
                                Attempt::Compared { enough: _, confidence: best, rect: _ } =>
                                    confidence > best,
                                Attempt::Unusable => false,
                            }
                        },
                    };
                    if better {
                        self.near = Some(at);
                    }
                }
            },
        }
        let ghost before = self.attempts@;
        self.attempts.push(attempt);
        proof {
            assert(self.attempts@.drop_last() =~= before);
            closest_is_compared(before);
            assert forall|i: int| 0 <= i < self.attempts@.len() implies !decisive(
                #[trigger] self.attempts@[i],
            ) && movable(self.attempts@[i], self.region_x, self.region_y) by {
                if i < before.len() {
                    assert(self.attempts@[i] == before[i]);
                }
            }
        }
        None
    }

    /// What the search says once every template was tried.
    pub fn finish(&self) -> (r: ImageOutcome)
        requires
            self.wf(),
        ensures
            r == failed(self.attempts@, self.region_x, self.region_y),
    {
        proof {
            closest_is_compared(self.attempts@);
            first_unusable_is_within(self.attempts@);
        }
        match self.near {
            Some(i) => match self.attempts[i] {
                Attempt::Compared { enough: _, confidence: _, rect: Some(rect) } => {
                    assert(movable(self.attempts@[i as int], self.region_x, self.region_y));
                    return ImageOutcome::Closest {
                        template: i,
                        rect: Rect {
                            x: rect.x + self.region_x,
                            y: rect.y + self.region_y,
                            w: rect.w,
                            h: rect.h,
                        },
                    };
                },
                _ => {},
            },
            None => {},
        }
        match self.unusable {
            Some(i) => ImageOutcome::Unreadable { template: i },
            None => ImageOutcome::Nothing,
        }
    }
}

/// The closest attempt is one that was compared and not enough, and no other
/// such came closer.
pub proof fn closest_is_compared(attempts: Seq<Attempt>)
    ensures
        closest(attempts) matches Some(i) ==> {
            &&& 0 <= i < attempts.len()
            &&& attempts[i] is Compared
            &&& !attempts[i]->enough
            &&& forall|k: int|
                0 <= k < attempts.len() && (#[trigger] attempts[k]) is Compared
                    && !attempts[k]->enough ==> attempts[k]->confidence <= attempts[i]->confidence
        },
        closest(attempts) is None ==> forall|k: int|
            0 <= k < attempts.len() && (#[trigger] attempts[k]) is Compared
                ==> attempts[k]->enough,
    decreases attempts.len(),
{
    if attempts.len() > 0 {
        let rest = attempts.drop_last();
        closest_is_compared(rest);
        assert(forall|k: int| 0 <= k < rest.len() ==> rest[k] == #[trigger] attempts[k]);
        match closest(rest) {
            Some(i) => {
                assert(rest[i] == attempts[i]);
            },
            None => {},
        }
    }
}

/// The first template that could not be used is one of those that were tried.
proof fn first_unusable_is_within(attempts: Seq<Attempt>)
    ensures
        first_unusable(attempts) matches Some(i) ==> 0 <= i < attempts.len() && attempts[i]
            == Attempt::Unusable,
    decreases attempts.len(),
{
    if attempts.len() > 0 {
        first_unusable_is_within(attempts.drop_last());
    }
}

/// The characters that are searched for are those that a word holds, or all where
/// no word is given.
pub proof fn letters_of_the_words_are_searched(
    a: Seq<Seq<char>>,
    words: Seq<Seq<char>>,
    i: int,
)
    requires
        0 <= i < a.len(),
    ensures
        wanted_places(a, words).contains(i) <==> words.len() == 0 || (a[i].len() == 1 && exists|
            k: int,
        |
            0 <= k < words.len() && (#[trigger] words[k]).contains(a[i][0])),
        forall|p: int, q: int|
            0 <= p < q < wanted_places(a, words).len() ==> #[trigger] wanted_places(a, words)[p]
                < #[trigger] wanted_places(a, words)[q],
    decreases a.len(),
{
    places_are_within(a, words);
    let short = a.drop_last();
    let before = wanted_places(short, words);
    let all = wanted_places(a, words);
    places_are_within(short, words);
    if i < short.len() {
        letters_of_the_words_are_searched(short, words, i);
        assert(short[i] == a[i]);
        if before.contains(i) {
            let k = choose|k: int| 0 <= k < before.len() && before[k] == i;
            assert(all[k] == i);
        }
        if all.contains(i) {
            let k = choose|k: int| 0 <= k < all.len() && all[k] == i;
            assert(before[k] == i);
        }
    } else {
        if wanted(a.last(), words) {
            assert(all[all.len() - 1] == i);
        }
        if all.contains(i) && !wanted(a.last(), words) {
            let k = choose|k: int| 0 <= k < all.len() && all[k] == i;
            assert(before[k] < short.len());
        }
    }
}

/// The places that are searched are places of the list, in ascending order.
proof fn places_are_within(a: Seq<Seq<char>>, words: Seq<Seq<char>>)
    ensures
        forall|p: int|
            0 <= p < wanted_places(a, words).len() ==> 0 <= #[trigger] wanted_places(a, words)[p]
                < a.len(),
        forall|p: int, q: int|
            0 <= p < q < wanted_places(a, words).len() ==> #[trigger] wanted_places(a, words)[p]
                < #[trigger] wanted_places(a, words)[q],
    decreases a.len(),
{
    if a.len() > 0 {
        places_are_within(a.drop_last(), words);
        let before = wanted_places(a.drop_last(), words);
        let all = wanted_places(a, words);
        assert forall|p: int| 0 <= p < all.len() implies 0 <= #[trigger] all[p] < a.len() by {
            if p < before.len() {
                assert(all[p] == before[p]);
            }
        }
        assert forall|p: int, q: int| 0 <= p < q < all.len() implies #[trigger] all[p]
            < #[trigger] all[q] by {
            assert(all[p] == before[p]);
            if q < before.len() {
                assert(all[q] == before[q]);
            }
        }
    }
}

/// Two places overlap where their left edges are nearer than a quarter of both
/// widths together, whichever comes first.
pub proof fn near_places_overlap(a: HitModel, b: HitModel)
    ensures
        overlap(a, b) == overlap(b, a),
        a.x >= b.x ==> (overlap(a, b) <==> 4 * (a.x - b.x + 1) <= a.w + b.w),
{
}

/// A hit is kept, or an earlier one is that it overlaps.
proof fn earlier_hit_is_kept(hits: Seq<HitModel>, i: int)
    requires
        0 <= i < hits.len(),
    ensures
        kept_of(hits).contains(hits[i]) || exists|j: int|
            0 <= j < i && kept_of(hits).contains(#[trigger] hits[j]) && overlap(hits[i], hits[j]),
        forall|k: int|
            0 <= k < kept_of(hits).len() ==> exists|j: int|
                0 <= j < hits.len() && hits[j] == #[trigger] kept_of(hits)[k],
    decreases hits.len(),
{
    let short = hits.drop_last();
    let before = kept_of(short);
    let all = kept_of(hits);
    kept_places_are_apart(hits);
    assert forall|k: int| 0 <= k < all.len() implies exists|j: int|
        0 <= j < hits.len() && hits[j] == #[trigger] all[k] by {
        assert(hits.contains(all[k]));
    }
    assert forall|h: HitModel| before.contains(h) implies all.contains(h) by {
        let k = choose|k: int| 0 <= k < before.len() && before[k] == h;
        assert(all[k] == h);
    }
    if i < short.len() {
        earlier_hit_is_kept(short, i);
        assert(short[i] == hits[i]);
        if !before.contains(short[i]) {
            let j = choose|j: int|
                0 <= j < i && before.contains(#[trigger] short[j]) && overlap(short[i], short[j]);
            assert(short[j] == hits[j]);
            assert(all.contains(hits[j]));
        }
    } else if overlaps_any(before, hits.last()) {
        let k = choose|k: int| 0 <= k < before.len() && overlap(hits.last(), #[trigger] before[k]);
        kept_places_are_apart(short);
        assert(short.contains(before[k]));
        let j = choose|j: int| 0 <= j < short.len() && short[j] == before[k];
        assert(hits[j] == short[j]);
        assert(before.contains(before[k]));
        assert(all.contains(hits[j]));
    } else {
        assert(all[all.len() - 1] == hits[i]);
    }
}

/// A line is read from left to right. It holds only what was hit, and every hit
/// is in it or gives way to one in it that it overlaps and that matched at least
/// as well.
pub proof fn line_holds_the_best_hits(hits: Seq<HitModel>, line: Seq<HitModel>)
    requires
        is_line(hits, line),
        forall|i: int| 0 <= i < hits.len() ==> (#[trigger] hits[i]).x > i32::MIN,
    ensures
        forall|i: int, j: int|
            0 <= i < j < line.len() ==> (#[trigger] line[i]).x <= (#[trigger] line[j]).x,
        forall|i: int| 0 <= i < line.len() ==> hits.contains(#[trigger] line[i]),
        forall|i: int|
            0 <= i < hits.len() ==> line.contains(#[trigger] hits[i]) || gives_way(line, hits[i]),
{
    let (by_fit, by_edge): (Seq<usize>, Seq<usize>) = choose|
        by_fit: Seq<usize>,
        by_edge: Seq<usize>,
    |
        {
            let kept = kept_of(arranged(hits, by_fit));
            &&& #[trigger] semantics::is_ranking(sims_of(hits), by_fit)
            &&& #[trigger] semantics::is_ranking(
                leftness(kept_of(arranged(hits, by_fit))),
                by_edge,
            )
            &&& line == arranged(kept, by_edge)
        };
    let best = arranged(hits, by_fit);
    let kept = kept_of(best);
    kept_places_are_apart(best);
    semantics::ranking_covers(sims_of(hits), by_fit);
    semantics::ranking_covers(leftness(kept), by_edge);
    assert forall|k: int| 0 <= k < kept.len() implies hits.contains(#[trigger] kept[k]) by {
        assert(best.contains(kept[k]));
        let j = choose|j: int| 0 <= j < best.len() && best[j] == kept[k];
        assert(hits[by_fit[j] as int] == kept[k]);
    }
    assert forall|i: int| 0 <= i < line.len() implies hits.contains(#[trigger] line[i]) by {
        assert(line[i] == kept[by_edge[i] as int]);
    }
    assert forall|h: HitModel| kept.contains(h) implies line.contains(h) by {
        let p = choose|p: int| 0 <= p < kept.len() && kept[p] == h;
        assert(semantics::ranked_at(by_edge, p));
        let k = choose|k: int| 0 <= k < by_edge.len() && #[trigger] by_edge[k] == p;
        assert(line[k] == h);
    }
    assert forall|i: int, j: int| 0 <= i < j < line.len() implies (#[trigger] line[i]).x <= (
    #[trigger] line[j]).x by {
        semantics::best_comes_first(leftness(kept), by_edge, i, j);
        let a = kept[by_edge[i] as int];
        let b = kept[by_edge[j] as int];
        assert(line[i] == a && line[j] == b);
        assert(leftness(kept)[by_edge[i] as int] == (-1 - a.x) as i32);
        assert(leftness(kept)[by_edge[j] as int] == (-1 - b.x) as i32);
    }
    assert forall|i: int| 0 <= i < hits.len() implies line.contains(#[trigger] hits[i])
        || gives_way(line, hits[i]) by {
        assert(semantics::ranked_at(by_fit, i));
        let k = choose|k: int| 0 <= k < by_fit.len() && #[trigger] by_fit[k] == i;
        assert(best[k] == hits[i]);
        earlier_hit_is_kept(best, k);
        if !kept.contains(best[k]) {
            let j = choose|j: int|
                0 <= j < k && kept.contains(#[trigger] best[j]) && overlap(best[k], best[j]);
            semantics::best_comes_first(sims_of(hits), by_fit, j, k);
            assert(sims_of(hits)[by_fit[j] as int] == best[j].sim);
            assert(sims_of(hits)[by_fit[k] as int] == best[k].sim);
            assert(line.contains(best[j]));
            let p = choose|p: int| 0 <= p < line.len() && line[p] == best[j];
            assert(overlap(hits[i], line[p]));
        }
    }
}

/// Whether a hit gives way to one of a line: it overlaps one that matched at least
/// as well.
pub open spec fn gives_way(line: Seq<HitModel>, h: HitModel) -> bool {
    exists|p: int|
        0 <= p < line.len() && overlap(h, #[trigger] line[p]) && line[p].sim >= h.sim
}

/// A word that stands in a line is found, or one place of it that reaches over it
/// is: nothing is passed over.
pub proof fn words_are_not_passed_over(
    line: Seq<HitModel>,
    word: Seq<char>,
    reach: int,
    from: int,
    i: int,
)
    requires
        word.len() > 0,
        0 <= from <= i,
        word_at(line, word, reach, i),
    ensures
        exists|k: int|
            0 <= k < places(line, word, reach, from).len() && (#[trigger] places(
                line,
                word,
                reach,
                from,
            )[k]) <= i < places(line, word, reach, from)[k] + word.len(),
    decreases i - from,
{
    let all = places(line, word, reach, from);
    if word_at(line, word, reach, from) {
        let next = from + word.len();
        if i < next {
            assert(all[0] == from);
        } else {
            words_are_not_passed_over(line, word, reach, next, i);
            let rest = places(line, word, reach, next);
            let k = choose|k: int|
                0 <= k < rest.len() && (#[trigger] rest[k]) <= i < rest[k] + word.len();
            assert(all[k + 1] == rest[k]);
        }
    } else {
        words_are_not_passed_over(line, word, reach, from + 1, i);
    }
}

/// A word stands in a line where its letters follow each other, each to the right
/// of the one before and within reach of it.
pub proof fn words_stand_letter_by_letter(
    line: Seq<HitModel>,
    word: Seq<char>,
    reach: int,
    i: int,
    k: int,
)
    requires
        word_at(line, word, reach, i),
        0 <= k < word.len(),
    ensures
        i + word.len() <= line.len(),
        line[i + k].ch == seq![word[k]],
        k > 0 ==> line[i + k - 1].x < line[i + k].x <= line[i + k - 1].x + reach,
{
    assert(letter_at(line, word, reach, i, k));
}

/// The right edge of a word is that of the letter that reaches furthest.
pub proof fn right_edge_is_the_furthest(line: Seq<HitModel>, i: int, n: int, k: int)
    requires
        1 <= n,
        0 <= k < n,
    ensures
        line[i + k].x + line[i + k].w <= right_edge(line, i, n),
        exists|j: int|
            0 <= j < n && right_edge(line, i, n) == #[trigger] line[i + j].x + line[i + j].w,
    decreases n,
{
    if n > 1 {
        right_edge_is_the_furthest(
            line,
            i,
            n - 1,
            if k < n - 1 {
                k
            } else {
                0
            },
        );
        let j = choose|j: int|
            0 <= j < n - 1 && right_edge(line, i, n - 1) == #[trigger] line[i + j].x + line[i
                + j].w;
        let own = line[i + (n - 1)].x + line[i + (n - 1)].w;
        if right_edge(line, i, n) != own {
            assert(right_edge(line, i, n) == line[i + j].x + line[i + j].w);
        }
    } else {
        assert(right_edge(line, i, n) == line[i + 0].x + line[i + 0].w);
    }
}

/// A found word is told with its place on the screen, its extent and how well its
/// letters matched.
pub proof fn found_words_are_told(
    line: Seq<HitModel>,
    word: Seq<char>,
    i: int,
    region_x: i32,
    region_y: i32,
    k: int,
)
    ensures
        ({
            let m = match_at(line, word, i, region_x, region_y);
            &&& m.word == word
            &&& m.x == line[i].x + region_x
            &&& m.y == region_y
            &&& m.x + m.width == right_edge(line, i, word.len() as int) + region_x
            &&& m.sims.len() == word.len()
            &&& 0 <= k < word.len() ==> m.sims[k] == line[i + k].sim
        }),
{
}

/// The words are reported one after the other, each at all its places; and the
/// text of a line is its characters from the left.
pub proof fn words_are_reported_in_order(
    line: Seq<HitModel>,
    a: Seq<Seq<char>>,
    b: Seq<Seq<char>>,
    word: Seq<char>,
    reach: int,
    region_x: i32,
    region_y: i32,
    more: Seq<HitModel>,
    h: HitModel,
)
    ensures
        all_matches(line, a + b, reach, region_x, region_y) == all_matches(
            line,
            a,
            reach,
            region_x,
            region_y,
        ) + all_matches(line, b, reach, region_x, region_y),
        all_matches(line, seq![word], reach, region_x, region_y) == word_matches(
            line,
            word,
            reach,
            region_x,
            region_y,
        ),
        word_matches(line, word, reach, region_x, region_y).len() == places(
            line,
            word,
            reach,
            0,
        ).len(),
        line_text(line + more) == line_text(line) + line_text(more),
        line_text(seq![h]) == h.ch,
    decreases b.len() + more.len(),
{
    let one = seq![word];
    assert(one.drop_last() =~= Seq::<Seq<char>>::empty());
    assert(all_matches(line, one.drop_last(), reach, region_x, region_y) =~= Seq::<
        WordMatchModel,
    >::empty());
    assert(all_matches(line, one, reach, region_x, region_y) =~= word_matches(
        line,
        word,
        reach,
        region_x,
        region_y,
    ));
    assert(seq![h].drop_last() =~= Seq::<HitModel>::empty());
    assert(line_text(seq![h].drop_last()) =~= Seq::<char>::empty());
    assert(line_text(seq![h]) =~= h.ch);
    if b.len() == 0 {
        assert(a + b =~= a);
        assert(all_matches(line, a, reach, region_x, region_y) + all_matches(
            line,
            b,
            reach,
            region_x,
            region_y,
        ) =~= all_matches(line, a, reach, region_x, region_y));
    } else {
        words_are_reported_in_order(
            line,
            a,
            b.drop_last(),
            word,
            reach,
            region_x,
            region_y,
            more,
            h,
        );
        assert((a + b).last() == b.last());
        assert((a + b).drop_last() =~= a + b.drop_last());
        assert(all_matches(line, a + b, reach, region_x, region_y) =~= all_matches(
            line,
            a,
            reach,
            region_x,
            region_y,
        ) + all_matches(line, b, reach, region_x, region_y));
    }
    if more.len() == 0 {
        assert(line + more =~= line);
        assert(line_text(line) + line_text(more) =~= line_text(line));
    } else {
        words_are_reported_in_order(
            line,
            a,
            b,
            word,
            reach,
            region_x,
            region_y,
            more.drop_last(),
            h,
        );
        assert((line + more).last() == more.last());
        assert((line + more).drop_last() =~= line + more.drop_last());
        assert(line_text(line + more) =~= line_text(line) + line_text(more));
    }
}

/// The widest of some widths is one of them and no smaller than any.
pub proof fn widest_is_no_smaller(widths: Seq<u32>, i: int)
    ensures
        widths.len() == 0 ==> widest(widths) == 20,
        0 <= i < widths.len() ==> widths[i] <= widest(widths) && widths.contains(widest(widths)),
    decreases widths.len(),
{
    if widths.len() == 1 {
        assert(widths[0] == widest(widths));
    } else if widths.len() > 1 {
        let short = widths.drop_last();
        widest_is_no_smaller(
            short,
            if i < short.len() {
                i
            } else {
                0
            },
        );
        if 0 <= i < widths.len() {
            assert(short.contains(widest(short)));
            let k = choose|k: int| 0 <= k < short.len() && short[k] == widest(short);
            assert(widths[k] == widest(short));
            assert(widths[widths.len() - 1] == widths.last());
            if i < short.len() {
                assert(short[i] == widths[i]);
            }
        }
    }
}

/// The first template that could not be used.
pub proof fn first_unusable_is_first(attempts: Seq<Attempt>)
    ensures
        first_unusable(attempts) matches Some(i) ==> 0 <= i < attempts.len() && attempts[i]
            == Attempt::Unusable && forall|k: int|
            0 <= k < i ==> #[trigger] attempts[k] != Attempt::Unusable,
        first_unusable(attempts) is None ==> forall|k: int|
            0 <= k < attempts.len() ==> #[trigger] attempts[k] != Attempt::Unusable,
    decreases attempts.len(),
{
    if attempts.len() > 0 {
        let short = attempts.drop_last();
        first_unusable_is_first(short);
        assert forall|k: int| 0 <= k < short.len() implies #[trigger] attempts[k] == short[k] by {}
    }
}

/// An image that was not found is told by the place that came closest, moved to
/// where the searched part lies on the screen; else by a template that could not
/// be used. A template is found where it matched well enough at a place.
pub proof fn missed_images_are_told(attempts: Seq<Attempt>, rect: Rect, x: i32, y: i32)
    ensures
        closest(attempts) matches Some(i) ==> (attempts[i]->rect matches Some(r) ==> failed(
            attempts,
            x,
            y,
        ) == (ImageOutcome::Closest { template: i as usize, rect: moved(r, x, y) })),
        closest(attempts) is None ==> (first_unusable(attempts) matches Some(i) ==> failed(
            attempts,
            x,
            y,
        ) == (ImageOutcome::Unreadable { template: i as usize })),
        closest(attempts) is None && first_unusable(attempts) is None ==> failed(attempts, x, y)
            == ImageOutcome::Nothing,
        !(failed(attempts, x, y) is Found),
        i32::MIN <= rect.x + x <= i32::MAX ==> moved(rect, x, y).x == rect.x + x,
        i32::MIN <= rect.y + y <= i32::MAX ==> moved(rect, x, y).y == rect.y + y,
        moved(rect, x, y).w == rect.w && moved(rect, x, y).h == rect.h,
        !decisive(Attempt::Unusable),
{
}

/// A comparison settles a search where it is good enough and has a place.
pub proof fn good_matches_settle(enough: bool, confidence: i32, rect: Option<Rect>)
    ensures
        decisive(Attempt::Compared { enough, confidence, rect }) <==> enough && rect is Some,
{
}

/// The words that are searched for stand between strokes, without the blanks
/// around them; what is left blank is no word.
pub proof fn words_stand_between_strokes(words: Seq<char>)
    ensures
        words_model(words) == text::filled(text::pieces(words, '|')),
{
}

/// A report tells every place of every word, the text of the line, and a hint
/// exactly where nothing was found; letters of one word may stand two of the
/// widest letters apart.
pub proof fn reports_tell_all_places(
    r: TextReport,
    line: Seq<HitModel>,
    words: Seq<Seq<char>>,
    widths: Seq<u32>,
    region_x: i32,
    region_y: i32,
)
    requires
        reports(r, line, words, widths, region_x, region_y),
    ensures
        model::seq_view(r.matches@) == all_matches(
            line,
            words,
            2 * widest(widths),
            region_x,
            region_y,
        ),
        r.found <==> r.matches@.len() > 0,
        r.text@ == line_text(line),
        r.fallback_hint is None <==> r.found,
{
    assert(model::seq_view(r.matches@).len() == r.matches@.len());
}

} // verus!
