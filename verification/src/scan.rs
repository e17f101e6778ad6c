use crate::chars::{lemma_find_from, lemma_find_from_is, occurs_at};
use crate::segment::{delimiters, raw_segments, segments, split, split_each, tidy};
use vstd::prelude::*;

verus! {

/// Whether one of `delimiters` stands in `text` at index `at`.
pub open spec fn any_at(text: Seq<char>, delimiters: Seq<Seq<char>>, at: int) -> bool {
    exists|k: int| 0 <= k < delimiters.len() && occurs_at(text, #[trigger] delimiters[k], at)
}

/// The least index from `start` on at which one of `delimiters` stands in
/// `text`, or -1 where there is none.
pub open spec fn first_cut(text: Seq<char>, delimiters: Seq<Seq<char>>, start: int) -> int
    decreases text.len() + 1 - start,
{
    if start < 0 || start >= text.len() {
        -1
    } else if any_at(text, delimiters, start) {
        start
    } else {
        first_cut(text, delimiters, start + 1)
    }
}

/// `text` cut in one sweep from left to right at every place where one of
/// `delimiters` stands.
pub open spec fn cut(text: Seq<char>, delimiters: Seq<Seq<char>>) -> Seq<Seq<char>>
    decreases text.len(),
{
    let at = first_cut(text, delimiters, 0);
    if at < 0 || at + 2 > text.len() {
        seq![text]
    } else {
        seq![text.subrange(0, at)] + cut(text.subrange(at + 2, text.len() as int), delimiters)
    }
}

/// Every delimiter is two characters long, and none begins with the
/// character that another, or itself, ends with: two of them never overlap.
pub open spec fn stand_apart(delimiters: Seq<Seq<char>>) -> bool {
    &&& forall|k: int| 0 <= k < delimiters.len() ==> (#[trigger] delimiters[k]).len() == 2
    &&& forall|j: int, k: int|
        0 <= j < delimiters.len() && 0 <= k < delimiters.len() ==> (#[trigger] delimiters[j])[1] != (
        #[trigger] delimiters[k])[0]
}

/// `first_cut` returns the least place at or after `start`, if there is one.
pub proof fn lemma_first_cut(text: Seq<char>, delimiters: Seq<Seq<char>>, start: int)
    requires
        0 <= start,
        stand_apart(delimiters),
    ensures
        ({
            let r = first_cut(text, delimiters, start);
            &&& r == -1 || (start <= r && r + 2 <= text.len() && any_at(text, delimiters, r))
            &&& forall|j: int| start <= j && (j < r || r == -1) ==> !any_at(text, delimiters, j)
        }),
    decreases text.len() + 1 - start,
{
    if start >= text.len() {
        assert forall|j: int| start <= j implies !any_at(text, delimiters, j) by {
            if any_at(text, delimiters, j) {
                let k = choose|k: int|
                    0 <= k < delimiters.len() && occurs_at(text, #[trigger] delimiters[k], j);
                assert(delimiters[k].len() == 2);
            }
        }
    } else if any_at(text, delimiters, start) {
        let k = choose|k: int|
            0 <= k < delimiters.len() && occurs_at(text, #[trigger] delimiters[k], start);
        assert(delimiters[k].len() == 2);
    } else {
        lemma_first_cut(text, delimiters, start + 1);
    }
}

/// A place with none before it is the one `first_cut` returns.
pub proof fn lemma_first_cut_is(text: Seq<char>, delimiters: Seq<Seq<char>>, start: int, at: int)
    requires
        0 <= start <= at < text.len(),
        any_at(text, delimiters, at),
        forall|j: int| start <= j < at ==> !any_at(text, delimiters, j),
    ensures
        first_cut(text, delimiters, start) == at,
    decreases at - start,
{
    if start < at {
        lemma_first_cut_is(text, delimiters, start + 1, at);
    }
}

/// A delimiter stands in a part of `text` where it stands in `text` itself,
/// as far as the part reaches.
pub proof fn lemma_occurs_in_part(text: Seq<char>, d: Seq<char>, lo: int, hi: int, j: int)
    requires
        0 <= lo <= hi <= text.len(),
    ensures
        occurs_at(text.subrange(lo, hi), d, j) <==> (0 <= j && j + d.len() <= hi - lo && occurs_at(
            text,
            d,
            j + lo,
        )),
{
    let part = text.subrange(lo, hi);
    if 0 <= j && j + d.len() <= hi - lo {
        assert(part.subrange(j, j + d.len()) =~= text.subrange(j + lo, j + lo + d.len()));
    }
}

/// The same for any of a list of delimiters.
pub proof fn lemma_any_in_part(text: Seq<char>, delimiters: Seq<Seq<char>>, lo: int, hi: int, j: int)
    requires
        0 <= lo <= hi <= text.len(),
        stand_apart(delimiters),
    ensures
        any_at(text.subrange(lo, hi), delimiters, j) <==> (0 <= j && j + 2 <= hi - lo && any_at(
            text,
            delimiters,
            j + lo,
        )),
{
    let part = text.subrange(lo, hi);
    if any_at(part, delimiters, j) {
        let k = choose|k: int|
            0 <= k < delimiters.len() && occurs_at(part, #[trigger] delimiters[k], j);
        lemma_occurs_in_part(text, delimiters[k], lo, hi, j);
    }
    if 0 <= j && j + 2 <= hi - lo && any_at(text, delimiters, j + lo) {
        let k = choose|k: int|
            0 <= k < delimiters.len() && occurs_at(text, #[trigger] delimiters[k], j + lo);
        lemma_occurs_in_part(text, delimiters[k], lo, hi, j);
    }
}

/// A text is split at the first occurrence of the delimiter.
pub proof fn lemma_split_at_first(text: Seq<char>, d: Seq<char>, at: int)
    requires
        d.len() > 0,
        occurs_at(text, d, at),
        forall|j: int| 0 <= j < at ==> !occurs_at(text, d, j),
    ensures
        split(text, d) == seq![text.subrange(0, at)] + split(
            text.subrange(at + d.len(), text.len() as int),
            d,
        ),
{
    lemma_find_from_is(text, d, 0, at);
}

/// A text that does not hold the delimiter is its own single part.
pub proof fn lemma_split_without(text: Seq<char>, d: Seq<char>)
    requires
        forall|j: int| 0 <= j ==> !occurs_at(text, d, j),
    ensures
        split(text, d) == seq![text],
{
    lemma_find_from(text, d, 0);
}

/// A pass over two runs of parts is the pass over the first followed by the
/// pass over the second.
pub proof fn lemma_split_each_concat(a: Seq<Seq<char>>, b: Seq<Seq<char>>, d: Seq<char>)
    ensures
        split_each(a + b, d) == split_each(a, d) + split_each(b, d),
    decreases b.len(),
{
    if b.len() == 0 {
        assert(a + b =~= a);
        assert(split_each(a, d) + split_each(b, d) =~= split_each(a, d));
    } else {
        lemma_split_each_concat(a, b.drop_last(), d);
        assert((a + b).drop_last() =~= a + b.drop_last());
        assert((a + b).last() == b.last());
        assert(split_each(a + b, d) =~= split_each(a, d) + (split_each(b.drop_last(), d) + split(
            b.last(),
            d,
        )));
    }
}

/// A pass over one part splits that part.
pub proof fn lemma_split_each_one(x: Seq<char>, d: Seq<char>)
    ensures
        split_each(seq![x], d) == split(x, d),
{
    let one = seq![x];
    assert(one.drop_last() =~= Seq::<Seq<char>>::empty());
    assert(split_each(one.drop_last(), d) =~= Seq::<Seq<char>>::empty());
    assert(split_each(one, d) =~= split(x, d));
}

/// The first delimiters of a list that stands apart stand apart.
pub proof fn lemma_take_stands_apart(delimiters: Seq<Seq<char>>, k: int)
    requires
        stand_apart(delimiters),
        0 <= k <= delimiters.len(),
    ensures
        stand_apart(delimiters.take(k)),
{
    let first = delimiters.take(k);
    assert forall|j: int| 0 <= j < first.len() implies (#[trigger] first[j]).len() == 2 by {
        assert(first[j] == delimiters[j]);
    }
    assert forall|i: int, j: int| 0 <= i < first.len() && 0 <= j < first.len() implies (
    #[trigger] first[i])[1] != (#[trigger] first[j])[0] by {
        assert(first[i] == delimiters[i]);
        assert(first[j] == delimiters[j]);
    }
}

/// One of the first `k + 1` delimiters stands at a place where one of the
/// first `k` does, or delimiter `k` itself.
pub proof fn lemma_any_one_more(text: Seq<char>, delimiters: Seq<Seq<char>>, k: int, at: int)
    requires
        0 <= k < delimiters.len(),
    ensures
        any_at(text, delimiters.take(k + 1), at) <==> (any_at(text, delimiters.take(k), at)
            || occurs_at(text, delimiters[k], at)),
{
    let fewer = delimiters.take(k);
    let more = delimiters.take(k + 1);
    if any_at(text, more, at) {
        let j = choose|j: int| 0 <= j < more.len() && occurs_at(text, #[trigger] more[j], at);
        if j < k {
            assert(fewer[j] == more[j]);
        }
    }
    if any_at(text, fewer, at) {
        let j = choose|j: int| 0 <= j < fewer.len() && occurs_at(text, #[trigger] fewer[j], at);
        assert(more[j] == fewer[j]);
    }
    if occurs_at(text, delimiters[k], at) {
        assert(more[k] == delimiters[k]);
    }
}

/// A text that holds none of the delimiters is cut into itself alone.
pub proof fn lemma_cut_without(text: Seq<char>, delimiters: Seq<Seq<char>>)
    requires
        stand_apart(delimiters),
        forall|j: int| 0 <= j ==> !any_at(text, delimiters, j),
    ensures
        cut(text, delimiters) == seq![text],
{
    lemma_first_cut(text, delimiters, 0);
}

/// A text is cut at the first place where a delimiter stands.
pub proof fn lemma_cut_at_first(text: Seq<char>, delimiters: Seq<Seq<char>>, at: int)
    requires
        stand_apart(delimiters),
        0 <= at,
        any_at(text, delimiters, at),
        forall|j: int| 0 <= j < at ==> !any_at(text, delimiters, j),
    ensures
        at + 2 <= text.len(),
        cut(text, delimiters) == seq![text.subrange(0, at)] + cut(
            text.subrange(at + 2, text.len() as int),
            delimiters,
        ),
{
    let k = choose|k: int| 0 <= k < delimiters.len() && occurs_at(text, #[trigger] delimiters[k], at);
    assert(delimiters[k].len() == 2);
    lemma_first_cut_is(text, delimiters, 0, at);
}

/// Cutting at the first `k` delimiters in one sweep and then splitting every
/// part at delimiter `k` gives what one sweep with the first `k + 1`
/// delimiters gives.
pub proof fn lemma_pass_extends_cut(text: Seq<char>, delimiters: Seq<Seq<char>>, k: int)
    requires
        stand_apart(delimiters),
        0 <= k < delimiters.len(),
    ensures
        split_each(cut(text, delimiters.take(k)), delimiters[k]) == cut(
            text,
            delimiters.take(k + 1),
        ),
    decreases text.len(),
{
    let fewer = delimiters.take(k);
    let more = delimiters.take(k + 1);
    let d = delimiters[k];
    let n = text.len() as int;
    lemma_take_stands_apart(delimiters, k);
    lemma_take_stands_apart(delimiters, k + 1);
    assert forall|j: int| any_at(text, more, j) <==> (any_at(text, fewer, j) || occurs_at(
        text,
        d,
        j,
    )) by {
        lemma_any_one_more(text, delimiters, k, j);
    }
    lemma_first_cut(text, more, 0);
    lemma_first_cut(text, fewer, 0);
    let at = first_cut(text, more, 0);
    if at == -1 {
        lemma_cut_without(text, fewer);
        lemma_cut_without(text, more);
        lemma_split_without(text, d);
        lemma_split_each_one(text, d);
    } else {
        let head = text.subrange(0, at);
        let rest = text.subrange(at + 2, n);
        lemma_cut_at_first(text, more, at);
        lemma_pass_extends_cut(rest, delimiters, k);
        // The part before the first cut holds no delimiter `k`.
        assert forall|j: int| 0 <= j implies !occurs_at(head, d, j) by {
            lemma_occurs_in_part(text, d, 0, at, j);
        }
        lemma_split_without(head, d);
        lemma_split_each_one(head, d);
        if any_at(text, fewer, at) {
            lemma_cut_at_first(text, fewer, at);
            lemma_split_each_concat(seq![head], cut(rest, fewer), d);
        } else {
            assert(occurs_at(text, d, at));
            assert(d.len() == 2);
            lemma_split_at_first(text, d, at);
            let later = first_cut(text, fewer, 0);
            if later == -1 {
                lemma_cut_without(text, fewer);
                lemma_split_each_one(text, d);
                assert forall|j: int| 0 <= j implies !any_at(rest, fewer, j) by {
                    lemma_any_in_part(text, fewer, at + 2, n, j);
                }
                lemma_cut_without(rest, fewer);
                lemma_split_each_one(rest, d);
            } else {
                // The next delimiter of the first `k` stands clear of this one.
                assert(later >= at + 2) by {
                    if later == at + 1 {
                        let j = choose|j: int|
                            0 <= j < fewer.len() && occurs_at(text, #[trigger] fewer[j], later);
                        assert(fewer[j] == delimiters[j]);
                        assert(fewer[j].len() == 2);
                        assert(text.subrange(later, later + 2)[0] == text[later]);
                        assert(text.subrange(at, at + 2)[1] == text[at + 1]);
                        assert(delimiters[k][1] != delimiters[j][0]);
                    }
                }
                lemma_cut_at_first(text, fewer, later);
                let front = text.subrange(0, later);
                let tail = text.subrange(later + 2, n);
                let between = text.subrange(at + 2, later);
                // The pass over the sweep of the whole text.
                lemma_split_each_concat(seq![front], cut(tail, fewer), d);
                lemma_split_each_one(front, d);
                assert(occurs_at(front, d, at)) by {
                    lemma_occurs_in_part(text, d, 0, later, at);
                }
                assert forall|j: int| 0 <= j < at implies !occurs_at(front, d, j) by {
                    lemma_occurs_in_part(text, d, 0, later, j);
                }
                lemma_split_at_first(front, d, at);
                assert(front.subrange(0, at) =~= head);
                assert(front.subrange(at + 2, front.len() as int) =~= between);
                // The sweep of what follows the first cut.
                assert(any_at(rest, fewer, later - at - 2)) by {
                    lemma_any_in_part(text, fewer, at + 2, n, later - at - 2);
                }
                assert forall|j: int| 0 <= j < later - at - 2 implies !any_at(rest, fewer, j) by {
                    lemma_any_in_part(text, fewer, at + 2, n, j);
                }
                lemma_cut_at_first(rest, fewer, later - at - 2);
                assert(rest.subrange(0, later - at - 2) =~= between);
                assert(rest.subrange(later - at, rest.len() as int) =~= tail);
                lemma_split_each_concat(seq![between], cut(tail, fewer), d);
                lemma_split_each_one(between, d);
                let done = split_each(cut(tail, fewer), d);
                assert(split_each(cut(text, fewer), d) =~= seq![head] + (split(between, d) + done));
            }
        }
    }
}

/// The delimiters at which a sweep cuts `text`, in the order in which it
/// meets them.
pub open spec fn cut_marks(text: Seq<char>, delimiters: Seq<Seq<char>>) -> Seq<Seq<char>>
    decreases text.len(),
{
    let at = first_cut(text, delimiters, 0);
    if at < 0 || at + 2 > text.len() {
        seq![]
    } else {
        seq![text.subrange(at, at + 2)] + cut_marks(
            text.subrange(at + 2, text.len() as int),
            delimiters,
        )
    }
}

/// The sentences put together again, each followed by its separator but the
/// last.
pub open spec fn interleave(sentences: Seq<Seq<char>>, separators: Seq<Seq<char>>) -> Seq<char>
    decreases sentences.len(),
{
    if sentences.len() == 0 {
        seq![]
    } else if sentences.len() == 1 || separators.len() == 0 {
        sentences[0]
    } else {
        sentences[0] + separators[0] + interleave(
            sentences.drop_first(),
            separators.drop_first(),
        )
    }
}

/// Whether `s` is one of `delimiters`.
pub open spec fn is_one_of(s: Seq<char>, delimiters: Seq<Seq<char>>) -> bool {
    exists|k: int| 0 <= k < delimiters.len() && s == #[trigger] delimiters[k]
}

/// Whether none of `delimiters` stands anywhere in `s`.
pub open spec fn holds_none(s: Seq<char>, delimiters: Seq<Seq<char>>) -> bool {
    forall|j: int| 0 <= j ==> !any_at(s, delimiters, j)
}

/// The sentence delimiters never overlap.
pub proof fn lemma_delimiters_stand_apart()
    ensures
        stand_apart(delimiters()),
        delimiters().len() == 5,
{
    let d = delimiters();
    assert forall|k: int| 0 <= k < d.len() implies (#[trigger] d[k]).len() == 2 by {
        assert(d[0].len() == 2 && d[1].len() == 2 && d[2].len() == 2 && d[3].len() == 2 && d[4].len()
            == 2);
    }
    assert forall|j: int, k: int| 0 <= j < d.len() && 0 <= k < d.len() implies (#[trigger] d[j])[1]
        != (#[trigger] d[k])[0] by {
        assert(d[0][1] == ' ' && d[1][1] == '\n' && d[2][1] == ' ' && d[3][1] == '\n' && d[4][1]
            == ' ');
        assert(d[0][0] == '.' && d[1][0] == '.' && d[2][0] == '?' && d[3][0] == '!' && d[4][0]
            == '!');
    }
}

/// The passes of the segmenter, one delimiter after the other, cut a text
/// exactly where one sweep from left to right finds any of the delimiters:
/// the order of the passes does not show in the result.
pub proof fn lemma_passes_are_one_sweep(text: Seq<char>)
    ensures
        raw_segments(text) == cut(text, delimiters()),
{
    let d = delimiters();
    lemma_delimiters_stand_apart();
    lemma_take_stands_apart(d, 0);
    assert forall|j: int| 0 <= j implies !any_at(text, d.take(0), j) by {}
    lemma_cut_without(text, d.take(0));
    lemma_split_each_one(text, d[0]);
    lemma_pass_extends_cut(text, d, 0);
    lemma_pass_extends_cut(text, d, 1);
    lemma_pass_extends_cut(text, d, 2);
    lemma_pass_extends_cut(text, d, 3);
    lemma_pass_extends_cut(text, d, 4);
    assert(d.take(5) =~= d);
}

/// A sweep loses nothing: its parts, put together again with the delimiters
/// it found between them, are the text. There is one delimiter fewer than
/// there are parts, and each is one of the list.
pub proof fn lemma_interleave_undoes_cut(text: Seq<char>, delimiters: Seq<Seq<char>>)
    requires
        stand_apart(delimiters),
    ensures
        cut(text, delimiters).len() == cut_marks(text, delimiters).len() + 1,
        forall|i: int|
            0 <= i < cut_marks(text, delimiters).len() ==> is_one_of(
                #[trigger] cut_marks(text, delimiters)[i],
                delimiters,
            ),
        interleave(cut(text, delimiters), cut_marks(text, delimiters)) == text,
    decreases text.len(),
{
    lemma_first_cut(text, delimiters, 0);
    let at = first_cut(text, delimiters, 0);
    if at >= 0 {
        let rest = text.subrange(at + 2, text.len() as int);
        lemma_interleave_undoes_cut(rest, delimiters);
        let parts = cut(text, delimiters);
        let marks = cut_marks(text, delimiters);
        assert(parts.drop_first() =~= cut(rest, delimiters));
        assert(marks.drop_first() =~= cut_marks(rest, delimiters));
        let k = choose|k: int|
            0 <= k < delimiters.len() && occurs_at(text, #[trigger] delimiters[k], at);
        assert(marks[0] == delimiters[k]);
        assert forall|i: int| 0 <= i < marks.len() implies is_one_of(
            #[trigger] marks[i],
            delimiters,
        ) by {
            if i > 0 {
                assert(marks[i] == cut_marks(rest, delimiters)[i - 1]);
            }
        }
        assert(text =~= text.subrange(0, at) + text.subrange(at, at + 2) + rest);
    }
}

/// A sweep over sentences that were put together with delimiters finds the
/// sentences again, each one and in their order, as long as no sentence holds
/// a delimiter itself.
pub proof fn lemma_cut_undoes_interleave(
    sentences: Seq<Seq<char>>,
    separators: Seq<Seq<char>>,
    delimiters: Seq<Seq<char>>,
)
    requires
        stand_apart(delimiters),
        sentences.len() == separators.len() + 1,
        forall|i: int| 0 <= i < separators.len() ==> is_one_of(#[trigger] separators[i], delimiters),
        forall|i: int| 0 <= i < sentences.len() ==> holds_none(#[trigger] sentences[i], delimiters),
    ensures
        cut(interleave(sentences, separators), delimiters) == sentences,
    decreases sentences.len(),
{
    let text = interleave(sentences, separators);
    let first = sentences[0];
    assert(holds_none(first, delimiters));
    if sentences.len() == 1 {
        lemma_cut_without(first, delimiters);
        assert(seq![first] =~= sentences);
    } else {
        let later = sentences.drop_first();
        let marks = separators.drop_first();
        assert forall|i: int| 0 <= i < marks.len() implies is_one_of(
            #[trigger] marks[i],
            delimiters,
        ) by {
            assert(marks[i] == separators[i + 1]);
        }
        assert forall|i: int| 0 <= i < later.len() implies holds_none(
            #[trigger] later[i],
            delimiters,
        ) by {
            assert(later[i] == sentences[i + 1]);
        }
        lemma_cut_undoes_interleave(later, marks, delimiters);
        let rest = interleave(later, marks);
        let mark = separators[0];
        let at = first.len() as int;
        assert(is_one_of(mark, delimiters));
        let k = choose|k: int| 0 <= k < delimiters.len() && mark == #[trigger] delimiters[k];
        assert(mark.len() == 2);
        assert(text == first + mark + rest);
        assert(text.subrange(at, at + 2) =~= mark);
        assert(occurs_at(text, delimiters[k], at));
        assert(text.subrange(0, at) =~= first);
        assert(text.subrange(at + 2, text.len() as int) =~= rest);
        assert forall|j: int| 0 <= j < at implies !any_at(text, delimiters, j) by {
            if any_at(text, delimiters, j) {
                let m = choose|m: int|
                    0 <= m < delimiters.len() && occurs_at(text, #[trigger] delimiters[m], j);
                assert(delimiters[m].len() == 2);
                if j + 2 <= at {
                    lemma_occurs_in_part(text, delimiters[m], 0, at, j);
                    assert(any_at(first, delimiters, j));
                } else {
                    assert(text.subrange(j, j + 2)[1] == text[at]);
                    assert(text[at] == mark[0]);
                    assert(delimiters[m][1] != delimiters[k][0]);
                }
            }
        }
        lemma_cut_at_first(text, delimiters, at);
        assert(seq![first] + later =~= sentences);
    }
}

/// Of a paragraph made of sentences with a sentence delimiter between each
/// two, where no sentence holds a delimiter itself, the segmenter returns one
/// segment for each sentence, in their order: the sentence on one line and
/// trimmed, and nothing else changed.
pub proof fn lemma_sentences_are_recovered(sentences: Seq<Seq<char>>, separators: Seq<Seq<char>>)
    requires
        sentences.len() == separators.len() + 1,
        forall|i: int|
            0 <= i < separators.len() ==> is_one_of(#[trigger] separators[i], delimiters()),
        forall|i: int|
            0 <= i < sentences.len() ==> holds_none(#[trigger] sentences[i], delimiters()),
    ensures
        raw_segments(interleave(sentences, separators)) == sentences,
        segments(interleave(sentences, separators)).len() == sentences.len(),
        forall|i: int|
            0 <= i < sentences.len() ==> #[trigger] segments(interleave(sentences, separators))[i]
                == tidy(sentences[i]),
{
    lemma_delimiters_stand_apart();
    lemma_passes_are_one_sweep(interleave(sentences, separators));
    lemma_cut_undoes_interleave(sentences, separators, delimiters());
}

/// Of any text, the raw segments put together again with the delimiters that
/// stood between them are the text: the segmenter drops the delimiters and
/// nothing else, and keeps the order.
pub proof fn lemma_segments_rejoin(text: Seq<char>)
    ensures
        raw_segments(text).len() == cut_marks(text, delimiters()).len() + 1,
        forall|i: int|
            0 <= i < cut_marks(text, delimiters()).len() ==> is_one_of(
                #[trigger] cut_marks(text, delimiters())[i],
                delimiters(),
            ),
        interleave(raw_segments(text), cut_marks(text, delimiters())) == text,
{
    lemma_delimiters_stand_apart();
    lemma_passes_are_one_sweep(text);
    lemma_interleave_undoes_cut(text, delimiters());
}

} // verus!
