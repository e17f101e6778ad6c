use crate::chars::{
    find, find_from, first_occurrence, is_trimmed, lemma_find_from, lemma_find_from_is,
    lemma_trim_is_part, lemma_trim_is_trimmed, occurs_at, trim, trim_bounds,
};
use crate::text::{to_chars, to_text};
use vstd::prelude::*;

verus! {

/// The parts of `text` that lie between the successive occurrences of
/// `delimiter`, found from left to right. A text that does not hold the
/// delimiter is its own single part.
pub open spec fn split(text: Seq<char>, delimiter: Seq<char>) -> Seq<Seq<char>>
    decreases text.len(),
{
    let at = first_occurrence(text, delimiter);
    if delimiter.len() == 0 || at < 0 || at + delimiter.len() > text.len() {
        seq![text]
    } else {
        seq![text.subrange(0, at)] + split(
            text.subrange(at + delimiter.len(), text.len() as int),
            delimiter,
        )
    }
}

/// Every part split once more, the results kept in order.
pub open spec fn split_each(parts: Seq<Seq<char>>, delimiter: Seq<char>) -> Seq<Seq<char>>
    decreases parts.len(),
{
    if parts.len() == 0 {
        seq![]
    } else {
        split_each(parts.drop_last(), delimiter) + split(parts.last(), delimiter)
    }
}

/// The parts put together again with `delimiter` between neighbours.
pub open spec fn join(parts: Seq<Seq<char>>, delimiter: Seq<char>) -> Seq<char>
    decreases parts.len(),
{
    if parts.len() == 0 {
        seq![]
    } else if parts.len() == 1 {
        parts[0]
    } else {
        parts[0] + delimiter + join(parts.drop_first(), delimiter)
    }
}

/// The sentence delimiters, in the order in which they are applied.
pub open spec fn delimiters() -> Seq<Seq<char>> {
    seq![seq!['.', ' '], seq!['.', '\n'], seq!['?', ' '], seq!['!', '\n'], seq!['!', ' ']]
}

/// `text` cut at every sentence delimiter: one pass per delimiter, each pass
/// over what the pass before left.
pub open spec fn raw_segments(text: Seq<char>) -> Seq<Seq<char>> {
    let d = delimiters();
    split_each(split_each(split_each(split_each(split(text, d[0]), d[1]), d[2]), d[3]), d[4])
}

/// `s` with a space in place of every line break.
pub open spec fn unbreak(s: Seq<char>) -> Seq<char> {
    Seq::new(s.len(), |i: int| if s[i] == '\n' { ' ' } else { s[i] })
}

/// A raw segment on one line, without white space at its ends.
pub open spec fn tidy(s: Seq<char>) -> Seq<char> {
    trim(unbreak(s))
}

/// The sentences of `text`.
pub open spec fn segments(text: Seq<char>) -> Seq<Seq<char>> {
    let raw = raw_segments(text);
    Seq::new(raw.len(), |i: int| tidy(raw[i]))
}

/// Splitting gives at least one part.
pub proof fn lemma_split_is_nonempty(text: Seq<char>, delimiter: Seq<char>)
    ensures
        split(text, delimiter).len() >= 1,
    decreases text.len(),
{
    let at = first_occurrence(text, delimiter);
    if !(delimiter.len() == 0 || at < 0 || at + delimiter.len() > text.len()) {
        lemma_split_is_nonempty(
            text.subrange(at + delimiter.len(), text.len() as int),
            delimiter,
        );
    }
}

/// A pass over at least one part leaves at least one part.
pub proof fn lemma_split_each_is_nonempty(parts: Seq<Seq<char>>, delimiter: Seq<char>)
    requires
        parts.len() >= 1,
    ensures
        split_each(parts, delimiter).len() >= 1,
{
    lemma_split_is_nonempty(parts.last(), delimiter);
}

/// Joining the parts of a split with the delimiter gives the text back:
/// splitting neither adds nor loses a character, and keeps the order.
pub proof fn lemma_join_undoes_split(text: Seq<char>, delimiter: Seq<char>)
    ensures
        join(split(text, delimiter), delimiter) == text,
    decreases text.len(),
{
    let at = first_occurrence(text, delimiter);
    if !(delimiter.len() == 0 || at < 0 || at + delimiter.len() > text.len()) {
        let rest = text.subrange(at + delimiter.len(), text.len() as int);
        lemma_join_undoes_split(rest, delimiter);
        lemma_split_is_nonempty(rest, delimiter);
        lemma_find_from(text, delimiter, 0);
        let parts = split(text, delimiter);
        assert(parts.drop_first() =~= split(rest, delimiter));
        assert(text =~= text.subrange(0, at) + delimiter + rest);
    }
}

/// No part of a split holds the delimiter.
pub proof fn lemma_parts_hold_no_delimiter(text: Seq<char>, delimiter: Seq<char>, i: int)
    requires
        delimiter.len() > 0,
        0 <= i < split(text, delimiter).len(),
    ensures
        first_occurrence(split(text, delimiter)[i], delimiter) == -1,
    decreases text.len(),
{
    let at = first_occurrence(text, delimiter);
    lemma_find_from(text, delimiter, 0);
    if at < 0 || at + delimiter.len() > text.len() {
    } else {
        let rest = text.subrange(at + delimiter.len(), text.len() as int);
        if i == 0 {
            let head = text.subrange(0, at);
            lemma_find_from(head, delimiter, 0);
            let q = find_from(head, delimiter, 0);
            if q != -1 {
                assert(head.subrange(q, q + delimiter.len()) =~= text.subrange(
                    q,
                    q + delimiter.len(),
                ));
                assert(occurs_at(text, delimiter, q));
            }
        } else {
            lemma_parts_hold_no_delimiter(rest, delimiter, i - 1);
        }
    }
}

/// A text always has at least one sentence.
pub proof fn lemma_segments_are_nonempty(text: Seq<char>)
    ensures
        segments(text).len() >= 1,
{
    let d = delimiters();
    let p0 = split(text, d[0]);
    lemma_split_is_nonempty(text, d[0]);
    let p1 = split_each(p0, d[1]);
    lemma_split_each_is_nonempty(p0, d[1]);
    let p2 = split_each(p1, d[2]);
    lemma_split_each_is_nonempty(p1, d[2]);
    let p3 = split_each(p2, d[3]);
    lemma_split_each_is_nonempty(p2, d[3]);
    lemma_split_each_is_nonempty(p3, d[4]);
}

/// A tidied text holds no line break and has no white space at its ends.
pub proof fn lemma_tidy_is_clean(s: Seq<char>)
    ensures
        is_trimmed(tidy(s)),
        !tidy(s).contains('\n'),
        tidy(s).len() <= s.len(),
{
    let line = unbreak(s);
    lemma_trim_is_trimmed(line);
    lemma_trim_is_part(line);
    let (from, to) = choose|from: int, to: int|
        0 <= from <= to <= line.len() && trim(line) == line.subrange(from, to);
    if tidy(s).contains('\n') {
        let k = choose|k: int| 0 <= k < tidy(s).len() && tidy(s)[k] == '\n';
        assert(line[from + k] == '\n');
    }
}

/// Every sentence is trimmed and free of line breaks.
pub proof fn lemma_segments_are_clean(text: Seq<char>, i: int)
    requires
        0 <= i < segments(text).len(),
    ensures
        is_trimmed(segments(text)[i]),
        !segments(text)[i].contains('\n'),
{
    lemma_tidy_is_clean(raw_segments(text)[i]);
}

/// The parts of `chars` that `ranges` delimits.
pub open spec fn parts_of(chars: Seq<char>, ranges: Seq<(usize, usize)>) -> Seq<Seq<char>> {
    Seq::new(ranges.len(), |i: int| chars.subrange(ranges[i].0 as int, ranges[i].1 as int))
}

/// Every range lies inside `chars`.
pub open spec fn ranges_fit(chars: Seq<char>, ranges: Seq<(usize, usize)>) -> bool {
    forall|i: int| 0 <= i < ranges.len() ==> (#[trigger] ranges[i]).0 <= ranges[i].1 <= chars.len()
}

/// Searching a part of `hay` is searching `hay` from the part's start.
pub proof fn lemma_find_in_part(hay: Seq<char>, needle: Seq<char>, lo: int, hi: int)
    requires
        0 <= lo <= hi <= hay.len(),
    ensures
        ({
            let r = find_from(hay.subrange(0, hi), needle, lo);
            first_occurrence(hay.subrange(lo, hi), needle) == if r == -1 {
                -1
            } else {
                r - lo
            }
        }),
{
    let whole = hay.subrange(0, hi);
    let part = hay.subrange(lo, hi);
    assert forall|j: int| lo <= j implies occurs_at(whole, needle, j) == occurs_at(
        part,
        needle,
        j - lo,
    ) by {
        if j + needle.len() <= hi {
            assert(whole.subrange(j, j + needle.len()) =~= part.subrange(
                j - lo,
                j - lo + needle.len(),
            ));
        }
    }
    lemma_find_from(whole, needle, lo);
    lemma_find_from(part, needle, 0);
    let r = find_from(whole, needle, lo);
    if r != -1 {
        assert forall|j: int| 0 <= j < r - lo implies !occurs_at(part, needle, j) by {
            assert(occurs_at(whole, needle, j + lo) == occurs_at(part, needle, j));
        }
        lemma_find_from_is(part, needle, 0, r - lo);
    } else {
        let q = find_from(part, needle, 0);
        if q != -1 {
            assert(occurs_at(whole, needle, q + lo) == occurs_at(part, needle, q));
        }
    }
}

/// Cuts `chars[lo..hi]` at every occurrence of `delimiter` and appends the
/// ranges of the parts to `out`.
pub fn split_range(
    chars: &Vec<char>,
    lo: usize,
    hi: usize,
    delimiter: &Vec<char>,
    out: &mut Vec<(usize, usize)>,
)
    requires
        lo <= hi <= chars.len(),
        ranges_fit(chars@, old(out)@),
    ensures
        ranges_fit(chars@, final(out)@),
        parts_of(chars@, final(out)@) == parts_of(chars@, old(out)@) + split(
            chars@.subrange(lo as int, hi as int),
            delimiter@,
        ),
{
    let ghost before = parts_of(chars@, out@);
    let ghost goal = before + split(chars@.subrange(lo as int, hi as int), delimiter@);
    let mut pos: usize = lo;
    if delimiter.len() > 0 {
        loop
            invariant_except_break
                lo <= pos <= hi <= chars.len(),
                delimiter.len() > 0,
                ranges_fit(chars@, out@),
                parts_of(chars@, out@) + split(chars@.subrange(pos as int, hi as int), delimiter@)
                    == goal,
            ensures
                lo <= pos <= hi <= chars.len(),
                ranges_fit(chars@, out@),
                parts_of(chars@, out@) + seq![chars@.subrange(pos as int, hi as int)] == goal,
            decreases hi - pos,
        {
            let ghost rest = chars@.subrange(pos as int, hi as int);
            proof {
                lemma_find_in_part(chars@, delimiter@, pos as int, hi as int);
            }
            match find(chars, delimiter, pos, hi) {
                Some(at) => {
                    let ghost earlier = parts_of(chars@, out@);
                    out.push((pos, at));
                    proof {
                        let next = rest.subrange(at - pos + delimiter@.len(), rest.len() as int);
                        assert(rest.subrange(0, at - pos) =~= chars@.subrange(pos as int, at as int));
                        assert(next =~= chars@.subrange(at + delimiter@.len(), hi as int));
                        assert(parts_of(chars@, out@) =~= earlier + seq![
                            chars@.subrange(pos as int, at as int),
                        ]);
                        assert(split(rest, delimiter@) == seq![rest.subrange(0, at - pos)] + split(
                            next,
                            delimiter@,
                        ));
                        assert(parts_of(chars@, out@) + split(next, delimiter@) =~= earlier + split(
                            rest,
                            delimiter@,
                        ));
                    }
                    pos = at + delimiter.len();
                },
                None => {
                    assert(split(rest, delimiter@) == seq![rest]);
                    break ;
                },
            }
        }
    }
    let ghost earlier = parts_of(chars@, out@);
    out.push((pos, hi));
    assert(parts_of(chars@, out@) =~= earlier + seq![chars@.subrange(pos as int, hi as int)]);
}

/// One pass: every part that `ranges` delimits is cut at `delimiter`.
pub fn split_pass(chars: &Vec<char>, ranges: &Vec<(usize, usize)>, delimiter: &Vec<char>) -> (out: Vec<
    (usize, usize),
>)
    requires
        ranges_fit(chars@, ranges@),
    ensures
        ranges_fit(chars@, out@),
        parts_of(chars@, out@) == split_each(parts_of(chars@, ranges@), delimiter@),
{
    let mut out: Vec<(usize, usize)> = Vec::new();
    let ghost parts = parts_of(chars@, ranges@);
    let mut i: usize = 0;
    assert(parts_of(chars@, out@) =~= split_each(parts.take(0), delimiter@));
    while i < ranges.len()
        invariant
            i <= ranges.len(),
            ranges_fit(chars@, ranges@),
            ranges_fit(chars@, out@),
            parts == parts_of(chars@, ranges@),
            parts_of(chars@, out@) == split_each(parts.take(i as int), delimiter@),
        decreases ranges.len() - i,
    {
        let (lo, hi) = ranges[i];
        split_range(chars, lo, hi, delimiter, &mut out);
        proof {
            let upto = parts.take(i + 1);
            assert(upto.drop_last() =~= parts.take(i as int));
            assert(upto.last() == chars@.subrange(lo as int, hi as int));
        }
        i += 1;
    }
    assert(parts.take(i as int) =~= parts);
    out
}

/// The text `chars[lo..hi]` on one line and without white space at its ends.
pub fn tidy_range(chars: &Vec<char>, lo: usize, hi: usize) -> (r: String)
    requires
        lo <= hi <= chars.len(),
    ensures
        r@ == tidy(chars@.subrange(lo as int, hi as int)),
{
    let ghost raw = chars@.subrange(lo as int, hi as int);
    let mut line: Vec<char> = Vec::new();
    let mut i: usize = lo;
    while i < hi
        invariant
            lo <= i <= hi <= chars.len(),
            raw == chars@.subrange(lo as int, hi as int),
            line@ == unbreak(raw).take(i - lo),
        decreases hi - i,
    {
        let c = chars[i];
        line.push(if c == '\n' { ' ' } else { c });
        i += 1;
        assert(line@ =~= unbreak(raw).take(i - lo));
    }
    assert(line@ =~= unbreak(raw));
    let (from, to) = trim_bounds(&line, 0, line.len());
    assert(line@.subrange(0, line@.len() as int) =~= line@);
    to_text(&line, from, to)
}

/// Cuts `text` into its sentences: at every `". "`, `".\n"`, `"? "`, `"!\n"`
/// and `"! "`, one delimiter after the other; each sentence is then put on one
/// line and trimmed. A sentence may come out empty.
pub fn split_sentences(text: &str) -> (r: Vec<String>)
    ensures
        r@.len() == segments(text@).len(),
        forall|i: int| 0 <= i < r@.len() ==> (#[trigger] r@[i])@ == segments(text@)[i],
        r@.len() >= 1,
        forall|i: int|
            0 <= i < r@.len() ==> is_trimmed((#[trigger] r@[i])@) && !r@[i]@.contains('\n'),
{
    proof {
        lemma_segments_are_nonempty(text@);
        assert forall|i: int| 0 <= i < segments(text@).len() implies is_trimmed(
            #[trigger] segments(text@)[i],
        ) && !segments(text@)[i].contains('\n') by {
            lemma_segments_are_clean(text@, i);
        }
    }
    let chars = to_chars(text);
    let mut ranges: Vec<(usize, usize)> = Vec::new();
    let ghost d = delimiters();
    let first: Vec<char> = vec!['.', ' '];
    assert(first@ =~= d[0]);
    split_range(&chars, 0, chars.len(), &first, &mut ranges);
    assert(chars@.subrange(0, chars@.len() as int) =~= chars@);
    assert(parts_of(chars@, ranges@) =~= split(text@, d[0]));
    let second: Vec<char> = vec!['.', '\n'];
    assert(second@ =~= d[1]);
    let ranges = split_pass(&chars, &ranges, &second);
    let third: Vec<char> = vec!['?', ' '];
    assert(third@ =~= d[2]);
    let ranges = split_pass(&chars, &ranges, &third);
    let fourth: Vec<char> = vec!['!', '\n'];
    assert(fourth@ =~= d[3]);
    let ranges = split_pass(&chars, &ranges, &fourth);
    let fifth: Vec<char> = vec!['!', ' '];
    assert(fifth@ =~= d[4]);
    let ranges = split_pass(&chars, &ranges, &fifth);
    assert(parts_of(chars@, ranges@) == raw_segments(text@));
    let mut out: Vec<String> = Vec::new();
    let mut i: usize = 0;
    while i < ranges.len()
        invariant
            i <= ranges.len(),
            ranges_fit(chars@, ranges@),
            parts_of(chars@, ranges@) == raw_segments(text@),
            out@.len() == i,
            forall|k: int| 0 <= k < i ==> (#[trigger] out@[k])@ == segments(text@)[k],
        decreases ranges.len() - i,
    {
        let (lo, hi) = ranges[i];
        let sentence = tidy_range(&chars, lo, hi);
        assert(parts_of(chars@, ranges@)[i as int] == chars@.subrange(lo as int, hi as int));
        out.push(sentence);
        i += 1;
    }
    out
}

} // verus!
