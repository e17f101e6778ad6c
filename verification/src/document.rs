use crate::chars::{
    find, find_from, find_last, first_occurrence, last_occurrence, same_text, trim, trim_bounds,
};
use crate::markup::{group_slice, group_text};
use crate::matcher::{find_matches, matches_of, spans_fit};
use crate::segment::{lemma_find_in_part, parts_of, ranges_fit, split, split_range};
use crate::text::{to_chars, to_text};
use vstd::prelude::*;
use vstd::string::*;

verus! {

/// The fence that opens and closes the frontmatter.
pub open spec fn fence() -> Seq<char> {
    seq!['-', '-', '-']
}

/// The fence of a code block.
pub open spec fn code_fence() -> Seq<char> {
    seq!['`', '`', '`']
}

/// The frontmatter of a note: what stands between the first `---` and the
/// next, or the end of the note, trimmed. A note without `---` has none.
pub open spec fn frontmatter_of(file: Seq<char>) -> Option<Seq<char>> {
    let open = first_occurrence(file, fence());
    if open < 0 {
        None
    } else {
        let close = find_from(file, fence(), open + 3);
        Some(trim(file.subrange(open + 3, if close < 0 { file.len() as int } else { close })))
    }
}

/// The body of a note: what follows the last code fence, or the whole note
/// where it has none, trimmed.
pub open spec fn text_content_of(file: Seq<char>) -> Seq<char> {
    let at = last_occurrence(file, code_fence());
    trim(file.subrange(if at < 0 { 0 } else { at + 3 }, file.len() as int))
}

/// `s` up to the first `c`; all of `s` where it holds none.
pub open spec fn before_first(s: Seq<char>, c: char) -> Seq<char> {
    let at = first_occurrence(s, seq![c]);
    if at < 0 {
        s
    } else {
        s.subrange(0, at)
    }
}

/// `s` behind the last `c`; all of `s` where it holds none.
pub open spec fn after_last(s: Seq<char>, c: char) -> Seq<char> {
    let at = last_occurrence(s, seq![c]);
    if at < 0 {
        s
    } else {
        s.subrange(at + 1, s.len() as int)
    }
}

/// The regular expression of an embedded player.
pub open spec fn iframe_pattern() -> Seq<char> {
    r#"<iframe.*?src="(.*?)".*?>"#@
}

/// The address of the video that stands in for a note without a player.
pub open spec fn default_video() -> Seq<char> {
    "https://www.youtube.com/watch?v=H0j_xIm4fW0"@
}

/// The address to watch the video whose player has the source `source`: the
/// last step of its path, without the query, is the video's name.
pub open spec fn watch_address(source: Seq<char>) -> Seq<char> {
    "https://www.youtube.com/watch?v="@ + after_last(before_first(source, '?'), '/')
}

/// The video that a text refers to, given the matches of the player pattern
/// in it: that of the first player, or else the default.
pub open spec fn video_from(text: Seq<char>, found: Seq<Seq<Option<(usize, usize)>>>) -> Seq<char> {
    if found.len() > 0 && found[0].len() > 1 && found[0][1] is Some {
        watch_address(group_text(text, found[0], 1))
    } else {
        default_video()
    }
}

/// The video that a note refers to.
pub open spec fn youtube_url_of(text: Seq<char>) -> Seq<char> {
    video_from(text, matches_of(iframe_pattern(), text))
}

/// Whether a line holds white space only.
pub open spec fn is_blank(line: Seq<char>) -> bool {
    trim(line).len() == 0
}

/// The key and the value of a frontmatter line: what stands before its first
/// colon and what stands behind it, both trimmed. A line without a colon is
/// no entry.
pub open spec fn entry_of(line: Seq<char>) -> Option<(Seq<char>, Seq<char>)> {
    let at = first_occurrence(line, seq![':']);
    if at < 0 {
        None
    } else {
        Some((trim(line.subrange(0, at)), trim(line.subrange(at + 1, line.len() as int))))
    }
}

/// The entries of `lines`, in order, blank lines left out; none at all where
/// a line that is not blank is no entry.
pub open spec fn entries_from(lines: Seq<Seq<char>>) -> Option<Seq<(Seq<char>, Seq<char>)>>
    decreases lines.len(),
{
    if lines.len() == 0 {
        Some(seq![])
    } else {
        match entries_from(lines.drop_last()) {
            None => None,
            Some(earlier) => if is_blank(lines.last()) {
                Some(earlier)
            } else {
                match entry_of(lines.last()) {
                    None => None,
                    Some(entry) => Some(earlier.push(entry)),
                }
            },
        }
    }
}

/// The entries of a frontmatter, one for each of its lines that is not blank.
pub open spec fn entries_of(frontmatter: Seq<char>) -> Option<Seq<(Seq<char>, Seq<char>)>> {
    entries_from(split(frontmatter, seq!['\n']))
}

/// The truth value that `value` spells: `true` or `false`, nothing else.
pub open spec fn bool_of(value: Seq<char>) -> Option<bool> {
    if value == "true"@ {
        Some(true)
    } else if value == "false"@ {
        Some(false)
    } else {
        None
    }
}

/// Reads the entries of a frontmatter: each line that is not blank gives a
/// key and a value, parted by its first colon. `None` where such a line has
/// no colon.
pub fn frontmatter_entries(frontmatter: &str) -> (r: Option<Vec<(String, String)>>)
    ensures
        match r {
            Some(entries) => entries_of(frontmatter@) == Some(entries.deep_view()),
            None => entries_of(frontmatter@) is None,
        },
{
    let chars = to_chars(frontmatter);
    let newline: Vec<char> = vec!['\n'];
    let colon: Vec<char> = vec![':'];
    assert(newline@ =~= seq!['\n']);
    assert(colon@ =~= seq![':']);
    let mut ranges: Vec<(usize, usize)> = Vec::new();
    split_range(&chars, 0, chars.len(), &newline, &mut ranges);
    assert(chars@.subrange(0, chars@.len() as int) =~= chars@);
    let ghost lines = parts_of(chars@, ranges@);
    assert(lines =~= split(frontmatter@, seq!['\n']));
    let mut out: Vec<(String, String)> = Vec::new();
    let mut i: usize = 0;
    assert(lines.take(0) =~= Seq::<Seq<char>>::empty());
    assert(out.deep_view() =~= Seq::<(Seq<char>, Seq<char>)>::empty());
    while i < ranges.len()
        invariant
            i <= ranges.len(),
            ranges_fit(chars@, ranges@),
            lines == parts_of(chars@, ranges@),
            lines == split(frontmatter@, seq!['\n']),
            colon@ == seq![':'],
            entries_from(lines.take(i as int)) == Some(out.deep_view()),
        decreases ranges.len() - i,
    {
        let (lo, hi) = ranges[i];
        let ghost line = chars@.subrange(lo as int, hi as int);
        let ghost earlier = out.deep_view();
        proof {
            let upto = lines.take(i + 1);
            assert(upto.drop_last() =~= lines.take(i as int));
            assert(upto.last() == line);
            lemma_find_in_part(chars@, colon@, lo as int, hi as int);
        }
        let (from, to) = trim_bounds(&chars, lo, hi);
        if from < to {
            match find(&chars, &colon, lo, hi) {
                None => {
                    assert(entries_from(lines.take(i + 1)) is None);
                    proof {
                        lemma_entries_stay_none(lines, i + 1);
                    }
                    return None;
                },
                Some(at) => {
                    let (key_from, key_to) = trim_bounds(&chars, lo, at);
                    let (value_from, value_to) = trim_bounds(&chars, at + 1, hi);
                    let key = to_text(&chars, key_from, key_to);
                    let value = to_text(&chars, value_from, value_to);
                    proof {
                        assert(line.subrange(0, at - lo) =~= chars@.subrange(lo as int, at as int));
                        assert(line.subrange(at - lo + 1, line.len() as int) =~= chars@.subrange(
                            at + 1,
                            hi as int,
                        ));
                    }
                    out.push((key, value));
                    assert(out.deep_view() =~= earlier.push((key@, value@)));
                },
            }
        }
        i += 1;
    }
    assert(lines.take(i as int) =~= lines);
    Some(out)
}

/// The truth value that `value` spells, if it spells one.
pub fn parse_bool(value: &str) -> (r: Option<bool>)
    ensures
        r == bool_of(value@),
{
    let chars = to_chars(value);
    if same_text(&chars, &to_chars("true")) {
        Some(true)
    } else if same_text(&chars, &to_chars("false")) {
        Some(false)
    } else {
        None
    }
}

/// Once a line is no entry, no later line makes up for it.
proof fn lemma_entries_stay_none(lines: Seq<Seq<char>>, upto: int)
    requires
        0 <= upto <= lines.len(),
        entries_from(lines.take(upto)) is None,
    ensures
        entries_from(lines) is None,
    decreases lines.len() - upto,
{
    if upto == lines.len() {
        assert(lines.take(upto) =~= lines);
    } else {
        let next = lines.take(upto + 1);
        assert(next.drop_last() =~= lines.take(upto));
        lemma_entries_stay_none(lines, upto + 1);
    }
}

/// The frontmatter of the note `file`.
pub fn extract_frontmatter(file: &str) -> (r: Option<String>)
    ensures
        match r {
            Some(found) => frontmatter_of(file@) == Some(found@),
            None => frontmatter_of(file@) is None,
        },
{
    let chars = to_chars(file);
    let dashes: Vec<char> = vec!['-', '-', '-'];
    assert(dashes@ =~= fence());
    assert(chars@.subrange(0, chars@.len() as int) =~= chars@);
    match find(&chars, &dashes, 0, chars.len()) {
        None => None,
        Some(open) => {
            let close = match find(&chars, &dashes, open + 3, chars.len()) {
                Some(at) => at,
                None => chars.len(),
            };
            let (from, to) = trim_bounds(&chars, open + 3, close);
            Some(to_text(&chars, from, to))
        },
    }
}

/// The body of the note `file`.
pub fn extract_text_content(file: &str) -> (r: String)
    ensures
        r@ == text_content_of(file@),
{
    let chars = to_chars(file);
    let ticks: Vec<char> = vec!['`', '`', '`'];
    assert(ticks@ =~= code_fence());
    let start = match find_last(&chars, &ticks) {
        Some(at) => at + 3,
        None => 0,
    };
    let (from, to) = trim_bounds(&chars, start, chars.len());
    to_text(&chars, from, to)
}

/// The address to watch the video whose player has the source `source`.
pub fn watch_url(source: &str) -> (r: String)
    ensures
        r@ == watch_address(source@),
{
    let chars = to_chars(source);
    let question: Vec<char> = vec!['?'];
    let slash: Vec<char> = vec!['/'];
    assert(question@ =~= seq!['?']);
    assert(slash@ =~= seq!['/']);
    assert(chars@.subrange(0, chars@.len() as int) =~= chars@);
    let end = match find(&chars, &question, 0, chars.len()) {
        Some(at) => at,
        None => chars.len(),
    };
    let mut path: Vec<char> = Vec::new();
    let mut i: usize = 0;
    while i < end
        invariant
            i <= end <= chars.len(),
            path@ == chars@.subrange(0, i as int),
        decreases end - i,
    {
        path.push(chars[i]);
        i += 1;
        assert(path@ =~= chars@.subrange(0, i as int));
    }
    assert(path@ =~= before_first(source@, '?'));
    let start = match find_last(&path, &slash) {
        Some(at) => at + 1,
        None => 0,
    };
    assert(path@.subrange(0, path@.len() as int) =~= path@);
    let mut out = String::from_str("https://www.youtube.com/watch?v=");
    out.append(to_text(&path, start, path.len()).as_str());
    out
}

/// Picks the video that `text` refers to from the matches of the player
/// pattern in it.
pub fn video_from_matches(text: &str, found: &Vec<Vec<Option<(usize, usize)>>>) -> (r: String)
    requires
        spans_fit(text@, found.deep_view()),
    ensures
        r@ == video_from(text@, found.deep_view()),
{
    if found.len() > 0 {
        let groups = &found[0];
        assert(found.deep_view()[0] == groups.deep_view());
        if groups.len() > 1 {
            assert(groups.deep_view()[1] == groups@[1].deep_view());
            if groups[1].is_some() {
                return watch_url(group_slice(text, groups, 1));
            }
        }
    }
    String::from_str("https://www.youtube.com/watch?v=H0j_xIm4fW0")
}

/// Finds the video that a note refers to: the source of its first embedded
/// player names the video; a note without a player gets the default video.
pub fn extract_youtube_url_from_text_content(text_content: &str) -> (r: Result<String, String>)
    ensures
        r matches Ok(url) && url@ == youtube_url_of(text_content@),
{
    let found = find_matches(r#"<iframe.*?src="(.*?)".*?>"#, text_content);
    Ok(video_from_matches(text_content, &found))
}

} // verus!
