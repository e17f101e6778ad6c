use crate::chars::{find, first_occurrence, trim, trim_bounds};
use crate::matcher::{find_matches, groups_fit, match_end, match_start, matches_of, spans_fit};
use crate::text::{
    byte_slice, byte_tail, lemma_piece_all, on_boundary, piece, to_chars, to_text,
};
use vstd::prelude::*;
use vstd::string::*;
use vstd::utf8::*;

verus! {

/// An inline markup construct that is rewritten into subtitle styling.
#[derive(Clone, Copy, Debug, PartialEq, Eq, Structural)]
pub enum Rule {
    /// `^[{note}]`, shown raised.
    Footnote,
    /// `![[file]]`, shown as a fixed label.
    LocalImage,
    /// `![alt](url)`, shown as a fixed label.
    HostedImage,
    /// `[[text]]` or `[[text | alias]]`, shown without brackets.
    Reference,
    /// `_text_`, shown in italics.
    Emphasis,
    /// `*text*`, shown in bold.
    Bold,
    /// `` `text` ``, shown in its own colour.
    Code,
}

/// The rules in the order in which they are applied. The order matters: the
/// image syntaxes hold the reference syntax, so they must be rewritten first.
pub open spec fn rule_order() -> Seq<Rule> {
    seq![
        Rule::Footnote,
        Rule::LocalImage,
        Rule::HostedImage,
        Rule::Reference,
        Rule::Emphasis,
        Rule::Bold,
        Rule::Code,
    ]
}

/// The regular expression that finds the construct of `rule`.
pub open spec fn pattern_of(rule: Rule) -> Seq<char> {
    match rule {
        Rule::Footnote => r"\^\[\{(.*?)\}\]"@,
        Rule::LocalImage => r"!\[\[(.*?)\]\]"@,
        Rule::HostedImage => r"!\[(.*?)\]\((.*?)\)"@,
        Rule::Reference => r"\[\[(.*?)\]\]"@,
        Rule::Emphasis => r"_([^_]+)_"@,
        Rule::Bold => r"\*([^*]+)\*"@,
        Rule::Code => r"`([^`]+)`"@,
    }
}

/// The override tags put in front of what `rule` shows.
pub open spec fn opening_of(rule: Rule) -> Seq<char> {
    match rule {
        Rule::Footnote => "{\\up1\\c&HFFFFFF&}"@,
        Rule::LocalImage => "{\\c&H0000FF&}{\\b1\\c&HFFFFFF&}"@,
        Rule::HostedImage => "{\\c&H0000FF&}{\\b1\\c&HFFFFFF&}"@,
        Rule::Reference => "{\\c&H800080&}"@,
        Rule::Emphasis => "{\\i1\\c&H00FF00&}"@,
        Rule::Bold => "{\\b1\\c&HFF0000&}"@,
        Rule::Code => "{\\c&H808080&}"@,
    }
}

/// The override tags put behind what `rule` shows: they switch the style off
/// and the colour back to white.
pub open spec fn closing_of(rule: Rule) -> Seq<char> {
    match rule {
        Rule::Footnote => "{\\up0\\c&HFFFFFF&}"@,
        Rule::LocalImage => "{\\b0\\c&HFFFFFF&}"@,
        Rule::HostedImage => "{\\b0\\c&HFFFFFF&}"@,
        Rule::Reference => "{\\c&HFFFFFF&}"@,
        Rule::Emphasis => "{\\i0\\c&HFFFFFF&}"@,
        Rule::Bold => "{\\b0\\c&HFFFFFF&}"@,
        Rule::Code => "{\\c&HFFFFFF&}"@,
    }
}

/// The text of group `k` of a match; empty where the match has no such group.
pub open spec fn group_text(text: Seq<char>, groups: Seq<Option<(usize, usize)>>, k: int) -> Seq<
    char,
> {
    if 0 <= k < groups.len() {
        match groups[k] {
            Some((start, end)) => piece(text, start as int, end as int),
            None => seq![],
        }
    } else {
        seq![]
    }
}

/// What a reference shows: the alias behind the first `" |"`, trimmed, or
/// else the whole of what the brackets hold.
pub open spec fn display_name(inner: Seq<char>) -> Seq<char> {
    let at = first_occurrence(inner, seq![' ', '|']);
    if at < 0 {
        inner
    } else {
        trim(inner.subrange(at + 2, inner.len() as int))
    }
}

/// What `rule` shows for one match: a fixed label for an image, the alias or
/// text of a reference, and otherwise what the first group holds.
pub open spec fn shown(rule: Rule, text: Seq<char>, groups: Seq<Option<(usize, usize)>>) -> Seq<
    char,
> {
    match rule {
        Rule::LocalImage => "LOCAL IMG"@,
        Rule::HostedImage => "HOSTED IMG"@,
        Rule::Reference => display_name(group_text(text, groups, 1)),
        _ => group_text(text, groups, 1),
    }
}

/// What takes the place of one match.
pub open spec fn replacement(rule: Rule, text: Seq<char>, groups: Seq<Option<(usize, usize)>>) -> Seq<
    char,
> {
    opening_of(rule) + shown(rule, text, groups) + closing_of(rule)
}

/// `text` from byte offset `pos` on, with the matches from number `from` on
/// replaced.
pub open spec fn rewrite_from(
    rule: Rule,
    text: Seq<char>,
    matches: Seq<Seq<Option<(usize, usize)>>>,
    from: int,
    pos: int,
) -> Seq<char>
    decreases matches.len() - from,
{
    if from < 0 || from >= matches.len() {
        piece(text, pos, encode_utf8(text).len() as int)
    } else {
        piece(text, pos, match_start(matches[from])) + replacement(rule, text, matches[from])
            + rewrite_from(rule, text, matches, from + 1, match_end(matches[from]))
    }
}

/// `text` with every match replaced and all that lies between them kept.
pub open spec fn rewrite(rule: Rule, text: Seq<char>, matches: Seq<Seq<Option<(usize, usize)>>>) -> Seq<
    char,
> {
    rewrite_from(rule, text, matches, 0, 0)
}

/// One pass: every match of the rule's pattern replaced.
pub open spec fn apply_rule(rule: Rule, text: Seq<char>) -> Seq<char> {
    rewrite(rule, text, matches_of(pattern_of(rule), text))
}

/// The passes of `rules` one after the other, each on the output of the one
/// before.
pub open spec fn apply_rules(rules: Seq<Rule>, text: Seq<char>) -> Seq<char>
    decreases rules.len(),
{
    if rules.len() == 0 {
        text
    } else {
        apply_rule(rules.last(), apply_rules(rules.drop_last(), text))
    }
}

/// The sentence with its markup turned into subtitle override tags.
pub open spec fn translate(text: Seq<char>) -> Seq<char> {
    apply_rules(rule_order(), text)
}

/// Whether `text` holds the construct of `rule`.
pub open spec fn has_markup(rule: Rule, text: Seq<char>) -> bool {
    matches_of(pattern_of(rule), text).len() > 0
}

/// A pass over a text that does not hold its construct returns the text as
/// it is.
pub proof fn lemma_pass_keeps_plain_text(rule: Rule, text: Seq<char>)
    requires
        !has_markup(rule, text),
    ensures
        apply_rule(rule, text) == text,
{
    lemma_piece_all(text);
}

/// Passes over a text that holds none of their constructs return the text as
/// it is.
pub proof fn lemma_passes_keep_plain_text(rules: Seq<Rule>, text: Seq<char>)
    requires
        forall|i: int| 0 <= i < rules.len() ==> !has_markup(#[trigger] rules[i], text),
    ensures
        apply_rules(rules, text) == text,
    decreases rules.len(),
{
    if rules.len() > 0 {
        let earlier = rules.drop_last();
        assert forall|i: int| 0 <= i < earlier.len() implies !has_markup(
            #[trigger] earlier[i],
            text,
        ) by {
            assert(earlier[i] == rules[i]);
        }
        lemma_passes_keep_plain_text(earlier, text);
        lemma_pass_keeps_plain_text(rules.last(), text);
    }
}

/// A text that holds no markup comes back unchanged. So a second run over
/// styled output changes nothing, as long as the output holds no markup any
/// more.
pub proof fn lemma_translate_keeps_plain_text(text: Seq<char>)
    requires
        forall|rule: Rule| !has_markup(rule, text),
    ensures
        translate(text) == text,
{
    lemma_passes_keep_plain_text(rule_order(), text);
}

/// The rules in the order in which they are applied.
pub fn rules() -> (r: Vec<Rule>)
    ensures
        r@ == rule_order(),
{
    let r = vec![
        Rule::Footnote,
        Rule::LocalImage,
        Rule::HostedImage,
        Rule::Reference,
        Rule::Emphasis,
        Rule::Bold,
        Rule::Code,
    ];
    assert(r@ =~= rule_order());
    r
}

/// The regular expression that finds the construct of `rule`.
pub fn pattern(rule: Rule) -> (r: &'static str)
    ensures
        r@ == pattern_of(rule),
{
    match rule {
        Rule::Footnote => r"\^\[\{(.*?)\}\]",
        Rule::LocalImage => r"!\[\[(.*?)\]\]",
        Rule::HostedImage => r"!\[(.*?)\]\((.*?)\)",
        Rule::Reference => r"\[\[(.*?)\]\]",
        Rule::Emphasis => r"_([^_]+)_",
        Rule::Bold => r"\*([^*]+)\*",
        Rule::Code => r"`([^`]+)`",
    }
}

/// The override tags put in front of what `rule` shows.
pub fn opening(rule: Rule) -> (r: &'static str)
    ensures
        r@ == opening_of(rule),
{
    match rule {
        Rule::Footnote => "{\\up1\\c&HFFFFFF&}",
        Rule::LocalImage => "{\\c&H0000FF&}{\\b1\\c&HFFFFFF&}",
        Rule::HostedImage => "{\\c&H0000FF&}{\\b1\\c&HFFFFFF&}",
        Rule::Reference => "{\\c&H800080&}",
        Rule::Emphasis => "{\\i1\\c&H00FF00&}",
        Rule::Bold => "{\\b1\\c&HFF0000&}",
        Rule::Code => "{\\c&H808080&}",
    }
}

/// The override tags put behind what `rule` shows.
pub fn closing(rule: Rule) -> (r: &'static str)
    ensures
        r@ == closing_of(rule),
{
    match rule {
        Rule::Footnote => "{\\up0\\c&HFFFFFF&}",
        Rule::LocalImage => "{\\b0\\c&HFFFFFF&}",
        Rule::HostedImage => "{\\b0\\c&HFFFFFF&}",
        Rule::Reference => "{\\c&HFFFFFF&}",
        Rule::Emphasis => "{\\i0\\c&HFFFFFF&}",
        Rule::Bold => "{\\b0\\c&HFFFFFF&}",
        Rule::Code => "{\\c&HFFFFFF&}",
    }
}

/// The text of group `k` of a match.
pub fn group_slice<'a>(text: &'a str, groups: &Vec<Option<(usize, usize)>>, k: usize) -> (r: &'a str)
    requires
        groups_fit(text@, groups.deep_view()),
    ensures
        r@ == group_text(text@, groups.deep_view(), k as int),
{
    if k < groups.len() {
        match groups[k] {
            Some((start, end)) => {
                assert(groups.deep_view()[k as int] == Some((start, end)));
                byte_slice(text, start, end)
            },
            None => {
                assert(groups.deep_view()[k as int] == None::<(usize, usize)>);
                proof {
                    reveal_strlit("");
                }
                assert(""@ =~= Seq::<char>::empty());
                ""
            },
        }
    } else {
        proof {
            reveal_strlit("");
        }
        assert(""@ =~= Seq::<char>::empty());
        ""
    }
}

/// What a reference shows for the text between its brackets.
pub fn reference_name(inner: &str) -> (r: String)
    ensures
        r@ == display_name(inner@),
{
    let chars = to_chars(inner);
    let bar: Vec<char> = vec![' ', '|'];
    assert(bar@ =~= seq![' ', '|']);
    assert(chars@.subrange(0, chars@.len() as int) =~= chars@);
    match find(&chars, &bar, 0, chars.len()) {
        Some(at) => {
            let (from, to) = trim_bounds(&chars, at + 2, chars.len());
            to_text(&chars, from, to)
        },
        None => to_text(&chars, 0, chars.len()),
    }
}

/// What `rule` shows for one match.
pub fn shown_text(rule: Rule, text: &str, groups: &Vec<Option<(usize, usize)>>) -> (r: String)
    requires
        groups_fit(text@, groups.deep_view()),
    ensures
        r@ == shown(rule, text@, groups.deep_view()),
{
    match rule {
        Rule::LocalImage => String::from_str("LOCAL IMG"),
        Rule::HostedImage => String::from_str("HOSTED IMG"),
        Rule::Reference => reference_name(group_slice(text, groups, 1)),
        _ => String::from_str(group_slice(text, groups, 1)),
    }
}

/// `text` with every one of `matches` replaced as `rule` says, and all that
/// lies between them kept.
pub fn rewrite_with(rule: Rule, text: &str, matches: &Vec<Vec<Option<(usize, usize)>>>) -> (r: String)
    requires
        spans_fit(text@, matches.deep_view()),
    ensures
        r@ == rewrite(rule, text@, matches.deep_view()),
{
    let ghost ms = matches.deep_view();
    let mut out = String::new();
    let mut pos: usize = 0;
    let mut i: usize = 0;
    proof {
        lemma_piece_all(text@);
        assert(out@ + rewrite_from(rule, text@, ms, 0, 0) =~= rewrite(rule, text@, ms));
    }
    while i < matches.len()
        invariant
            i <= matches.len(),
            ms == matches.deep_view(),
            spans_fit(text@, ms),
            on_boundary(text@, pos as int),
            i == 0 ==> pos == 0,
            i > 0 ==> pos == match_end(ms[i - 1]),
            out@ + rewrite_from(rule, text@, ms, i as int, pos as int) == rewrite(rule, text@, ms),
        decreases matches.len() - i,
    {
        let groups = &matches[i];
        assert(groups.deep_view() == ms[i as int]);
        assert(groups_fit(text@, ms[i as int]));
        match groups[0] {
            Some((start, end)) => {
                assert(ms[i as int][0] == Some((start, end)));
                assert(pos <= start) by {
                    if i > 0 {
                        assert(match_end(ms[i - 1]) <= match_start(ms[i as int]));
                    }
                }
                let ghost before = out@;
                out.append(byte_slice(text, pos, start));
                out.append(opening(rule));
                let middle = shown_text(rule, text, groups);
                out.append(middle.as_str());
                out.append(closing(rule));
                proof {
                    assert(out@ =~= before + (piece(text@, pos as int, start as int) + replacement(
                        rule,
                        text@,
                        ms[i as int],
                    )));
                    assert(out@ + rewrite_from(rule, text@, ms, i + 1, end as int) =~= before
                        + rewrite_from(rule, text@, ms, i as int, pos as int));
                }
                pos = end;
            },
            None => {
                // Every match has its group 0.
                assert(ms[i as int][0] is Some);
            },
        }
        i += 1;
    }
    out.append(byte_tail(text, pos));
    out
}

/// One pass over `text`: every construct of `rule` in it rewritten.
pub fn apply(rule: Rule, text: &str) -> (r: String)
    ensures
        r@ == apply_rule(rule, text@),
{
    let matches = find_matches(pattern(rule), text);
    rewrite_with(rule, text, &matches)
}

/// Turns the markup of one sentence into subtitle override tags: footnotes,
/// local images, hosted images, references, underscore emphasis, asterisk
/// emphasis and code spans, in this order, each pass on the output of the one
/// before. What no rule matches stays as it is.
pub fn process_sentence(sentence: &str) -> (r: String)
    ensures
        r@ == translate(sentence@),
{
    let order = rules();
    let mut current = String::from_str(sentence);
    let mut i: usize = 0;
    assert(order@.take(0) =~= Seq::<Rule>::empty());
    while i < order.len()
        invariant
            i <= order.len(),
            order@ == rule_order(),
            current@ == apply_rules(order@.take(i as int), sentence@),
        decreases order.len() - i,
    {
        let next = apply(order[i], current.as_str());
        proof {
            let upto = order@.take(i + 1);
            assert(upto.drop_last() =~= order@.take(i as int));
            assert(upto.last() == order@[i as int]);
        }
        current = next;
        i += 1;
    }
    assert(order@.take(i as int) =~= order@);
    current
}

} // verus!
