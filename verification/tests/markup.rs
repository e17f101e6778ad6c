use text_to_video::markup::{apply, process_sentence, rewrite_with, rules, Rule};

#[test]
fn bold_and_aliased_reference() {
    assert_eq!(
        process_sentence("She said *hello* to [[Bob | Bobby]]."),
        "She said {\\b1\\c&HFF0000&}hello{\\b0\\c&HFFFFFF&} to {\\c&H800080&}Bobby{\\c&HFFFFFF&}."
    );
}

#[test]
fn local_image_becomes_label() {
    assert_eq!(
        process_sentence("![[cat.png]] is cute."),
        "{\\c&H0000FF&}{\\b1\\c&HFFFFFF&}LOCAL IMG{\\b0\\c&HFFFFFF&} is cute."
    );
}

#[test]
fn hosted_image_becomes_label() {
    assert_eq!(
        process_sentence("See ![a cat](https://example.com/cat.png) here"),
        "See {\\c&H0000FF&}{\\b1\\c&HFFFFFF&}HOSTED IMG{\\b0\\c&HFFFFFF&} here"
    );
}

#[test]
fn footnote_is_raised() {
    assert_eq!(
        process_sentence("Fact^[{source}]."),
        "Fact{\\up1\\c&HFFFFFF&}source{\\up0\\c&HFFFFFF&}."
    );
}

#[test]
fn reference_without_alias_shows_its_text() {
    assert_eq!(process_sentence("[[Bob]]"), "{\\c&H800080&}Bob{\\c&HFFFFFF&}");
}

#[test]
fn reference_alias_is_trimmed() {
    assert_eq!(process_sentence("[[Bob |   Bobby  ]]"), "{\\c&H800080&}Bobby{\\c&HFFFFFF&}");
    assert_eq!(process_sentence("[[Bob |]]"), "{\\c&H800080&}{\\c&HFFFFFF&}");
    // Without the space before the bar there is no alias.
    assert_eq!(process_sentence("[[Bob|Bobby]]"), "{\\c&H800080&}Bob|Bobby{\\c&HFFFFFF&}");
}

#[test]
fn underscore_emphasis_is_italic() {
    assert_eq!(
        process_sentence("an _important_ word"),
        "an {\\i1\\c&H00FF00&}important{\\i0\\c&HFFFFFF&} word"
    );
}

#[test]
fn backticks_are_coloured() {
    assert_eq!(process_sentence("run `ls` now"), "run {\\c&H808080&}ls{\\c&HFFFFFF&} now");
}

#[test]
fn plain_text_is_unchanged() {
    assert_eq!(process_sentence("Nothing to see here."), "Nothing to see here.");
    assert_eq!(process_sentence(""), "");
    assert_eq!(process_sentence("caf\u{e9} \u{4e16}\u{754c}"), "caf\u{e9} \u{4e16}\u{754c}");
}

#[test]
fn unbalanced_markup_stays_literal() {
    assert_eq!(process_sentence("a * b"), "a * b");
    assert_eq!(process_sentence("snake_case"), "snake_case");
    assert_eq!(process_sentence("[[open"), "[[open");
    assert_eq!(process_sentence("**"), "**");
    assert_eq!(process_sentence("![[half"), "![[half");
}

#[test]
fn image_rules_come_before_the_reference_rule() {
    // Were references rewritten first, the image would lose its brackets.
    let out = process_sentence("![[a.png]] and [[b]]");
    assert_eq!(
        out,
        "{\\c&H0000FF&}{\\b1\\c&HFFFFFF&}LOCAL IMG{\\b0\\c&HFFFFFF&} and {\\c&H800080&}b{\\c&HFFFFFF&}"
    );
    assert_eq!(
        apply(Rule::Reference, "![[a.png]]"),
        "!{\\c&H800080&}a.png{\\c&HFFFFFF&}"
    );
}

#[test]
fn passes_run_in_the_documented_order() {
    assert_eq!(
        rules(),
        vec![
            Rule::Footnote,
            Rule::LocalImage,
            Rule::HostedImage,
            Rule::Reference,
            Rule::Emphasis,
            Rule::Bold,
            Rule::Code,
        ]
    );
    let mut text = String::from("^[{n}] _e_ *b* `c` [[r]]");
    for rule in rules() {
        text = apply(rule, &text);
    }
    assert_eq!(text, process_sentence("^[{n}] _e_ *b* `c` [[r]]"));
}

#[test]
fn inserted_tags_are_inert_to_later_passes() {
    let once = process_sentence("*b* and _i_");
    assert_eq!(
        once,
        "{\\b1\\c&HFF0000&}b{\\b0\\c&HFFFFFF&} and {\\i1\\c&H00FF00&}i{\\i0\\c&HFFFFFF&}"
    );
    assert_eq!(process_sentence(&once), once);
}

#[test]
fn several_matches_and_wide_characters() {
    assert_eq!(
        process_sentence("\u{e9}*a*\u{4e16}*\u{754c}*!"),
        "\u{e9}{\\b1\\c&HFF0000&}a{\\b0\\c&HFFFFFF&}\u{4e16}{\\b1\\c&HFF0000&}\u{754c}{\\b0\\c&HFFFFFF&}!"
    );
}

#[test]
fn rewrite_with_given_matches() {
    let matches = vec![vec![Some((2, 5)), Some((3, 4))]];
    assert_eq!(
        rewrite_with(Rule::Bold, "a *b* c", &matches),
        "a {\\b1\\c&HFF0000&}b{\\b0\\c&HFFFFFF&} c"
    );
    assert_eq!(rewrite_with(Rule::Bold, "a *b* c", &Vec::new()), "a *b* c");
    // A match without its first group shows nothing between the tags.
    assert_eq!(
        rewrite_with(Rule::Code, "xyz", &vec![vec![Some((1, 2))]]),
        "x{\\c&H808080&}{\\c&HFFFFFF&}z"
    );
    assert_eq!(
        rewrite_with(Rule::Code, "xyz", &vec![vec![Some((1, 2)), None]]),
        "x{\\c&H808080&}{\\c&HFFFFFF&}z"
    );
}
