use text_to_video::chars::{find, is_whitespace, matches_at, trim_bounds};
use text_to_video::segment::{split_pass, split_range, split_sentences, tidy_range};
use text_to_video::text::{byte_slice, byte_tail, to_chars, to_text};

#[test]
fn sentences_are_split_and_trimmed() {
    assert_eq!(
        split_sentences("One. Two?  Three!\nFour.\nFive! Six"),
        vec!["One", "Two", "Three", "Four", "Five", "Six"]
    );
}

#[test]
fn three_plain_sentences() {
    assert_eq!(
        split_sentences("The sky is blue. Water is wet. Fire is hot."),
        vec!["The sky is blue", "Water is wet", "Fire is hot."]
    );
}

#[test]
fn text_without_delimiter_is_one_sentence() {
    assert_eq!(split_sentences("just words"), vec!["just words"]);
    assert_eq!(split_sentences(""), vec![""]);
    assert_eq!(split_sentences("Really?\nYes"), vec!["Really? Yes"]);
}

#[test]
fn trailing_delimiter_leaves_an_empty_sentence() {
    assert_eq!(split_sentences("Done. "), vec!["Done", ""]);
    assert_eq!(split_sentences("A. . B"), vec!["A", "", "B"]);
}

#[test]
fn line_breaks_become_spaces() {
    assert_eq!(split_sentences("first\nline. second\n\nline"), vec!["first line", "second  line"]);
}

#[test]
fn segmentation_agrees_with_successive_std_splits() {
    let samples = [
        "",
        "a. b.\nc? d!\ne! f",
        "x..  y!! z?? w",
        ". . . ",
        "Mr. Smith went.\nHome! \n Why? Because.",
        "\u{e9}t\u{e9}. \u{4e16}\u{754c}!\n\u{a0}ok\u{a0}",
        "!\n! . .\n? ",
    ];
    for text in samples {
        let expected: Vec<String> = text
            .split(". ")
            .flat_map(|s| s.split(".\n"))
            .flat_map(|s| s.split("? "))
            .flat_map(|s| s.split("!\n"))
            .flat_map(|s| s.split("! "))
            .map(|s| s.replace("\n", " ").trim().to_string())
            .collect();
        assert_eq!(split_sentences(text), expected, "{:?}", text);
    }
}

#[test]
fn sentences_are_clean() {
    for s in split_sentences("  a\n b .\n\t c!  \n d ? e \n") {
        assert!(!s.contains('\n'));
        assert_eq!(s.trim(), s);
    }
}

#[test]
fn whitespace_agrees_with_std() {
    let mut code: u32 = 0;
    while code <= 0x10FFFF {
        if let Some(c) = char::from_u32(code) {
            assert_eq!(is_whitespace(c), c.is_whitespace(), "U+{:04X}", code);
        }
        code += 1;
    }
}

#[test]
fn trim_bounds_agree_with_std() {
    for text in ["", "   ", " a ", "a", "\u{3000}x y\u{a0}\n", "\t\r\nab"] {
        let chars: Vec<char> = text.chars().collect();
        let (from, to) = trim_bounds(&chars, 0, chars.len());
        let got: String = chars[from..to].iter().collect();
        assert_eq!(got, text.trim(), "{:?}", text);
    }
    let chars: Vec<char> = "ab  cd  ef".chars().collect();
    assert_eq!(trim_bounds(&chars, 2, 8), (4, 6));
}

#[test]
fn find_returns_the_first_occurrence() {
    let hay: Vec<char> = "abcabc".chars().collect();
    let bc: Vec<char> = "bc".chars().collect();
    assert_eq!(find(&hay, &bc, 0, 6), Some(1));
    assert_eq!(find(&hay, &bc, 2, 6), Some(4));
    assert_eq!(find(&hay, &bc, 2, 5), None);
    assert_eq!(find(&hay, &bc, 5, 6), None);
    assert_eq!(find(&hay, &Vec::new(), 3, 6), Some(3));
    assert!(matches_at(&hay, &bc, 4));
    assert!(!matches_at(&hay, &bc, 3));
}

#[test]
fn split_range_appends_the_parts() {
    let chars: Vec<char> = "a, b, c".chars().collect();
    let comma: Vec<char> = ", ".chars().collect();
    let mut out = vec![(0, 0)];
    split_range(&chars, 0, chars.len(), &comma, &mut out);
    assert_eq!(out, vec![(0, 0), (0, 1), (3, 4), (6, 7)]);
    let mut whole = Vec::new();
    split_range(&chars, 1, 5, &Vec::new(), &mut whole);
    assert_eq!(whole, vec![(1, 5)]);
    let again = split_pass(&chars, &out, &vec![' ']);
    assert_eq!(again, vec![(0, 0), (0, 1), (3, 4), (6, 7)]);
}

#[test]
fn tidy_range_cleans_one_part() {
    let chars: Vec<char> = "x  a\nb \n y".chars().collect();
    assert_eq!(tidy_range(&chars, 1, 8), "a b");
    assert_eq!(tidy_range(&chars, 1, 3), "");
}

#[test]
fn byte_slices_follow_offsets() {
    let text = "h\u{e9}llo \u{4e16}\u{754c}";
    assert_eq!(byte_slice(text, 1, 3), "\u{e9}");
    assert_eq!(byte_slice(text, 0, 0), "");
    assert_eq!(byte_tail(text, 7), "\u{4e16}\u{754c}");
    assert_eq!(byte_tail(text, text.len()), "");
    let chars = to_chars(text);
    assert_eq!(chars.len(), 8);
    assert_eq!(to_text(&chars, 1, 5), "\u{e9}llo");
}
