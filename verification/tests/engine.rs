use regex::{Captures, Regex};
use text_to_video::image::check_image_in_text;
use text_to_video::markup::{apply, process_sentence, Rule};

/// The same rewriting, done by the engine's own replacement of all matches.
fn replaced_by_engine(sentence: &str) -> String {
    let re = Regex::new(r"\^\[\{(.*?)\}\]").unwrap();
    let result = re.replace_all(sentence, |caps: &Captures| {
        format!("{{\\up1\\c&HFFFFFF&}}{}{{\\up0\\c&HFFFFFF&}}", &caps[1])
    });
    let re = Regex::new(r"!\[\[(.*?)\]\]").unwrap();
    let result = re.replace_all(&result, |_: &Captures| {
        "{\\c&H0000FF&}{\\b1\\c&HFFFFFF&}LOCAL IMG{\\b0\\c&HFFFFFF&}".to_string()
    });
    let re = Regex::new(r"!\[(.*?)\]\((.*?)\)").unwrap();
    let result = re.replace_all(&result, |_: &Captures| {
        "{\\c&H0000FF&}{\\b1\\c&HFFFFFF&}HOSTED IMG{\\b0\\c&HFFFFFF&}".to_string()
    });
    let re = Regex::new(r"\[\[(.*?)\]\]").unwrap();
    let result = re.replace_all(&result, |caps: &Captures| {
        let text = &caps[1];
        if let Some((_, alias)) = text.split_once(" |") {
            format!("{{\\c&H800080&}}{}{{\\c&HFFFFFF&}}", alias.trim())
        } else {
            format!("{{\\c&H800080&}}{}{{\\c&HFFFFFF&}}", text)
        }
    });
    let re = Regex::new(r"_([^_]+)_").unwrap();
    let result = re.replace_all(&result, |caps: &Captures| {
        format!("{{\\i1\\c&H00FF00&}}{}{{\\i0\\c&HFFFFFF&}}", &caps[1])
    });
    let re = Regex::new(r"\*([^*]+)\*").unwrap();
    let result = re.replace_all(&result, |caps: &Captures| {
        format!("{{\\b1\\c&HFF0000&}}{}{{\\b0\\c&HFFFFFF&}}", &caps[1])
    });
    let re = Regex::new(r"`([^`]+)`").unwrap();
    let result = re.replace_all(&result, |caps: &Captures| {
        format!("{{\\c&H808080&}}{}{{\\c&HFFFFFF&}}", &caps[1])
    });
    result.into_owned()
}

fn samples() -> Vec<&'static str> {
    vec![
        "",
        "plain words only",
        "She said *hello* to [[Bob | Bobby]].",
        "![[cat.png]] is cute.",
        "![alt](https://example.com/a.png) and ![](b.png)",
        "^[{one}] and ^[{two |}] and ^[{}]",
        "[[a]] [[b | c]] [[ | d]] [[e |]] [[f | g | h]] [[]]",
        "_a_ __b__ _c _d_ e_ snake_case_name",
        "*a* **b** *c *d* e* 2*3*4",
        "`a` ``b`` `c `d` e`",
        "nested *bold _and_ italic* with `code *inside*`",
        "![[one.png]][[two]]![three](four)",
        "\u{e9}*\u{e0}*\u{4e16}_\u{754c}_\u{1F600}`\u{1F601}`[[\u{fc} | \u{f6} ]]",
        "a*b\nc*d and _x\ny_",
        "{\\b1}already{\\b0} styled *again*",
        "[[[x]]] ![[[y]]] !![[z]]",
        "^[{a}]^[{b}]*c**d*",
    ]
}

#[test]
fn styling_agrees_with_the_engine_replacing_all_matches() {
    for sentence in samples() {
        assert_eq!(process_sentence(sentence), replaced_by_engine(sentence), "{:?}", sentence);
    }
}

#[test]
fn single_passes_agree_with_the_engine() {
    let bold = Regex::new(r"\*([^*]+)\*").unwrap();
    let code = Regex::new(r"`([^`]+)`").unwrap();
    for sentence in samples() {
        let expected = bold.replace_all(sentence, |caps: &Captures| {
            format!("{{\\b1\\c&HFF0000&}}{}{{\\b0\\c&HFFFFFF&}}", &caps[1])
        });
        assert_eq!(apply(Rule::Bold, sentence), expected, "{:?}", sentence);
        let expected = code.replace_all(sentence, |caps: &Captures| {
            format!("{{\\c&H808080&}}{}{{\\c&HFFFFFF&}}", &caps[1])
        });
        assert_eq!(apply(Rule::Code, sentence), expected, "{:?}", sentence);
    }
}

#[test]
fn image_lookup_agrees_with_the_engine() {
    let local = Regex::new(r"!\[\[([^\]]+)\]\]").unwrap();
    let hosted = Regex::new(r"!\[([^\]]*)\]\(([^)]+)\)").unwrap();
    for sentence in samples() {
        let expected = if let Some(caps) = local.captures(sentence) {
            Some(format!("/media/{}", caps.get(1).unwrap().as_str()))
        } else if let Some(caps) = hosted.captures(sentence) {
            Some(caps.get(2).unwrap().as_str().to_string())
        } else {
            None
        };
        assert_eq!(check_image_in_text(sentence, "/media"), expected, "{:?}", sentence);
    }
}
