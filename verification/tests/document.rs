use text_to_video::chars::{find_last, same_text};
use text_to_video::desktop::{log_line, obsidian_uri, open_command, Platform};
use text_to_video::document::{
    extract_frontmatter, extract_text_content, extract_youtube_url_from_text_content,
    frontmatter_entries, parse_bool, video_from_matches, watch_url,
};
use text_to_video::matcher::find_matches;
use text_to_video::render::{audio_download_args, downloader};

#[test]
fn frontmatter_stands_between_the_fences() {
    assert_eq!(
        extract_frontmatter("---\ntitle: A\ndone: true\n---\nbody"),
        Some("title: A\ndone: true".to_string())
    );
    assert_eq!(extract_frontmatter("x --- only one fence  "), Some("only one fence".to_string()));
    assert_eq!(extract_frontmatter("------"), Some("".to_string()));
    assert_eq!(extract_frontmatter("--- a --- b --- c"), Some("a".to_string()));
}

#[test]
fn a_note_without_fence_has_no_frontmatter() {
    assert_eq!(extract_frontmatter("no fence -- here"), None);
    assert_eq!(extract_frontmatter(""), None);
}

#[test]
fn frontmatter_agrees_with_std_search() {
    for file in ["---a---", "k\n---\n\u{e9}: 1\n---\nrest", "--- --", " ---\t\n", "----x----"] {
        let start = file.find("---").unwrap() + 3;
        let end = file[start..].find("---").map(|i| start + i).unwrap_or(file.len());
        assert_eq!(extract_frontmatter(file), Some(file[start..end].trim().to_string()));
    }
}

#[test]
fn frontmatter_lines_become_entries() {
    let pair = |k: &str, v: &str| (k.to_string(), v.to_string());
    assert_eq!(
        frontmatter_entries("title:  My note \n\n  done : true\nurl: https://a/b:c\n   \nempty:"),
        Some(vec![
            pair("title", "My note"),
            pair("done", "true"),
            pair("url", "https://a/b:c"),
            pair("empty", ""),
        ])
    );
    assert_eq!(frontmatter_entries(""), Some(Vec::new()));
    assert_eq!(frontmatter_entries(" \n\t\n"), Some(Vec::new()));
    assert_eq!(frontmatter_entries(":"), Some(vec![pair("", "")]));
}

#[test]
fn a_line_without_colon_is_no_entry() {
    assert_eq!(frontmatter_entries("title: A\nno colon here\nb: c"), None);
    assert_eq!(frontmatter_entries("x"), None);
}

#[test]
fn entries_agree_with_std_splitting() {
    for text in ["a: 1\nb:2\n\n c : d:e ", "k:\n:v\n \u{a0}\nz:\u{e9}"] {
        let expected: Vec<(String, String)> = text
            .split('\n')
            .filter(|s| !s.trim().is_empty())
            .map(|line| {
                let mut parts = line.splitn(2, ':');
                let key = parts.next().unwrap().trim().to_string();
                let value = parts.next().unwrap().trim().to_string();
                (key, value)
            })
            .collect();
        assert_eq!(frontmatter_entries(text), Some(expected));
    }
}

#[test]
fn only_true_and_false_are_truth_values() {
    assert_eq!(parse_bool("true"), Some(true));
    assert_eq!(parse_bool("false"), Some(false));
    assert_eq!(parse_bool("True"), None);
    assert_eq!(parse_bool(" true"), None);
    assert_eq!(parse_bool("1"), None);
    assert_eq!(parse_bool(""), None);
}

#[test]
fn text_content_follows_the_last_code_fence() {
    assert_eq!(
        extract_text_content("---\nt: 1\n---\n```dataviewjs\ncode\n```\n\nThe body. More.\n"),
        "The body. More."
    );
    assert_eq!(extract_text_content("  no code here \n"), "no code here");
    assert_eq!(extract_text_content("a```b```"), "");
    assert_eq!(extract_text_content("a````b"), "b");
    assert_eq!(extract_text_content(""), "");
}

#[test]
fn text_content_agrees_with_std_search() {
    for file in ["x```y```z", "````", "``", "\u{e9}```\u{4e16} ", "plain"] {
        let start = file.rfind("```").map(|i| i + 3).unwrap_or(0);
        assert_eq!(extract_text_content(file), file[start..].trim());
    }
}

#[test]
fn the_embedded_player_names_the_video() {
    let note = r#"intro <iframe width="560" src="https://www.youtube.com/embed/abc123?si=xyz" title="t"></iframe> outro"#;
    assert_eq!(
        extract_youtube_url_from_text_content(note),
        Ok("https://www.youtube.com/watch?v=abc123".to_string())
    );
    let two = r#"<iframe src="https://y/embed/first"></iframe><iframe src="https://y/embed/second">"#;
    assert_eq!(
        extract_youtube_url_from_text_content(two),
        Ok("https://www.youtube.com/watch?v=first".to_string())
    );
}

#[test]
fn a_note_without_player_gets_the_default_video() {
    assert_eq!(
        extract_youtube_url_from_text_content("just text"),
        Ok("https://www.youtube.com/watch?v=H0j_xIm4fW0".to_string())
    );
    assert_eq!(
        extract_youtube_url_from_text_content("<iframe width=1>"),
        Ok("https://www.youtube.com/watch?v=H0j_xIm4fW0".to_string())
    );
}

#[test]
fn video_is_picked_from_given_matches() {
    let text = "<src=a/b?c>";
    assert_eq!(
        video_from_matches(text, &vec![vec![Some((0, 11)), Some((5, 10))]]),
        "https://www.youtube.com/watch?v=b"
    );
    let fallback = "https://www.youtube.com/watch?v=H0j_xIm4fW0";
    assert_eq!(video_from_matches(text, &Vec::new()), fallback);
    assert_eq!(video_from_matches(text, &vec![vec![Some((0, 11))]]), fallback);
    assert_eq!(video_from_matches(text, &vec![vec![Some((0, 11)), None]]), fallback);
}

#[test]
fn matches_are_reported_as_byte_offsets() {
    assert_eq!(
        find_matches(r"(\d+)-(\d+)?", "\u{e9} 12-3 and 4-"),
        vec![
            vec![Some((3, 7)), Some((3, 5)), Some((6, 7))],
            vec![Some((12, 14)), Some((12, 13)), None],
        ]
    );
    assert_eq!(find_matches("a", "bcd"), Vec::<Vec<Option<(usize, usize)>>>::new());
    // A pattern that cannot be compiled matches nowhere.
    assert_eq!(find_matches("(", "((("), Vec::<Vec<Option<(usize, usize)>>>::new());
}

#[test]
fn watch_url_takes_the_last_step_of_the_path() {
    assert_eq!(watch_url("https://h/embed/ID?x=1/2"), "https://www.youtube.com/watch?v=ID");
    assert_eq!(watch_url("ID"), "https://www.youtube.com/watch?v=ID");
    assert_eq!(watch_url("a/b/"), "https://www.youtube.com/watch?v=");
    assert_eq!(watch_url("?q"), "https://www.youtube.com/watch?v=");
    assert_eq!(watch_url(""), "https://www.youtube.com/watch?v=");
}

#[test]
fn find_last_returns_the_last_occurrence() {
    let hay: Vec<char> = "abcabc".chars().collect();
    let bc: Vec<char> = "bc".chars().collect();
    assert_eq!(find_last(&hay, &bc), Some(4));
    assert_eq!(find_last(&hay, &vec!['x']), None);
    assert_eq!(find_last(&bc, &hay), None);
    assert_eq!(find_last(&hay, &hay), Some(0));
    assert!(same_text(&hay, &hay));
    assert!(!same_text(&hay, &bc));
    assert!(!same_text(&bc, &vec!['b', 'd']));
}

#[test]
fn the_note_address_is_percent_encoded() {
    assert_eq!(
        obsidian_uri("My Vault", "notes/a b&c.md"),
        "obsidian://open?vault=My%20Vault&file=notes%2Fa%20b%26c.md"
    );
    assert_eq!(obsidian_uri("plain-_.~09AZaz", ""), "obsidian://open?vault=plain-_.~09AZaz&file=");
    assert_eq!(obsidian_uri("\u{e9}", "\u{4e16}"), "obsidian://open?vault=%C3%A9&file=%E4%B8%96");
}

#[test]
fn each_platform_has_its_opener() {
    assert_eq!(
        open_command(Platform::Windows, "obsidian://x"),
        Some(vec!["cmd".to_string(), "/C".to_string(), "start obsidian://x".to_string()])
    );
    assert_eq!(
        open_command(Platform::MacOs, "obsidian://x"),
        Some(vec!["open".to_string(), "obsidian://x".to_string()])
    );
    assert_eq!(
        open_command(Platform::Linux, "obsidian://x"),
        Some(vec!["xdg-open".to_string(), "obsidian://x".to_string()])
    );
    assert_eq!(open_command(Platform::Other, "obsidian://x"), None);
}

#[test]
fn log_lines_are_coloured() {
    assert_eq!(log_line("hi", "red"), "\n\t\u{1F4E2}  \x1b[31mhi\x1b[0m\n");
    assert_eq!(log_line("hi", "green"), "\n\t\u{1F4E2}  \x1b[32mhi\x1b[0m\n");
    assert_eq!(log_line("hi", "blue"), "\n\t\u{1F4E2}  \x1b[34mhi\x1b[0m\n");
    assert_eq!(log_line("hi", "pink"), "\n\t\u{1F4E2}  hi\n");
    assert_eq!(log_line("", ""), "\n\t\u{1F4E2}  \n");
}

#[test]
fn the_narration_is_downloaded_as_mp3() {
    assert_eq!(downloader(), "yt-dlp");
    assert_eq!(
        audio_download_args("https://www.youtube.com/watch?v=abc", "./temp_files/audio.mp3"),
        vec![
            "--extract-audio",
            "--audio-format",
            "mp3",
            "-f",
            "bestaudio",
            "-o",
            "./temp_files/audio.mp3",
            "https://www.youtube.com/watch?v=abc",
        ]
    );
}
