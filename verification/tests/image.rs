use std::path::Path;
use text_to_video::image::{
    check_image_in_text, image_from_matches, is_remote, join_path, ImageKind,
};
use text_to_video::naming::{
    clip_name, decimal_string, image_path, manifest_line, subtitle_name,
};
use text_to_video::plan::{image_kinds, prepare_segments, Segment};
use text_to_video::pipeline::SegmentOutcome;

#[test]
fn local_image_resolves_below_the_media_root() {
    assert_eq!(
        check_image_in_text("![[cat.png]] is cute.", "/media"),
        Some("/media/cat.png".to_string())
    );
    assert_eq!(
        check_image_in_text("look ![[sub/dog.jpg]]", "pics/"),
        Some("pics/sub/dog.jpg".to_string())
    );
}

#[test]
fn hosted_image_gives_its_address() {
    assert_eq!(
        check_image_in_text("![alt](https://example.com/a.png) text", "/media"),
        Some("https://example.com/a.png".to_string())
    );
    assert_eq!(
        check_image_in_text("![](pic.png)", "/media"),
        Some("pic.png".to_string())
    );
}

#[test]
fn local_reference_wins_and_only_the_first_counts() {
    assert_eq!(
        check_image_in_text("![x](http://h/y.png) then ![[a.png]] and ![[b.png]]", "r"),
        Some("r/a.png".to_string())
    );
}

#[test]
fn image_is_picked_from_given_matches() {
    let text = "a ![[x.png]] b ![y](u)";
    let local = vec![vec![Some((2, 12)), Some((5, 10))]];
    let hosted = vec![vec![Some((15, 22)), Some((17, 18)), Some((20, 21))]];
    assert_eq!(image_from_matches(text, "/m", &local, &hosted), Some("/m/x.png".to_string()));
    assert_eq!(image_from_matches(text, "/m", &Vec::new(), &hosted), Some("u".to_string()));
    assert_eq!(image_from_matches(text, "/m", &Vec::new(), &Vec::new()), None);
    // A match without the group asked for names an empty file.
    assert_eq!(
        image_from_matches(text, "/m", &vec![vec![Some((2, 12))]], &hosted),
        Some("/m/".to_string())
    );
}

#[test]
fn text_without_image_has_none() {
    assert_eq!(check_image_in_text("no image here", "/media"), None);
    assert_eq!(check_image_in_text("[[link]] and ![[]]", "/media"), None);
    assert_eq!(check_image_in_text("", "/media"), None);
}

#[test]
fn join_path_agrees_with_std() {
    let roots = ["", "/", "/media", "/media/", "rel", "rel/dir/", "\u{e9}t\u{e9}"];
    let names = ["", "cat.png", "/abs/cat.png", "sub/cat.png", "\u{4e16}.png"];
    for root in roots {
        for name in names {
            let expected = Path::new(root).join(name);
            assert_eq!(join_path(root, name), expected.to_str().unwrap(), "{:?} {:?}", root, name);
        }
    }
}

#[test]
fn remote_references_begin_with_http() {
    assert!(is_remote("http://a/b.png"));
    assert!(is_remote("https://a/b.png"));
    assert!(is_remote("http"));
    assert!(!is_remote("htt"));
    assert!(!is_remote("/media/http.png"));
    assert!(!is_remote("Http://a"));
    assert!(!is_remote(""));
}

#[test]
fn decimal_agrees_with_std() {
    for n in [0usize, 1, 9, 10, 11, 99, 100, 101, 12345, 1_000_000, usize::MAX] {
        assert_eq!(decimal_string(n), n.to_string());
    }
}

#[test]
fn file_names_follow_the_index() {
    assert_eq!(clip_name(0), "output0.mp4");
    assert_eq!(clip_name(12), "output12.mp4");
    assert_eq!(subtitle_name(7), "sentence7.ass");
    assert_eq!(image_path(3), "./temp_files/image3.png");
    assert_eq!(manifest_line(10), "file 'output10.mp4'\n");
}

#[test]
fn segments_are_prepared_in_order() {
    let segments = prepare_segments(
        "A *bold* start. ![[cat.png]] is cute.\nSee ![x](https://h/p.png)! End",
        "/media",
    );
    assert_eq!(segments.len(), 4);
    for (i, seg) in segments.iter().enumerate() {
        assert_eq!(seg.index, i);
        assert_eq!(seg.clip_path, None);
    }
    assert_eq!(segments[0].raw_text, "A *bold* start");
    assert_eq!(segments[0].styled_text, "A {\\b1\\c&HFF0000&}bold{\\b0\\c&HFFFFFF&} start");
    assert_eq!(segments[0].image_kind, ImageKind::Absent);
    assert_eq!(segments[0].image_ref, None);
    assert_eq!(segments[1].raw_text, "![[cat.png]] is cute");
    assert_eq!(segments[1].image_kind, ImageKind::Local);
    assert_eq!(segments[1].image_source.as_deref(), Some("/media/cat.png"));
    assert_eq!(segments[1].image_ref.as_deref(), Some("/media/cat.png"));
    assert_eq!(segments[2].image_kind, ImageKind::Remote);
    assert_eq!(segments[2].image_source.as_deref(), Some("https://h/p.png"));
    assert_eq!(segments[2].image_ref.as_deref(), Some("./temp_files/image2.png"));
    assert_eq!(segments[3].raw_text, "End");
    assert_eq!(
        image_kinds(&segments),
        vec![ImageKind::Absent, ImageKind::Local, ImageKind::Remote, ImageKind::Absent]
    );
}

#[test]
fn a_segment_gets_its_clip_when_rendered() {
    let mut seg = Segment::prepare(4, "plain".to_string(), "/media");
    assert_eq!(seg.clip_path, None);
    seg.settle(SegmentOutcome::RenderFailed);
    assert_eq!(seg.clip_path, None);
    seg.settle(SegmentOutcome::Rendered);
    assert_eq!(seg.clip_path.as_deref(), Some("output4.mp4"));
    assert_eq!(seg.index, 4);
    assert_eq!(seg.raw_text, "plain");
    seg.settle(SegmentOutcome::ImageUnavailable);
    assert_eq!(seg.clip_path, None);
}

#[test]
fn a_segment_knows_its_subtitle_and_arguments() {
    let seg = Segment::prepare(1, "![[cat.png]] *hi*".to_string(), "/m");
    assert!(seg.subtitle().ends_with(
        ",Default,,10,10,30,,{\\c&H0000FF&}{\\b1\\c&HFFFFFF&}LOCAL IMG{\\b0\\c&HFFFFFF&} {\\b1\\c&HFF0000&}hi{\\b0\\c&HFFFFFF&}"
    ));
    let with = seg.render_args(true);
    assert_eq!(with[4], "/m/cat.png");
    assert_eq!(with.len(), 19);
    let without = seg.render_args(false);
    assert_eq!(without.len(), 15);
    assert_eq!(without[6], "ass=sentence1.ass:fontsdir=./");
    let plain = Segment::prepare(2, "text".to_string(), "/m");
    assert_eq!(plain.render_args(true), plain.render_args(false));
    assert_eq!(plain.render_args(true).len(), 15);
}
