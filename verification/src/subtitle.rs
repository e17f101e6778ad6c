use crate::error::PipelineError;
use vstd::prelude::*;
use vstd::string::*;

verus! {

/// Where on the frame the caption stands.
#[derive(Clone, Copy, Debug, PartialEq, Eq, Structural)]
pub enum Layout {
    /// A small bordered caption near the lower edge.
    Bottom,
    /// A large plain caption in the middle of the frame.
    Centered,
}

/// The head of every subtitle document: script type and a play resolution of
/// 1280 by 720.
pub open spec fn script_info() -> Seq<char> {
    "[Script Info]\n        Title: Default Aegisub file\n        ScriptType: v4.00+\n        WrapStyle: 0\n        PlayResX: 1280\n        PlayResY: 720\n        ScaledBorderAndShadow: yes\n        YCbCr Matrix: None\n"@
}

/// The line that parts two sections.
pub open spec fn section_gap(layout: Layout) -> Seq<char> {
    match layout {
        Layout::Bottom => "\n"@,
        Layout::Centered => "        \n"@,
    }
}

/// The style section: the one style `Default` of the layout.
pub open spec fn style_section(layout: Layout) -> Seq<char> {
    match layout {
        Layout::Bottom => "        [V4+ Styles]\n        Format: Name, Fontname, Fontsize, PrimaryColour, SecondaryColour, OutlineColour, BackColour, Bold, Italic, Underline, StrikeOut, ScaleX, ScaleY, Spacing, Angle, BorderStyle, Outline, Shadow, Alignment, MarginL, MarginR, MarginV, Encoding\n        Style: Default, Vera, 28, &HFFFFFF, &HFFFFFF, &H000000, &H000000, -1, 0, 0, 0, 100, 100, 0, 0, 1, 1, 1, 2, 10, 10, 30, 1\n"@,
        Layout::Centered => "        [V4+ Styles]\n        Format: Name, Fontname, Fontsize, PrimaryColour, Alignment\n        Style: Default, Vera, 42, &HFFFFFF, 8\n"@,
    }
}

/// The head of the event section.
pub open spec fn events_head() -> Seq<char> {
    "        [Events]\n        Format: Layer, Start, End, Style, Name, MarginL, MarginR, MarginV, Effect, Text\n"@
}

/// The left, right and vertical margins of the one event.
pub open spec fn margins(layout: Layout) -> Seq<char> {
    match layout {
        Layout::Bottom => "10,10,30"@,
        Layout::Centered => "320,320,355"@,
    }
}

/// The one event of a document: `text` shown in style `Default` from
/// 0:00:00.00 to 0:00:05.00.
pub open spec fn dialogue(layout: Layout, text: Seq<char>) -> Seq<char> {
    "        Dialogue: 0,"@ + "0:00:00.00"@ + ","@ + "0:00:05.00"@ + ",Default,,"@ + margins(layout)
        + ",,"@ + text
}

/// The whole subtitle document that shows `text` in `layout`.
pub open spec fn document(layout: Layout, text: Seq<char>) -> Seq<char> {
    script_info() + section_gap(layout) + style_section(layout) + section_gap(layout)
        + events_head() + dialogue(layout, text)
}

fn gap(layout: Layout) -> (r: &'static str)
    ensures
        r@ == section_gap(layout),
{
    match layout {
        Layout::Bottom => "\n",
        Layout::Centered => "        \n",
    }
}

/// The subtitle document that shows `sentence` in `layout` for five seconds.
pub fn generate_ass_content(layout: Layout, sentence: &str) -> (r: String)
    ensures
        r@ == document(layout, sentence@),
{
    let mut out = String::from_str(
        "[Script Info]\n        Title: Default Aegisub file\n        ScriptType: v4.00+\n        WrapStyle: 0\n        PlayResX: 1280\n        PlayResY: 720\n        ScaledBorderAndShadow: yes\n        YCbCr Matrix: None\n",
    );
    out.append(gap(layout));
    out.append(
        match layout {
            Layout::Bottom => "        [V4+ Styles]\n        Format: Name, Fontname, Fontsize, PrimaryColour, SecondaryColour, OutlineColour, BackColour, Bold, Italic, Underline, StrikeOut, ScaleX, ScaleY, Spacing, Angle, BorderStyle, Outline, Shadow, Alignment, MarginL, MarginR, MarginV, Encoding\n        Style: Default, Vera, 28, &HFFFFFF, &HFFFFFF, &H000000, &H000000, -1, 0, 0, 0, 100, 100, 0, 0, 1, 1, 1, 2, 10, 10, 30, 1\n",
            Layout::Centered => "        [V4+ Styles]\n        Format: Name, Fontname, Fontsize, PrimaryColour, Alignment\n        Style: Default, Vera, 42, &HFFFFFF, 8\n",
        },
    );
    out.append(gap(layout));
    out.append(
        "        [Events]\n        Format: Layer, Start, End, Style, Name, MarginL, MarginR, MarginV, Effect, Text\n",
    );
    let ghost head = out@;
    out.append("        Dialogue: 0,");
    out.append("0:00:00.00");
    out.append(",");
    out.append("0:00:05.00");
    out.append(",Default,,");
    out.append(
        match layout {
            Layout::Bottom => "10,10,30",
            Layout::Centered => "320,320,355",
        },
    );
    out.append(",,");
    out.append(sentence);
    assert(out@ =~= head + dialogue(layout, sentence@));
    out
}

/// The subtitle document with the caption at the bottom of the frame.
pub fn generate_ass_content_bottom(sentence: &str) -> (r: Result<String, PipelineError>)
    ensures
        r matches Ok(doc) && doc@ == document(Layout::Bottom, sentence@),
{
    Ok(generate_ass_content(Layout::Bottom, sentence))
}

/// The subtitle document with the caption in the middle of the frame.
pub fn generate_ass_content_centered(sentence: &str) -> (r: Result<String, PipelineError>)
    ensures
        r matches Ok(doc) && doc@ == document(Layout::Centered, sentence@),
{
    Ok(generate_ass_content(Layout::Centered, sentence))
}

} // verus!
