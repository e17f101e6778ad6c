use crate::image::{
    check_image_in_text, image_file_of, image_kind_of, image_reference, is_remote, ImageKind,
};
use crate::markup::{process_sentence, translate};
use crate::naming::{clip_name, clip_name_of, image_path, subtitle_name, subtitle_name_of};
use crate::pipeline::SegmentOutcome;
use crate::render::{
    caption_clip_args, caption_clip_args_of, image_clip_args, image_clip_args_of,
};
use crate::segment::{segments, split_sentences};
use crate::subtitle::{document, generate_ass_content, Layout};
use vstd::prelude::*;
use vstd::string::*;

verus! {

/// One sentence of the document and what is needed to make its clip.
pub struct Segment {
    /// The place of the sentence in the document, from 0. It names the files
    /// of the segment and fixes its place in the video.
    pub index: usize,
    /// The sentence, trimmed, with its markup as written.
    pub raw_text: String,
    /// The sentence with its markup turned into override tags.
    pub styled_text: String,
    /// Where the image of the sentence comes from.
    pub image_kind: ImageKind,
    /// What the sentence refers to as its image: a path or an address.
    pub image_source: Option<String>,
    /// The file that the renderer reads the image from.
    pub image_ref: Option<String>,
    /// The clip of the segment, once it is rendered.
    pub clip_path: Option<String>,
}

/// The text that an optional string holds.
pub open spec fn text_of(s: Option<String>) -> Option<Seq<char>> {
    match s {
        Some(t) => Some(t@),
        None => None,
    }
}

/// `seg` is the segment number `index` made from the sentence `raw`, with
/// local images looked for below `media_root`, and not rendered yet.
pub open spec fn segment_for(seg: Segment, index: nat, raw: Seq<char>, media_root: Seq<char>) -> bool {
    &&& seg.index == index
    &&& seg.raw_text@ == raw
    &&& seg.styled_text@ == translate(raw)
    &&& seg.image_kind == image_kind_of(raw, media_root)
    &&& text_of(seg.image_source) == image_reference(raw, media_root)
    &&& text_of(seg.image_ref) == image_file_of(index, raw, media_root)
    &&& seg.clip_path is None
}

/// The arguments that render segment `index`: over `image` where the clip is
/// to have an image and there is one, plain otherwise.
pub open spec fn render_args_of(index: nat, image: Option<Seq<char>>, with_image: bool) -> Seq<
    Seq<char>,
> {
    match image {
        Some(file) => if with_image {
            image_clip_args_of(subtitle_name_of(index), file, index)
        } else {
            caption_clip_args_of(subtitle_name_of(index), index)
        },
        None => caption_clip_args_of(subtitle_name_of(index), index),
    }
}

impl Segment {
    /// Makes segment `index` from the sentence `raw`.
    pub fn prepare(index: usize, raw: String, media_root: &str) -> (seg: Segment)
        ensures
            segment_for(seg, index as nat, raw@, media_root@),
    {
        let styled_text = process_sentence(raw.as_str());
        let found = check_image_in_text(raw.as_str(), media_root);
        let (image_kind, image_ref) = match &found {
            None => (ImageKind::Absent, None),
            Some(reference) => {
                if is_remote(reference.as_str()) {
                    (ImageKind::Remote, Some(image_path(index)))
                } else {
                    (ImageKind::Local, Some(reference.clone()))
                }
            },
        };
        Segment {
            index,
            raw_text: raw,
            styled_text,
            image_kind,
            image_source: found,
            image_ref,
            clip_path: None,
        }
    }

    /// The subtitle document of the segment: its styled text as a caption at
    /// the bottom of the frame.
    pub fn subtitle(&self) -> (r: String)
        ensures
            r@ == document(Layout::Bottom, self.styled_text@),
    {
        generate_ass_content(Layout::Bottom, self.styled_text.as_str())
    }

    /// The arguments for the renderer that make the clip of the segment.
    pub fn render_args(&self, with_image: bool) -> (r: Vec<String>)
        ensures
            r.deep_view() == render_args_of(self.index as nat, text_of(self.image_ref), with_image),
    {
        let subtitle_file = subtitle_name(self.index);
        match &self.image_ref {
            Some(file) => {
                if with_image {
                    image_clip_args(subtitle_file.as_str(), file.as_str(), self.index)
                } else {
                    caption_clip_args(subtitle_file.as_str(), self.index)
                }
            },
            None => caption_clip_args(subtitle_file.as_str(), self.index),
        }
    }

    /// Records what became of the segment: a rendered segment has its clip,
    /// any other has none.
    pub fn settle(&mut self, outcome: SegmentOutcome)
        ensures
            final(self).index == old(self).index,
            final(self).raw_text == old(self).raw_text,
            final(self).styled_text == old(self).styled_text,
            final(self).image_kind == old(self).image_kind,
            final(self).image_source == old(self).image_source,
            final(self).image_ref == old(self).image_ref,
            text_of(final(self).clip_path) == if outcome == SegmentOutcome::Rendered {
                Some(clip_name_of(old(self).index as nat))
            } else {
                None
            },
    {
        self.clip_path = match outcome {
            SegmentOutcome::Rendered => Some(clip_name(self.index)),
            _ => None,
        };
    }
}

/// Cuts `text` into sentences and makes a segment of each, in order.
pub fn prepare_segments(text: &str, media_root: &str) -> (r: Vec<Segment>)
    ensures
        r@.len() == segments(text@).len(),
        forall|i: int|
            0 <= i < r@.len() ==> segment_for(#[trigger] r@[i], i as nat, segments(text@)[i], media_root@),
{
    let sentences = split_sentences(text);
    let ghost wanted = segments(text@);
    let mut out: Vec<Segment> = Vec::new();
    let mut i: usize = 0;
    while i < sentences.len()
        invariant
            i <= sentences.len(),
            sentences@.len() == wanted.len(),
            forall|k: int| i <= k < sentences@.len() ==> (#[trigger] sentences@[k])@ == wanted[k],
            out@.len() == i,
            forall|k: int|
                0 <= k < i ==> segment_for(#[trigger] out@[k], k as nat, wanted[k], media_root@),
        decreases sentences.len() - i,
    {
        let raw = sentences[i].clone();
        out.push(Segment::prepare(i, raw, media_root));
        i += 1;
    }
    out
}

/// The image kinds of `segments`, in order: what a run is begun with.
pub fn image_kinds(segments: &Vec<Segment>) -> (r: Vec<ImageKind>)
    ensures
        r@.len() == segments@.len(),
        forall|i: int| 0 <= i < r@.len() ==> r@[i] == segments@[i].image_kind,
{
    let mut out: Vec<ImageKind> = Vec::new();
    let mut i: usize = 0;
    while i < segments.len()
        invariant
            i <= segments.len(),
            out@.len() == i,
            forall|k: int| 0 <= k < i ==> out@[k] == segments@[k].image_kind,
        decreases segments.len() - i,
    {
        out.push(segments[i].image_kind);
        i += 1;
    }
    out
}

} // verus!
