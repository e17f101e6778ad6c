use crate::markup::{group_slice, group_text};
use crate::matcher::{find_matches, matches_of, spans_fit};
use crate::naming::image_path_of;
use crate::text::to_chars;
use vstd::prelude::*;
use vstd::string::*;

verus! {

/// The regular expression of a local image reference, `![[file]]`.
pub open spec fn local_pattern() -> Seq<char> {
    r"!\[\[([^\]]+)\]\]"@
}

/// The regular expression of a hosted image reference, `![alt](url)`.
pub open spec fn hosted_pattern() -> Seq<char> {
    r"!\[([^\]]*)\]\(([^)]+)\)"@
}

/// `name` below the directory `root`: a `name` that begins with `/` stands for
/// itself, and a `/` is put between the two unless `root` is empty or ends in
/// one.
pub open spec fn join_path_of(root: Seq<char>, name: Seq<char>) -> Seq<char> {
    if name.len() > 0 && name[0] == '/' {
        name
    } else if root.len() == 0 || root.last() == '/' {
        root + name
    } else {
        root + seq!['/'] + name
    }
}

/// The image that a text refers to, given the matches of the two image
/// patterns in it: the file of the first local reference, below `media_root`,
/// or else the address of the first hosted reference.
pub open spec fn image_from(
    text: Seq<char>,
    media_root: Seq<char>,
    local: Seq<Seq<Option<(usize, usize)>>>,
    hosted: Seq<Seq<Option<(usize, usize)>>>,
) -> Option<Seq<char>> {
    if local.len() > 0 {
        Some(join_path_of(media_root, group_text(text, local[0], 1)))
    } else if hosted.len() > 0 {
        Some(group_text(text, hosted[0], 2))
    } else {
        None
    }
}

/// The image that `text` refers to.
pub open spec fn image_reference(text: Seq<char>, media_root: Seq<char>) -> Option<Seq<char>> {
    image_from(
        text,
        media_root,
        matches_of(local_pattern(), text),
        matches_of(hosted_pattern(), text),
    )
}

/// Whether `reference` is an address to download from: it begins with `http`.
pub open spec fn is_remote_of(reference: Seq<char>) -> bool {
    reference.len() >= 4 && reference.subrange(0, 4) == seq!['h', 't', 't', 'p']
}

/// `name` below the directory `root`.
pub fn join_path(root: &str, name: &str) -> (r: String)
    ensures
        r@ == join_path_of(root@, name@),
{
    if name.unicode_len() > 0 && name.get_char(0) == '/' {
        return String::from_str(name);
    }
    let mut out = String::from_str(root);
    let n = root.unicode_len();
    if n > 0 && root.get_char(n - 1) != '/' {
        proof {
            reveal_strlit("/");
        }
        assert("/"@ =~= seq!['/']);
        out.append("/");
    }
    out.append(name);
    out
}

/// Tells whether `reference` is an address to download from.
pub fn is_remote(reference: &str) -> (r: bool)
    ensures
        r == is_remote_of(reference@),
{
    let chars = to_chars(reference);
    if chars.len() < 4 {
        return false;
    }
    let r = chars[0] == 'h' && chars[1] == 't' && chars[2] == 't' && chars[3] == 'p';
    proof {
        let head = chars@.subrange(0, 4);
        if r {
            assert(head =~= seq!['h', 't', 't', 'p']);
        } else {
            assert(head[0] == chars@[0] && head[1] == chars@[1] && head[2] == chars@[2] && head[3]
                == chars@[3]);
        }
    }
    r
}

/// Picks the image that `text` refers to from the matches of the local
/// pattern and of the hosted pattern in it.
pub fn image_from_matches(
    text: &str,
    media_root: &str,
    local: &Vec<Vec<Option<(usize, usize)>>>,
    hosted: &Vec<Vec<Option<(usize, usize)>>>,
) -> (r: Option<String>)
    requires
        spans_fit(text@, local.deep_view()),
        spans_fit(text@, hosted.deep_view()),
    ensures
        match r {
            Some(found) => image_from(text@, media_root@, local.deep_view(), hosted.deep_view())
                == Some(found@),
            None => image_from(text@, media_root@, local.deep_view(), hosted.deep_view()) is None,
        },
{
    if local.len() > 0 {
        assert(local.deep_view()[0] == local@[0].deep_view());
        Some(join_path(media_root, group_slice(text, &local[0], 1)))
    } else if hosted.len() > 0 {
        assert(hosted.deep_view()[0] == hosted@[0].deep_view());
        Some(String::from_str(group_slice(text, &hosted[0], 2)))
    } else {
        None
    }
}

/// Finds the image that `text` refers to, if any: a local reference
/// `![[file]]` gives the path of `file` below `media_root`; otherwise a hosted
/// reference `![alt](url)` gives `url`. Whether the file exists is not looked
/// at.
pub fn check_image_in_text(text: &str, media_root: &str) -> (r: Option<String>)
    ensures
        match r {
            Some(found) => image_reference(text@, media_root@) == Some(found@),
            None => image_reference(text@, media_root@) is None,
        },
{
    let local = find_matches(r"!\[\[([^\]]+)\]\]", text);
    let hosted = find_matches(r"!\[([^\]]*)\]\(([^)]+)\)", text);
    image_from_matches(text, media_root, &local, &hosted)
}

/// Where the image of a segment comes from.
#[derive(Clone, Copy, Debug, PartialEq, Eq, Structural)]
pub enum ImageKind {
    /// The sentence refers to no image.
    Absent,
    /// The image is a file that is already on disk.
    Local,
    /// The image has to be downloaded first.
    Remote,
}

/// The kind of the image that `text` refers to.
pub open spec fn image_kind_of(text: Seq<char>, media_root: Seq<char>) -> ImageKind {
    match image_reference(text, media_root) {
        None => ImageKind::Absent,
        Some(reference) => if is_remote_of(reference) {
            ImageKind::Remote
        } else {
            ImageKind::Local
        },
    }
}

/// The file that the renderer reads the image of segment `index` from: the
/// reference itself where it is local, the download path of the segment where
/// it is remote.
pub open spec fn image_file_of(index: nat, text: Seq<char>, media_root: Seq<char>) -> Option<
    Seq<char>,
> {
    match image_reference(text, media_root) {
        None => None,
        Some(reference) => if is_remote_of(reference) {
            Some(image_path_of(index))
        } else {
            Some(reference)
        },
    }
}

} // verus!
