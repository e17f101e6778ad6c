use crate::naming::{clip_name, clip_name_of, decimal, decimal_string};
use vstd::prelude::*;
use vstd::string::*;

verus! {

/// The length of every clip, in seconds.
pub const CLIP_SECONDS: usize = 5;

/// The length of every clip as the renderer is told it.
pub open spec fn clip_length_of() -> Seq<char> {
    decimal(CLIP_SECONDS as nat)
}

/// The program that renders, joins and merges.
pub open spec fn renderer_of() -> Seq<char> {
    "ffmpeg"@
}

/// The file that holds the joined clips.
pub open spec fn joined_video_of() -> Seq<char> {
    "output.mp4"@
}

/// The file that holds the finished video.
pub open spec fn final_video_of() -> Seq<char> {
    "final_output.mp4"@
}

/// The file that holds the manifest.
pub open spec fn manifest_path_of() -> Seq<char> {
    "file_list.txt"@
}

/// The file that holds the narration.
pub open spec fn audio_path_of() -> Seq<char> {
    "./temp_files/audio.mp3"@
}

/// The filter that burns the subtitle document `subtitle_file` into a clip.
pub open spec fn caption_filter_of(subtitle_file: Seq<char>) -> Seq<char> {
    "ass="@ + subtitle_file + ":fontsdir=./"@
}

/// The filter that scales the image to a width of 640, lays it over the
/// canvas and burns the subtitle document in.
pub open spec fn overlay_filter_of(subtitle_file: Seq<char>) -> Seq<char> {
    "[0:v]scale=640:-1 [scaled]; [1:v][scaled]overlay=(W-w)/2:(H-h)/4,"@ + caption_filter_of(
        subtitle_file,
    )
}

/// The arguments that render segment `index` as a caption on a black canvas
/// of 1280 by 720, five seconds long.
pub open spec fn caption_clip_args_of(subtitle_file: Seq<char>, index: nat) -> Seq<Seq<char>> {
    seq![
        "-y"@,
        "-f"@,
        "lavfi"@,
        "-i"@,
        "color=color=black:size=1280x720"@,
        "-vf"@,
        caption_filter_of(subtitle_file),
        "-t"@,
        clip_length_of(),
        "-b:v"@,
        "5M"@,
        "-preset"@,
        "slow"@,
        "-y"@,
        clip_name_of(index),
    ]
}

/// The arguments that render segment `index` as a caption over the image
/// `image_file` on the same canvas.
pub open spec fn image_clip_args_of(subtitle_file: Seq<char>, image_file: Seq<char>, index: nat) -> Seq<
    Seq<char>,
> {
    seq![
        "-y"@,
        "-loop"@,
        "1"@,
        "-i"@,
        image_file,
        "-f"@,
        "lavfi"@,
        "-i"@,
        "color=color=black:size=1280x720"@,
        "-filter_complex"@,
        overlay_filter_of(subtitle_file),
        "-t"@,
        clip_length_of(),
        "-b:v"@,
        "5M"@,
        "-preset"@,
        "slow"@,
        "-y"@,
        clip_name_of(index),
    ]
}

/// The arguments that join the clips of the manifest without encoding them
/// again.
pub open spec fn concat_args_of() -> Seq<Seq<char>> {
    seq![
        "-f"@,
        "concat"@,
        "-safe"@,
        "0"@,
        "-i"@,
        manifest_path_of(),
        "-c"@,
        "copy"@,
        "-y"@,
        joined_video_of(),
    ]
}

/// The arguments that put the narration over the joined video: the picture
/// is copied, the sound encoded, and the shorter of the two ends the result.
pub open spec fn merge_args_of() -> Seq<Seq<char>> {
    seq![
        "-y"@,
        "-i"@,
        joined_video_of(),
        "-i"@,
        audio_path_of(),
        "-c:v"@,
        "copy"@,
        "-c:a"@,
        "aac"@,
        "-strict"@,
        "experimental"@,
        "-map"@,
        "0:v:0"@,
        "-map"@,
        "1:a:0"@,
        "-shortest"@,
        final_video_of(),
    ]
}

/// The program that downloads the narration.
pub open spec fn downloader_of() -> Seq<char> {
    "yt-dlp"@
}

/// The arguments that download the sound of the video at `url` as MP3 into
/// the file `output`.
pub open spec fn audio_download_args_of(url: Seq<char>, output: Seq<char>) -> Seq<Seq<char>> {
    seq![
        "--extract-audio"@,
        "--audio-format"@,
        "mp3"@,
        "-f"@,
        "bestaudio"@,
        "-o"@,
        output,
        url,
    ]
}

fn push_arg(args: &mut Vec<String>, arg: &str)
    ensures
        final(args).deep_view() == old(args).deep_view().push(arg@),
{
    args.push(String::from_str(arg));
    assert(args.deep_view() =~= old(args).deep_view().push(arg@));
}

/// The filter that burns the subtitle document `subtitle_file` into a clip.
pub fn caption_filter(subtitle_file: &str) -> (r: String)
    ensures
        r@ == caption_filter_of(subtitle_file@),
{
    let mut out = String::from_str("ass=");
    out.append(subtitle_file);
    out.append(":fontsdir=./");
    out
}

/// The arguments for the renderer that make the clip of segment `index` from
/// the subtitle document `subtitle_file` alone.
pub fn caption_clip_args(subtitle_file: &str, index: usize) -> (r: Vec<String>)
    ensures
        r.deep_view() == caption_clip_args_of(subtitle_file@, index as nat),
{
    let mut args: Vec<String> = Vec::new();
    assert(args.deep_view() =~= Seq::<Seq<char>>::empty());
    push_arg(&mut args, "-y");
    push_arg(&mut args, "-f");
    push_arg(&mut args, "lavfi");
    push_arg(&mut args, "-i");
    push_arg(&mut args, "color=color=black:size=1280x720");
    push_arg(&mut args, "-vf");
    push_arg(&mut args, caption_filter(subtitle_file).as_str());
    push_arg(&mut args, "-t");
    push_arg(&mut args, decimal_string(CLIP_SECONDS).as_str());
    push_arg(&mut args, "-b:v");
    push_arg(&mut args, "5M");
    push_arg(&mut args, "-preset");
    push_arg(&mut args, "slow");
    push_arg(&mut args, "-y");
    push_arg(&mut args, clip_name(index).as_str());
    assert(args.deep_view() =~= caption_clip_args_of(subtitle_file@, index as nat));
    args
}

/// The arguments for the renderer that make the clip of segment `index` from
/// the subtitle document `subtitle_file` and the image `image_file`.
pub fn image_clip_args(subtitle_file: &str, image_file: &str, index: usize) -> (r: Vec<String>)
    ensures
        r.deep_view() == image_clip_args_of(subtitle_file@, image_file@, index as nat),
{
    let mut filter = String::from_str(
        "[0:v]scale=640:-1 [scaled]; [1:v][scaled]overlay=(W-w)/2:(H-h)/4,",
    );
    filter.append(caption_filter(subtitle_file).as_str());
    let mut args: Vec<String> = Vec::new();
    assert(args.deep_view() =~= Seq::<Seq<char>>::empty());
    push_arg(&mut args, "-y");
    push_arg(&mut args, "-loop");
    push_arg(&mut args, "1");
    push_arg(&mut args, "-i");
    push_arg(&mut args, image_file);
    push_arg(&mut args, "-f");
    push_arg(&mut args, "lavfi");
    push_arg(&mut args, "-i");
    push_arg(&mut args, "color=color=black:size=1280x720");
    push_arg(&mut args, "-filter_complex");
    push_arg(&mut args, filter.as_str());
    push_arg(&mut args, "-t");
    push_arg(&mut args, decimal_string(CLIP_SECONDS).as_str());
    push_arg(&mut args, "-b:v");
    push_arg(&mut args, "5M");
    push_arg(&mut args, "-preset");
    push_arg(&mut args, "slow");
    push_arg(&mut args, "-y");
    push_arg(&mut args, clip_name(index).as_str());
    assert(args.deep_view() =~= image_clip_args_of(subtitle_file@, image_file@, index as nat));
    args
}

/// The arguments for the renderer that join the clips of the manifest.
pub fn concat_args() -> (r: Vec<String>)
    ensures
        r.deep_view() == concat_args_of(),
{
    let mut args: Vec<String> = Vec::new();
    assert(args.deep_view() =~= Seq::<Seq<char>>::empty());
    push_arg(&mut args, "-f");
    push_arg(&mut args, "concat");
    push_arg(&mut args, "-safe");
    push_arg(&mut args, "0");
    push_arg(&mut args, "-i");
    push_arg(&mut args, "file_list.txt");
    push_arg(&mut args, "-c");
    push_arg(&mut args, "copy");
    push_arg(&mut args, "-y");
    push_arg(&mut args, "output.mp4");
    assert(args.deep_view() =~= concat_args_of());
    args
}

/// The arguments for the renderer that put the narration over the joined
/// video.
pub fn merge_args() -> (r: Vec<String>)
    ensures
        r.deep_view() == merge_args_of(),
{
    let mut args: Vec<String> = Vec::new();
    assert(args.deep_view() =~= Seq::<Seq<char>>::empty());
    push_arg(&mut args, "-y");
    push_arg(&mut args, "-i");
    push_arg(&mut args, "output.mp4");
    push_arg(&mut args, "-i");
    push_arg(&mut args, "./temp_files/audio.mp3");
    push_arg(&mut args, "-c:v");
    push_arg(&mut args, "copy");
    push_arg(&mut args, "-c:a");
    push_arg(&mut args, "aac");
    push_arg(&mut args, "-strict");
    push_arg(&mut args, "experimental");
    push_arg(&mut args, "-map");
    push_arg(&mut args, "0:v:0");
    push_arg(&mut args, "-map");
    push_arg(&mut args, "1:a:0");
    push_arg(&mut args, "-shortest");
    push_arg(&mut args, "final_output.mp4");
    assert(args.deep_view() =~= merge_args_of());
    args
}

/// The program that downloads the narration.
pub fn downloader() -> (r: &'static str)
    ensures
        r@ == downloader_of(),
{
    "yt-dlp"
}

/// The arguments for the downloader that fetch the sound of the video at
/// `url` as MP3 into the file `output`.
pub fn audio_download_args(url: &str, output: &str) -> (r: Vec<String>)
    ensures
        r.deep_view() == audio_download_args_of(url@, output@),
{
    let mut args: Vec<String> = Vec::new();
    assert(args.deep_view() =~= Seq::<Seq<char>>::empty());
    push_arg(&mut args, "--extract-audio");
    push_arg(&mut args, "--audio-format");
    push_arg(&mut args, "mp3");
    push_arg(&mut args, "-f");
    push_arg(&mut args, "bestaudio");
    push_arg(&mut args, "-o");
    push_arg(&mut args, output);
    push_arg(&mut args, url);
    assert(args.deep_view() =~= audio_download_args_of(url@, output@));
    args
}

/// The program that renders, joins and merges.
pub fn renderer() -> (r: &'static str)
    ensures
        r@ == renderer_of(),
{
    "ffmpeg"
}

/// The file that holds the joined clips.
pub fn joined_video() -> (r: &'static str)
    ensures
        r@ == joined_video_of(),
{
    "output.mp4"
}

/// The file that holds the finished video.
pub fn final_video() -> (r: &'static str)
    ensures
        r@ == final_video_of(),
{
    "final_output.mp4"
}

/// The file that holds the manifest.
pub fn manifest_path() -> (r: &'static str)
    ensures
        r@ == manifest_path_of(),
{
    "file_list.txt"
}

/// The file that holds the narration.
pub fn audio_path() -> (r: &'static str)
    ensures
        r@ == audio_path_of(),
{
    "./temp_files/audio.mp3"
}

} // verus!
