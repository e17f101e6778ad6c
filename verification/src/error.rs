use vstd::prelude::*;
use vstd::string::*;

verus! {

/// Why a run was given up.
#[derive(Clone, Copy, Debug, PartialEq, Eq, Structural)]
pub enum PipelineError {
    /// The narration audio could not be had.
    AudioUnavailable,
    /// The renderer could not be started for a clip.
    RendererUnavailable,
    /// A file of the run could not be written or removed.
    ScratchFile,
    /// Joining the clips failed.
    ConcatenationFailed,
    /// Joining the clips reported success but left no video behind.
    ConcatenatedVideoMissing,
    /// Putting the narration over the video failed.
    MergeFailed,
}

/// The message shown for `error`.
pub open spec fn message_of(error: PipelineError) -> Seq<char> {
    match error {
        PipelineError::AudioUnavailable => "Failed to download the narration audio"@,
        PipelineError::RendererUnavailable => "Failed to run the renderer"@,
        PipelineError::ScratchFile => "Failed to write or remove an intermediate file"@,
        PipelineError::ConcatenationFailed => "Failed to concatenate videos"@,
        PipelineError::ConcatenatedVideoMissing => "Concatenated video (output.mp4) not found"@,
        PipelineError::MergeFailed => "Failed to merge audio with video"@,
    }
}

impl PipelineError {
    /// The message shown for this error.
    pub fn message(&self) -> (r: String)
        ensures
            r@ == message_of(*self),
    {
        match self {
            PipelineError::AudioUnavailable => String::from_str(
                "Failed to download the narration audio",
            ),
            PipelineError::RendererUnavailable => String::from_str("Failed to run the renderer"),
            PipelineError::ScratchFile => String::from_str(
                "Failed to write or remove an intermediate file",
            ),
            PipelineError::ConcatenationFailed => String::from_str("Failed to concatenate videos"),
            PipelineError::ConcatenatedVideoMissing => String::from_str(
                "Concatenated video (output.mp4) not found",
            ),
            PipelineError::MergeFailed => String::from_str("Failed to merge audio with video"),
        }
    }
}

} // verus!
