use crate::error::PipelineError;
use crate::image::ImageKind;
use crate::naming::{clip_name, clip_name_of, manifest_line, manifest_line_of};
use crate::render::{manifest_path_of, CLIP_SECONDS};
use vstd::prelude::*;
use vstd::string::*;

verus! {

/// The coarse phase of a run that observers are told of.
#[derive(Clone, Copy, Debug, PartialEq, Eq, Structural)]
pub enum Stage {
    DownloadingAudio,
    GeneratingClips,
    Concatenating,
    MergingAudio,
    Done,
    Failed,
}

/// The piece of outside work whose report a run waits for.
#[derive(Clone, Copy, Debug, PartialEq, Eq, Structural)]
pub enum Phase {
    /// The narration is being acquired.
    Audio,
    /// The image of the current segment is being downloaded.
    Image,
    /// The clip of the current segment is being rendered.
    Clip,
    /// The clips are being joined.
    Concat,
    /// The joined video is being looked for.
    Check,
    /// The narration is being put over the joined video.
    Merge,
    /// The intermediate files are being removed.
    Cleanup,
    /// Nothing more is to be done.
    Over,
}

/// How a piece of outside work ended.
#[derive(Clone, Copy, Debug, PartialEq, Eq, Structural)]
pub enum Report {
    /// The work was done.
    Success,
    /// The work was tried and failed: a tool ended with a failure status, a
    /// download was refused, a file that should be there is not.
    Failure,
    /// The work could not be tried: a program could not be started, a file
    /// could not be written or removed.
    Error,
}

/// The report on a program that was to be run: `None` where it could not be
/// started, else whether it ended with success.
pub open spec fn report_of_exit(exit: Option<bool>) -> Report {
    match exit {
        None => Report::Error,
        Some(true) => Report::Success,
        Some(false) => Report::Failure,
    }
}

/// The report on a program that was to be run.
pub fn report_exit(exit: Option<bool>) -> (r: Report)
    ensures
        r == report_of_exit(exit),
{
    match exit {
        None => Report::Error,
        Some(true) => Report::Success,
        Some(false) => Report::Failure,
    }
}

/// What became of a segment.
#[derive(Clone, Copy, Debug, PartialEq, Eq, Structural)]
pub enum SegmentOutcome {
    /// Its clip was rendered and is part of the video.
    Rendered,
    /// Its image could not be downloaded; it has no clip.
    ImageUnavailable,
    /// The renderer failed on it; it has no clip.
    RenderFailed,
}

/// The outside work that a run asks for next.
#[derive(Clone, Copy, Debug, PartialEq, Eq, Structural)]
pub enum Action {
    /// Acquire the narration audio.
    AcquireAudio,
    /// Download the image of segment `index`.
    FetchImage { index: usize },
    /// Render the clip of segment `index`, over its image or without one.
    RenderClip { index: usize, with_image: bool },
    /// Write the manifest and join the clips it names.
    Concatenate,
    /// Look whether the joined video is there.
    CheckJoined,
    /// Put the narration over the joined video.
    MergeAudio,
    /// Remove the clips and the manifest.
    CleanUp,
    /// The run is complete.
    Finish,
    /// The run is given up.
    Abort { error: PipelineError },
}

/// How many segments have been worked through, out of how many.
#[derive(Clone, Copy, Debug, PartialEq, Eq, Structural)]
pub struct Progress {
    pub completed: usize,
    pub total: usize,
}

/// What a run hands out after each report: what to tell the observers, and
/// what to do next.
#[derive(Clone, Copy, Debug)]
pub struct Directive {
    /// The stage that the run has just entered, if it entered one.
    pub announce: Option<Stage>,
    /// The progress to tell of, after a clip was rendered.
    pub progress: Option<Progress>,
    /// The work to do next.
    pub action: Action,
}

/// A run as the contracts see it.
pub ghost struct RunState {
    /// For each segment, where its image comes from.
    pub images: Seq<ImageKind>,
    /// Whether the intermediate files are removed at the end.
    pub cleanup: bool,
    pub stage: Stage,
    pub phase: Phase,
    /// What became of the segments worked through so far, in index order.
    pub outcomes: Seq<SegmentOutcome>,
    /// Why the run was given up, where it was.
    pub failure: Option<PipelineError>,
}

/// The name under which observers are told of a stage.
pub open spec fn stage_label_of(stage: Stage) -> Seq<char> {
    match stage {
        Stage::DownloadingAudio => "Downloading Audio"@,
        Stage::GeneratingClips => "Generating Videos"@,
        Stage::Concatenating => "Concatenating videos"@,
        Stage::MergingAudio => "Merging audio"@,
        Stage::Done => "Done"@,
        Stage::Failed => "Failed"@,
    }
}

/// The name under which observers are told of `stage`.
pub fn stage_label(stage: Stage) -> (r: &'static str)
    ensures
        r@ == stage_label_of(stage),
{
    match stage {
        Stage::DownloadingAudio => "Downloading Audio",
        Stage::GeneratingClips => "Generating Videos",
        Stage::Concatenating => "Concatenating videos",
        Stage::MergingAudio => "Merging audio",
        Stage::Done => "Done",
        Stage::Failed => "Failed",
    }
}

/// The place of a stage in the order in which stages follow each other.
pub open spec fn stage_rank(stage: Stage) -> nat {
    match stage {
        Stage::DownloadingAudio => 0,
        Stage::GeneratingClips => 1,
        Stage::Concatenating => 2,
        Stage::MergingAudio => 3,
        Stage::Done => 4,
        Stage::Failed => 5,
    }
}

/// The stage that a phase belongs to; a run that is over is done or failed.
pub open spec fn stage_of_phase(phase: Phase, failed: bool) -> Stage {
    match phase {
        Phase::Audio => Stage::DownloadingAudio,
        Phase::Image => Stage::GeneratingClips,
        Phase::Clip => Stage::GeneratingClips,
        Phase::Concat => Stage::Concatenating,
        Phase::Check => Stage::Concatenating,
        Phase::Merge => Stage::MergingAudio,
        Phase::Cleanup => Stage::MergingAudio,
        Phase::Over => if failed {
            Stage::Failed
        } else {
            Stage::Done
        },
    }
}

/// The states that a run can be in.
pub open spec fn well_formed(s: RunState) -> bool {
    &&& s.outcomes.len() <= s.images.len()
    &&& s.stage == stage_of_phase(s.phase, s.failure is Some)
    &&& s.failure is Some ==> s.phase == Phase::Over
    &&& s.phase == Phase::Audio ==> s.outcomes.len() == 0
    &&& (s.phase == Phase::Image || s.phase == Phase::Clip) ==> s.outcomes.len() < s.images.len()
    &&& s.phase == Phase::Image ==> s.images[s.outcomes.len() as int] == ImageKind::Remote
    &&& (s.phase == Phase::Concat || s.phase == Phase::Check || s.phase == Phase::Merge || s.phase
        == Phase::Cleanup || (s.phase == Phase::Over && s.failure is None)) ==> s.outcomes.len()
        == s.images.len()
    &&& s.phase == Phase::Cleanup ==> s.cleanup
}

/// The state in which a run begins.
pub open spec fn initial(images: Seq<ImageKind>, cleanup: bool) -> RunState {
    RunState {
        images,
        cleanup,
        stage: Stage::DownloadingAudio,
        phase: Phase::Audio,
        outcomes: seq![],
        failure: None,
    }
}

/// `s` moved on to `phase`.
pub open spec fn moved(s: RunState, phase: Phase) -> RunState {
    RunState {
        images: s.images,
        cleanup: s.cleanup,
        stage: stage_of_phase(phase, false),
        phase,
        outcomes: s.outcomes,
        failure: None,
    }
}

/// `s` with the outcome of its current segment recorded.
pub open spec fn recorded(s: RunState, outcome: SegmentOutcome) -> RunState {
    RunState {
        images: s.images,
        cleanup: s.cleanup,
        stage: s.stage,
        phase: s.phase,
        outcomes: s.outcomes.push(outcome),
        failure: s.failure,
    }
}

/// `s` given up because of `error`.
pub open spec fn failed(s: RunState, error: PipelineError) -> (RunState, Action) {
    (
        RunState {
            images: s.images,
            cleanup: s.cleanup,
            stage: Stage::Failed,
            phase: Phase::Over,
            outcomes: s.outcomes,
            failure: Some(error),
        },
        Action::Abort { error },
    )
}

/// The work on the next segment that has no outcome yet: its image is
/// downloaded first where it is remote, else its clip is rendered. Once every
/// segment has its outcome the clips are joined.
pub open spec fn next_segment(s: RunState) -> (RunState, Action) {
    let index = s.outcomes.len();
    if index < s.images.len() {
        if s.images[index as int] == ImageKind::Remote {
            (moved(s, Phase::Image), Action::FetchImage { index: index as usize })
        } else {
            (
                moved(s, Phase::Clip),
                Action::RenderClip {
                    index: index as usize,
                    with_image: s.images[index as int] == ImageKind::Local,
                },
            )
        }
    } else {
        (moved(s, Phase::Concat), Action::Concatenate)
    }
}

/// The state after `report` and the work to do next.
pub open spec fn transition(s: RunState, report: Report) -> (RunState, Action) {
    match s.phase {
        Phase::Audio => if report == Report::Success {
            next_segment(s)
        } else {
            failed(s, PipelineError::AudioUnavailable)
        },
        Phase::Image => if report == Report::Success {
            (
                moved(s, Phase::Clip),
                Action::RenderClip { index: s.outcomes.len() as usize, with_image: true },
            )
        } else {
            next_segment(recorded(s, SegmentOutcome::ImageUnavailable))
        },
        Phase::Clip => match report {
            Report::Success => next_segment(recorded(s, SegmentOutcome::Rendered)),
            Report::Failure => next_segment(recorded(s, SegmentOutcome::RenderFailed)),
            Report::Error => failed(s, PipelineError::RendererUnavailable),
        },
        Phase::Concat => if report == Report::Success {
            (moved(s, Phase::Check), Action::CheckJoined)
        } else {
            failed(s, PipelineError::ConcatenationFailed)
        },
        Phase::Check => if report == Report::Success {
            (moved(s, Phase::Merge), Action::MergeAudio)
        } else {
            failed(s, PipelineError::ConcatenatedVideoMissing)
        },
        Phase::Merge => if report != Report::Success {
            failed(s, PipelineError::MergeFailed)
        } else if s.cleanup {
            (moved(s, Phase::Cleanup), Action::CleanUp)
        } else {
            (moved(s, Phase::Over), Action::Finish)
        },
        Phase::Cleanup => if report == Report::Success {
            (moved(s, Phase::Over), Action::Finish)
        } else {
            failed(s, PipelineError::ScratchFile)
        },
        Phase::Over => (
            s,
            match s.failure {
                Some(error) => Action::Abort { error },
                None => Action::Finish,
            },
        ),
    }
}

/// The stage to announce when a run goes from `before` to `after`.
pub open spec fn announced(before: RunState, after: RunState) -> Option<Stage> {
    if after.stage != before.stage {
        Some(after.stage)
    } else {
        None
    }
}

/// The progress to tell of: after a clip was rendered, how many segments
/// have their outcome, out of how many.
pub open spec fn progress_of(before: RunState, report: Report, after: RunState) -> Option<Progress> {
    if before.phase == Phase::Clip && report == Report::Success {
        Some(
            Progress {
                completed: after.outcomes.len() as usize,
                total: after.images.len() as usize,
            },
        )
    } else {
        None
    }
}

/// The state after `report`, and what the run hands out.
pub open spec fn step(s: RunState, report: Report) -> (RunState, Directive) {
    let (after, action) = transition(s, report);
    (
        after,
        Directive { announce: announced(s, after), progress: progress_of(s, report, after), action },
    )
}

/// The indices of the segments that were rendered, in ascending order.
pub open spec fn rendered_indices(outcomes: Seq<SegmentOutcome>) -> Seq<nat>
    decreases outcomes.len(),
{
    if outcomes.len() == 0 {
        seq![]
    } else if outcomes.last() == SegmentOutcome::Rendered {
        rendered_indices(outcomes.drop_last()).push((outcomes.len() - 1) as nat)
    } else {
        rendered_indices(outcomes.drop_last())
    }
}

/// One manifest line for each of `indices`, in their order.
pub open spec fn manifest_lines(indices: Seq<nat>) -> Seq<char>
    decreases indices.len(),
{
    if indices.len() == 0 {
        seq![]
    } else {
        manifest_lines(indices.drop_last()) + manifest_line_of(indices.last())
    }
}

/// The manifest of a run: one line for the clip of each rendered segment, in
/// index order; a segment without a clip has no line.
pub open spec fn manifest_of(outcomes: Seq<SegmentOutcome>) -> Seq<char> {
    manifest_lines(rendered_indices(outcomes))
}

/// The names of the clips of `indices`, in their order.
pub open spec fn clip_names(indices: Seq<nat>) -> Seq<Seq<char>> {
    Seq::new(indices.len(), |k: int| clip_name_of(indices[k]))
}

/// The files to remove once the narration is merged: the clip of every
/// rendered segment, then the manifest.
pub open spec fn cleanup_files_of(outcomes: Seq<SegmentOutcome>) -> Seq<Seq<char>> {
    clip_names(rendered_indices(outcomes)).push(manifest_path_of())
}

/// One execution of the whole flow, from the narration to the finished
/// video. It decides; its caller does the outside work it asks for and reports
/// how each piece ended.
pub struct Run {
    images: Vec<ImageKind>,
    cleanup: bool,
    stage: Stage,
    phase: Phase,
    outcomes: Vec<SegmentOutcome>,
    failure: Option<PipelineError>,
}

impl View for Run {
    type V = RunState;

    closed spec fn view(&self) -> RunState {
        RunState {
            images: self.images@,
            cleanup: self.cleanup,
            stage: self.stage,
            phase: self.phase,
            outcomes: self.outcomes@,
            failure: self.failure,
        }
    }
}

impl Run {
    /// Begins a run over one segment per entry of `images`. The first thing
    /// it asks for is the narration.
    pub fn begin(images: Vec<ImageKind>, cleanup: bool) -> (r: (Run, Directive))
        ensures
            r.0@ == initial(images@, cleanup),
            well_formed(r.0@),
            r.1 == (Directive {
                announce: Some(Stage::DownloadingAudio),
                progress: None,
                action: Action::AcquireAudio,
            }),
    {
        let run = Run {
            images,
            cleanup,
            stage: Stage::DownloadingAudio,
            phase: Phase::Audio,
            outcomes: Vec::new(),
            failure: None,
        };
        (
            run,
            Directive {
                announce: Some(Stage::DownloadingAudio),
                progress: None,
                action: Action::AcquireAudio,
            },
        )
    }

    /// The stage that the run is in.
    pub fn stage(&self) -> (r: Stage)
        ensures
            r == self@.stage,
    {
        self.stage
    }

    /// How many segments the run has.
    pub fn total(&self) -> (r: usize)
        ensures
            r == self@.images.len(),
    {
        self.images.len()
    }

    /// What became of segment `index`, once the run has worked through it.
    pub fn outcome(&self, index: usize) -> (r: Option<SegmentOutcome>)
        ensures
            r == if index < self@.outcomes.len() {
                Some(self@.outcomes[index as int])
            } else {
                None
            },
    {
        if index < self.outcomes.len() {
            Some(self.outcomes[index])
        } else {
            None
        }
    }

    /// The indices of the segments whose clips are part of the video, in
    /// ascending order.
    pub fn included(&self) -> (r: Vec<usize>)
        ensures
            r@.len() == rendered_indices(self@.outcomes).len(),
            forall|k: int| 0 <= k < r@.len() ==> r@[k] == rendered_indices(self@.outcomes)[k],
    {
        let mut out: Vec<usize> = Vec::new();
        let mut i: usize = 0;
        while i < self.outcomes.len()
            invariant
                i <= self.outcomes.len(),
                out@.len() == rendered_indices(self.outcomes@.take(i as int)).len(),
                forall|k: int|
                    0 <= k < out@.len() ==> out@[k] == rendered_indices(
                        self.outcomes@.take(i as int),
                    )[k],
            decreases self.outcomes.len() - i,
        {
            let ghost upto = self.outcomes@.take(i + 1);
            assert(upto.drop_last() =~= self.outcomes@.take(i as int));
            match self.outcomes[i] {
                SegmentOutcome::Rendered => {
                    out.push(i);
                },
                _ => {},
            }
            i += 1;
        }
        assert(self.outcomes@.take(i as int) =~= self.outcomes@);
        out
    }

    /// How many seconds the joined video lasts: every rendered segment
    /// gives a clip of `CLIP_SECONDS`. `None` where the number does not fit.
    pub fn video_seconds(&self) -> (r: Option<usize>)
        ensures
            match r {
                Some(seconds) => seconds == rendered_indices(self@.outcomes).len() * CLIP_SECONDS,
                None => rendered_indices(self@.outcomes).len() * CLIP_SECONDS > usize::MAX,
            },
    {
        self.included().len().checked_mul(CLIP_SECONDS)
    }

    /// The text of the manifest: `file '<clip>'` and a line break for each
    /// rendered segment, in index order.
    pub fn manifest(&self) -> (r: String)
        ensures
            r@ == manifest_of(self@.outcomes),
    {
        let indices = self.included();
        let ghost wanted = rendered_indices(self@.outcomes);
        let mut out = String::new();
        let mut k: usize = 0;
        assert(wanted.take(0) =~= Seq::<nat>::empty());
        while k < indices.len()
            invariant
                k <= indices.len(),
                indices@.len() == wanted.len(),
                forall|j: int| 0 <= j < indices@.len() ==> indices@[j] == wanted[j],
                out@ == manifest_lines(wanted.take(k as int)),
            decreases indices.len() - k,
        {
            let ghost upto = wanted.take(k + 1);
            assert(upto.drop_last() =~= wanted.take(k as int));
            out.append(manifest_line(indices[k]).as_str());
            k += 1;
        }
        assert(wanted.take(k as int) =~= wanted);
        out
    }

    /// The files to remove once the narration is merged.
    pub fn cleanup_files(&self) -> (r: Vec<String>)
        ensures
            r.deep_view() == cleanup_files_of(self@.outcomes),
    {
        let indices = self.included();
        let ghost wanted = rendered_indices(self@.outcomes);
        let mut out: Vec<String> = Vec::new();
        let mut k: usize = 0;
        while k < indices.len()
            invariant
                k <= indices.len(),
                indices@.len() == wanted.len(),
                forall|j: int| 0 <= j < indices@.len() ==> indices@[j] == wanted[j],
                out@.len() == k,
                forall|j: int| 0 <= j < k ==> (#[trigger] out@[j])@ == clip_name_of(wanted[j]),
            decreases indices.len() - k,
        {
            out.push(clip_name(indices[k]));
            k += 1;
        }
        out.push(String::from_str("file_list.txt"));
        assert(out.deep_view() =~= cleanup_files_of(self@.outcomes));
        out
    }

    fn enter(&mut self, phase: Phase)
        ensures
            final(self)@ == moved(old(self)@, phase),
    {
        self.phase = phase;
        self.failure = None;
        self.stage = match phase {
            Phase::Audio => Stage::DownloadingAudio,
            Phase::Image => Stage::GeneratingClips,
            Phase::Clip => Stage::GeneratingClips,
            Phase::Concat => Stage::Concatenating,
            Phase::Check => Stage::Concatenating,
            Phase::Merge => Stage::MergingAudio,
            Phase::Cleanup => Stage::MergingAudio,
            Phase::Over => Stage::Done,
        };
    }

    fn give_up(&mut self, error: PipelineError) -> (action: Action)
        ensures
            (final(self)@, action) == failed(old(self)@, error),
    {
        self.stage = Stage::Failed;
        self.phase = Phase::Over;
        self.failure = Some(error);
        Action::Abort { error }
    }

    fn go_on(&mut self) -> (action: Action)
        ensures
            (final(self)@, action) == next_segment(old(self)@),
    {
        let index = self.outcomes.len();
        if index < self.images.len() {
            match self.images[index] {
                ImageKind::Remote => {
                    self.enter(Phase::Image);
                    Action::FetchImage { index }
                },
                ImageKind::Local => {
                    self.enter(Phase::Clip);
                    Action::RenderClip { index, with_image: true }
                },
                ImageKind::Absent => {
                    self.enter(Phase::Clip);
                    Action::RenderClip { index, with_image: false }
                },
            }
        } else {
            self.enter(Phase::Concat);
            Action::Concatenate
        }
    }

    /// Takes the report on the work that the run asked for last, and says
    /// what to tell the observers and what to do next.
    ///
    /// A failed download or a failed render costs the run that one segment; a
    /// failure anywhere else ends the run. A run that is over stays as it is
    /// and repeats its verdict.
    pub fn advance(&mut self, report: Report) -> (directive: Directive)
        ensures
            (final(self)@, directive) == step(old(self)@, report),
            well_formed(old(self)@) ==> well_formed(final(self)@),
    {
        let before = self.stage;
        let mut progress: Option<Progress> = None;
        let action = match self.phase {
            Phase::Audio => match report {
                Report::Success => self.go_on(),
                _ => self.give_up(PipelineError::AudioUnavailable),
            },
            Phase::Image => match report {
                Report::Success => {
                    self.enter(Phase::Clip);
                    Action::RenderClip { index: self.outcomes.len(), with_image: true }
                },
                _ => {
                    self.outcomes.push(SegmentOutcome::ImageUnavailable);
                    self.go_on()
                },
            },
            Phase::Clip => match report {
                Report::Success => {
                    self.outcomes.push(SegmentOutcome::Rendered);
                    progress =
                    Some(Progress { completed: self.outcomes.len(), total: self.images.len() });
                    self.go_on()
                },
                Report::Failure => {
                    self.outcomes.push(SegmentOutcome::RenderFailed);
                    self.go_on()
                },
                Report::Error => self.give_up(PipelineError::RendererUnavailable),
            },
            Phase::Concat => match report {
                Report::Success => {
                    self.enter(Phase::Check);
                    Action::CheckJoined
                },
                _ => self.give_up(PipelineError::ConcatenationFailed),
            },
            Phase::Check => match report {
                Report::Success => {
                    self.enter(Phase::Merge);
                    Action::MergeAudio
                },
                _ => self.give_up(PipelineError::ConcatenatedVideoMissing),
            },
            Phase::Merge => match report {
                Report::Success => {
                    if self.cleanup {
                        self.enter(Phase::Cleanup);
                        Action::CleanUp
                    } else {
                        self.enter(Phase::Over);
                        Action::Finish
                    }
                },
                _ => self.give_up(PipelineError::MergeFailed),
            },
            Phase::Cleanup => match report {
                Report::Success => {
                    self.enter(Phase::Over);
                    Action::Finish
                },
                _ => self.give_up(PipelineError::ScratchFile),
            },
            Phase::Over => match self.failure {
                Some(error) => Action::Abort { error },
                None => Action::Finish,
            },
        };
        let announce = match (before, self.stage) {
            (Stage::DownloadingAudio, Stage::DownloadingAudio) => None,
            (Stage::GeneratingClips, Stage::GeneratingClips) => None,
            (Stage::Concatenating, Stage::Concatenating) => None,
            (Stage::MergingAudio, Stage::MergingAudio) => None,
            (Stage::Done, Stage::Done) => None,
            (Stage::Failed, Stage::Failed) => None,
            (_, entered) => Some(entered),
        };
        proof {
            if well_formed(old(self)@) {
                lemma_step_keeps_well_formed(old(self)@, report);
            }
        }
        Directive { announce, progress, action }
    }
}

/// The state after a run that began in `s` has taken `reports` one by one.
pub open spec fn after_reports(s: RunState, reports: Seq<Report>) -> RunState
    decreases reports.len(),
{
    if reports.len() == 0 {
        s
    } else {
        step(after_reports(s, reports.drop_last()), reports.last()).0
    }
}

/// A step leads from a state that a run can be in to another such state.
pub proof fn lemma_step_keeps_well_formed(s: RunState, report: Report)
    requires
        well_formed(s),
    ensures
        well_formed(step(s, report).0),
{
}

/// A run begins in a state that it can be in.
pub proof fn lemma_initial_is_well_formed(images: Seq<ImageKind>, cleanup: bool)
    ensures
        well_formed(initial(images, cleanup)),
{
}

/// No step takes a run back to an earlier stage.
pub proof fn lemma_stage_never_regresses(s: RunState, report: Report)
    requires
        well_formed(s),
    ensures
        stage_rank(s.stage) <= stage_rank(step(s, report).0.stage),
{
}

/// Whatever reports come in, and however many, the stage of a run never goes
/// back: what it is after some of them is no later than what it is after
/// more of them.
pub proof fn lemma_run_never_regresses(s: RunState, reports: Seq<Report>, sooner: int)
    requires
        well_formed(s),
        0 <= sooner <= reports.len(),
    ensures
        well_formed(after_reports(s, reports)),
        stage_rank(after_reports(s, reports.take(sooner)).stage) <= stage_rank(
            after_reports(s, reports).stage,
        ),
    decreases reports.len(),
{
    if sooner == reports.len() {
        assert(reports.take(sooner) =~= reports);
        if reports.len() > 0 {
            lemma_run_never_regresses(s, reports.drop_last(), 0);
            lemma_step_keeps_well_formed(after_reports(s, reports.drop_last()), reports.last());
        }
    } else {
        let shorter = reports.drop_last();
        lemma_run_never_regresses(s, shorter, sooner);
        assert(shorter.take(sooner) =~= reports.take(sooner));
        lemma_stage_never_regresses(after_reports(s, shorter), reports.last());
        lemma_step_keeps_well_formed(after_reports(s, shorter), reports.last());
    }
}

/// A run that is over, done or failed, stays exactly as it is.
pub proof fn lemma_over_is_final(s: RunState, report: Report)
    requires
        s.phase == Phase::Over,
    ensures
        step(s, report).0 == s,
        step(s, report).1.announce is None,
        step(s, report).1.progress is None,
{
}

/// A failed run stays failed, and a finished run stays finished.
pub proof fn lemma_done_and_failed_absorb(s: RunState, report: Report)
    requires
        well_formed(s),
        s.stage == Stage::Done || s.stage == Stage::Failed,
    ensures
        step(s, report).0.stage == s.stage,
{
}

/// Where the joined video is not there after the clips were joined, the run
/// fails and asks for nothing more; and the narration is merged only right
/// after the joined video was found.
pub proof fn lemma_merge_needs_joined_video(s: RunState, report: Report)
    requires
        well_formed(s),
    ensures
        s.phase == Phase::Check && report != Report::Success ==> step(s, report).0.stage
            == Stage::Failed && step(s, report).1.action == (Action::Abort {
            error: PipelineError::ConcatenatedVideoMissing,
        }),
        step(s, report).1.action == Action::MergeAudio ==> s.phase == Phase::Check && report
            == Report::Success,
        step(s, report).0.phase == Phase::Merge ==> s.phase == Phase::Check && report
            == Report::Success,
{
}

/// The clips are joined only once every segment has its outcome.
pub proof fn lemma_concatenation_comes_last(s: RunState, report: Report)
    requires
        well_formed(s),
    ensures
        step(s, report).1.action == Action::Concatenate ==> step(s, report).0.outcomes.len()
            == s.images.len(),
{
}

/// A step leaves the outcomes recorded so far as they are and adds at most
/// that of the current segment: segments are neither reordered nor numbered
/// anew.
pub proof fn lemma_outcomes_only_grow(s: RunState, report: Report)
    ensures
        step(s, report).0.images == s.images,
        step(s, report).0.outcomes == s.outcomes || exists|outcome: SegmentOutcome|
            step(s, report).0.outcomes == s.outcomes.push(outcome),
        s.phase == Phase::Clip && report == Report::Success ==> step(s, report).0.outcomes
            == s.outcomes.push(SegmentOutcome::Rendered),
        step(s, report).0.outcomes.len() > s.outcomes.len() && !(s.phase == Phase::Clip && report
            == Report::Success) ==> step(s, report).0.outcomes.last()
            != SegmentOutcome::Rendered,
{
    let after = step(s, report).0;
    if after.outcomes != s.outcomes {
        let outcome = after.outcomes.last();
        assert(after.outcomes == s.outcomes.push(outcome));
    }
}

/// The report on the render of a clip that went well or did not.
pub open spec fn render_report(rendered: bool) -> Report {
    if rendered {
        Report::Success
    } else {
        Report::Failure
    }
}

/// The outcome of a segment whose render went well or did not.
pub open spec fn render_outcome(rendered: bool) -> SegmentOutcome {
    if rendered {
        SegmentOutcome::Rendered
    } else {
        SegmentOutcome::RenderFailed
    }
}

/// The reports of a run in which the narration is acquired and then the clip
/// of segment `i` renders well or not, as `rendered[i]` says.
pub open spec fn render_reports(rendered: Seq<bool>) -> Seq<Report> {
    seq![Report::Success] + Seq::new(rendered.len(), |i: int| render_report(rendered[i]))
}

/// In a run without images to download, after the narration and the renders
/// of the first `done` segments, each of these segments has the outcome of
/// its own render, in index order, and the run is about to render the next
/// segment, or to join the clips when none is left.
pub proof fn lemma_renders_decide_outcomes(
    images: Seq<ImageKind>,
    cleanup: bool,
    rendered: Seq<bool>,
    done: int,
)
    requires
        images.len() == rendered.len(),
        forall|i: int| 0 <= i < images.len() ==> images[i] != ImageKind::Remote,
        0 <= done <= rendered.len(),
    ensures
        ({
            let s = after_reports(initial(images, cleanup), render_reports(rendered.take(done)));
            &&& s.outcomes == Seq::new(done as nat, |i: int| render_outcome(rendered[i]))
            &&& s.images == images
            &&& s.cleanup == cleanup
            &&& s.failure is None
            &&& s.phase == if done < rendered.len() {
                Phase::Clip
            } else {
                Phase::Concat
            }
            &&& well_formed(s)
        }),
    decreases done,
{
    let start = initial(images, cleanup);
    let reports = render_reports(rendered.take(done));
    if done == 0 {
        assert(reports =~= seq![Report::Success]);
        assert(reports.drop_last() =~= Seq::<Report>::empty());
        assert(after_reports(start, reports.drop_last()) == start);
        let s = after_reports(start, reports);
        assert(s.outcomes =~= Seq::new(0, |i: int| render_outcome(rendered[i])));
    } else {
        lemma_renders_decide_outcomes(images, cleanup, rendered, done - 1);
        let earlier = render_reports(rendered.take(done - 1));
        assert(reports.drop_last() =~= earlier);
        assert(reports.last() == render_report(rendered[done - 1]));
        let before = after_reports(start, earlier);
        let s = after_reports(start, reports);
        assert(s == step(before, render_report(rendered[done - 1])).0);
        assert(s.outcomes =~= Seq::new(done as nat, |i: int| render_outcome(rendered[i])));
    }
}

/// In a run without images to download, whichever renders fail, the manifest
/// names the clips of exactly the segments that rendered, under their own
/// indices and in ascending order; the failed segments leave no gap in the
/// numbering of the others.
pub proof fn lemma_manifest_skips_failed_renders(
    images: Seq<ImageKind>,
    cleanup: bool,
    rendered: Seq<bool>,
)
    requires
        images.len() == rendered.len(),
        forall|i: int| 0 <= i < images.len() ==> images[i] != ImageKind::Remote,
    ensures
        ({
            let s = after_reports(initial(images, cleanup), render_reports(rendered));
            let indices = rendered_indices(s.outcomes);
            &&& s.stage == Stage::Concatenating
            &&& s.outcomes.len() == rendered.len()
            &&& forall|i: int| 0 <= i < rendered.len() ==> (indices.contains(i as nat) <==> rendered[i])
            &&& forall|k: int| 0 <= k < indices.len() ==> #[trigger] indices[k] < rendered.len()
            &&& forall|j: int, k: int|
                0 <= j < k < indices.len() ==> (#[trigger] indices[j]) < (#[trigger] indices[k])
        }),
{
    let n = rendered.len() as int;
    lemma_renders_decide_outcomes(images, cleanup, rendered, n);
    assert(rendered.take(n) =~= rendered);
    let s = after_reports(initial(images, cleanup), render_reports(rendered));
    let indices = rendered_indices(s.outcomes);
    lemma_manifest_order(s.outcomes);
    assert forall|i: int| 0 <= i < rendered.len() implies (indices.contains(i as nat)
        <==> rendered[i]) by {
        if indices.contains(i as nat) {
            let k = choose|k: int| 0 <= k < indices.len() && indices[k] == i as nat;
            assert(s.outcomes[indices[k] as int] == SegmentOutcome::Rendered);
        }
        if rendered[i] {
            assert(s.outcomes[i] == SegmentOutcome::Rendered);
        }
    }
}

/// The manifest names exactly the rendered segments, each once, in ascending
/// order of their indices.
pub proof fn lemma_manifest_order(outcomes: Seq<SegmentOutcome>)
    ensures
        forall|k: int|
            0 <= k < rendered_indices(outcomes).len() ==> (#[trigger] rendered_indices(outcomes)[k])
                < outcomes.len() && outcomes[rendered_indices(outcomes)[k] as int]
                == SegmentOutcome::Rendered,
        forall|j: int, k: int|
            0 <= j < k < rendered_indices(outcomes).len() ==> (#[trigger] rendered_indices(
                outcomes,
            )[j]) < (#[trigger] rendered_indices(outcomes)[k]),
        forall|i: int|
            0 <= i < outcomes.len() && #[trigger] outcomes[i] == SegmentOutcome::Rendered
                ==> rendered_indices(outcomes).contains(i as nat),
        rendered_indices(outcomes).len() <= outcomes.len(),
    decreases outcomes.len(),
{
    if outcomes.len() > 0 {
        let rest = outcomes.drop_last();
        lemma_manifest_order(rest);
        let before = rendered_indices(rest);
        let all = rendered_indices(outcomes);
        assert forall|i: int|
            0 <= i < outcomes.len() && #[trigger] outcomes[i]
                == SegmentOutcome::Rendered implies all.contains(i as nat) by {
            if i < rest.len() {
                assert(rest[i] == outcomes[i]);
                let k = choose|k: int| 0 <= k < before.len() && before[k] == i as nat;
                assert(all[k] == i as nat);
            } else {
                assert(all[all.len() - 1] == i as nat);
            }
        }
    }
}

} // verus!
