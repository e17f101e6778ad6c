use text_to_video::error::PipelineError;
use text_to_video::image::ImageKind;
use text_to_video::pipeline::{
    report_exit, stage_label, Action, Directive, Progress, Report, Run, SegmentOutcome, Stage,
};

fn rank(stage: Stage) -> u8 {
    match stage {
        Stage::DownloadingAudio => 0,
        Stage::GeneratingClips => 1,
        Stage::Concatenating => 2,
        Stage::MergingAudio => 3,
        Stage::Done => 4,
        Stage::Failed => 5,
    }
}

/// Drives a run over `total` plain segments; the clip of a segment in
/// `failing` fails to render. Returns the run once it is over, and what it
/// asked for on the way.
fn drive(total: usize, failing: &[usize], cleanup: bool) -> (Run, Vec<Action>, Vec<Stage>) {
    let (mut run, mut directive) = Run::begin(vec![ImageKind::Absent; total], cleanup);
    let mut actions = Vec::new();
    let mut stages = Vec::new();
    loop {
        if let Some(stage) = directive.announce {
            stages.push(stage);
        }
        actions.push(directive.action);
        let report = match directive.action {
            Action::RenderClip { index, .. } => {
                if failing.contains(&index) {
                    Report::Failure
                } else {
                    Report::Success
                }
            }
            Action::Finish | Action::Abort { .. } => break,
            _ => Report::Success,
        };
        let before = run.stage();
        directive = run.advance(report);
        assert!(rank(before) <= rank(run.stage()));
    }
    (run, actions, stages)
}

#[test]
fn three_sentences_make_three_clips() {
    let (run, actions, stages) = drive(3, &[], true);
    assert_eq!(
        actions,
        vec![
            Action::AcquireAudio,
            Action::RenderClip { index: 0, with_image: false },
            Action::RenderClip { index: 1, with_image: false },
            Action::RenderClip { index: 2, with_image: false },
            Action::Concatenate,
            Action::CheckJoined,
            Action::MergeAudio,
            Action::CleanUp,
            Action::Finish,
        ]
    );
    assert_eq!(
        stages,
        vec![
            Stage::DownloadingAudio,
            Stage::GeneratingClips,
            Stage::Concatenating,
            Stage::MergingAudio,
            Stage::Done,
        ]
    );
    assert_eq!(run.stage(), Stage::Done);
    assert_eq!(run.included(), vec![0, 1, 2]);
    assert_eq!(run.manifest(), "file 'output0.mp4'\nfile 'output1.mp4'\nfile 'output2.mp4'\n");
    assert_eq!(
        run.cleanup_files(),
        vec!["output0.mp4", "output1.mp4", "output2.mp4", "file_list.txt"]
    );
    // Each clip lasts five seconds, so the video lasts as many times five.
    assert_eq!(run.video_seconds(), Some(15));
}

#[test]
fn failed_segments_are_left_out_of_the_manifest() {
    let (run, actions, _) = drive(10, &[2, 5, 7], false);
    assert_eq!(run.stage(), Stage::Done);
    assert_eq!(run.included(), vec![0, 1, 3, 4, 6, 8, 9]);
    assert_eq!(
        run.manifest(),
        "file 'output0.mp4'\nfile 'output1.mp4'\nfile 'output3.mp4'\nfile 'output4.mp4'\nfile 'output6.mp4'\nfile 'output8.mp4'\nfile 'output9.mp4'\n"
    );
    for i in 0..10 {
        let expected = if [2, 5, 7].contains(&i) {
            SegmentOutcome::RenderFailed
        } else {
            SegmentOutcome::Rendered
        };
        assert_eq!(run.outcome(i), Some(expected));
    }
    assert_eq!(run.outcome(10), None);
    assert_eq!(run.total(), 10);
    assert!(!actions.contains(&Action::CleanUp));
    assert_eq!(actions.last(), Some(&Action::Finish));
}

#[test]
fn missing_joined_video_fails_the_run_before_merging() {
    let (mut run, _) = Run::begin(vec![ImageKind::Absent], true);
    run.advance(Report::Success);
    run.advance(Report::Success);
    let d = run.advance(Report::Success);
    assert_eq!(d.action, Action::CheckJoined);
    assert_eq!(run.stage(), Stage::Concatenating);
    let d = run.advance(Report::Failure);
    assert_eq!(d.action, Action::Abort { error: PipelineError::ConcatenatedVideoMissing });
    assert_eq!(d.announce, Some(Stage::Failed));
    assert_eq!(run.stage(), Stage::Failed);
    for report in [Report::Success, Report::Failure, Report::Error] {
        let d = run.advance(report);
        assert_eq!(d.action, Action::Abort { error: PipelineError::ConcatenatedVideoMissing });
        assert_eq!(d.announce, None);
        assert_eq!(run.stage(), Stage::Failed);
    }
}

#[test]
fn no_narration_no_run() {
    for report in [Report::Failure, Report::Error] {
        let (mut run, first) = Run::begin(vec![ImageKind::Absent; 2], true);
        assert_eq!(first.action, Action::AcquireAudio);
        assert_eq!(first.announce, Some(Stage::DownloadingAudio));
        assert_eq!(first.progress, None);
        assert_eq!(run.stage(), Stage::DownloadingAudio);
        let d = run.advance(report);
        assert_eq!(d.action, Action::Abort { error: PipelineError::AudioUnavailable });
        assert_eq!(run.stage(), Stage::Failed);
        assert_eq!(run.outcome(0), None);
    }
}

#[test]
fn a_failed_download_costs_only_its_segment() {
    let kinds = vec![ImageKind::Remote, ImageKind::Local, ImageKind::Remote];
    let (mut run, _) = Run::begin(kinds, false);
    let d = run.advance(Report::Success);
    assert_eq!(d.action, Action::FetchImage { index: 0 });
    assert_eq!(d.announce, Some(Stage::GeneratingClips));
    let d = run.advance(Report::Failure);
    assert_eq!(d.action, Action::RenderClip { index: 1, with_image: true });
    assert_eq!(d.progress, None);
    assert_eq!(run.outcome(0), Some(SegmentOutcome::ImageUnavailable));
    let d = run.advance(Report::Success);
    assert_eq!(d.progress, Some(Progress { completed: 2, total: 3 }));
    assert_eq!(d.action, Action::FetchImage { index: 2 });
    let d = run.advance(Report::Success);
    assert_eq!(d.action, Action::RenderClip { index: 2, with_image: true });
    let d = run.advance(Report::Success);
    assert_eq!(d.progress, Some(Progress { completed: 3, total: 3 }));
    assert_eq!(d.action, Action::Concatenate);
    assert_eq!(d.announce, Some(Stage::Concatenating));
    assert_eq!(run.included(), vec![1, 2]);
    assert_eq!(run.manifest(), "file 'output1.mp4'\nfile 'output2.mp4'\n");
}

#[test]
fn every_fatal_step_has_its_error() {
    // The renderer cannot be started.
    let (mut run, _) = Run::begin(vec![ImageKind::Absent], false);
    run.advance(Report::Success);
    let d = run.advance(Report::Error);
    assert_eq!(d.action, Action::Abort { error: PipelineError::RendererUnavailable });
    // Joining fails.
    let (mut run, _) = Run::begin(vec![ImageKind::Absent], false);
    run.advance(Report::Success);
    run.advance(Report::Failure);
    let d = run.advance(Report::Failure);
    assert_eq!(d.action, Action::Abort { error: PipelineError::ConcatenationFailed });
    // Merging fails.
    let (mut run, _) = Run::begin(Vec::new(), true);
    let d = run.advance(Report::Success);
    assert_eq!(d.action, Action::Concatenate);
    run.advance(Report::Success);
    let d = run.advance(Report::Success);
    assert_eq!(d.action, Action::MergeAudio);
    assert_eq!(d.announce, Some(Stage::MergingAudio));
    let d = run.advance(Report::Failure);
    assert_eq!(d.action, Action::Abort { error: PipelineError::MergeFailed });
    // Cleaning up fails.
    let (mut run, _) = Run::begin(Vec::new(), true);
    run.advance(Report::Success);
    run.advance(Report::Success);
    run.advance(Report::Success);
    let d = run.advance(Report::Success);
    assert_eq!(d.action, Action::CleanUp);
    assert_eq!(d.announce, None);
    let d = run.advance(Report::Error);
    assert_eq!(d.action, Action::Abort { error: PipelineError::ScratchFile });
    assert_eq!(run.stage(), Stage::Failed);
}

#[test]
fn a_finished_run_stays_finished() {
    let (mut run, _, _) = drive(2, &[1], true);
    for report in [Report::Success, Report::Failure, Report::Error] {
        let d: Directive = run.advance(report);
        assert_eq!(d.action, Action::Finish);
        assert_eq!(d.announce, None);
        assert_eq!(d.progress, None);
        assert_eq!(run.stage(), Stage::Done);
    }
    assert_eq!(run.manifest(), "file 'output0.mp4'\n");
}

#[test]
fn progress_counts_the_segments_worked_through() {
    let (mut run, _) = Run::begin(vec![ImageKind::Absent; 4], false);
    run.advance(Report::Success);
    assert_eq!(
        run.advance(Report::Success).progress,
        Some(Progress { completed: 1, total: 4 })
    );
    assert_eq!(run.advance(Report::Failure).progress, None);
    assert_eq!(
        run.advance(Report::Success).progress,
        Some(Progress { completed: 3, total: 4 })
    );
}

#[test]
fn exit_codes_become_reports() {
    assert_eq!(report_exit(Some(true)), Report::Success);
    assert_eq!(report_exit(Some(false)), Report::Failure);
    assert_eq!(report_exit(None), Report::Error);
}

#[test]
fn stages_have_their_labels() {
    assert_eq!(stage_label(Stage::DownloadingAudio), "Downloading Audio");
    assert_eq!(stage_label(Stage::GeneratingClips), "Generating Videos");
    assert_eq!(stage_label(Stage::Concatenating), "Concatenating videos");
    assert_eq!(stage_label(Stage::MergingAudio), "Merging audio");
    assert_eq!(stage_label(Stage::Done), "Done");
    assert_eq!(stage_label(Stage::Failed), "Failed");
}

#[test]
fn skipped_segments_shorten_the_video() {
    let (run, _, _) = drive(10, &[2, 5, 7], false);
    assert_eq!(run.video_seconds(), Some(35));
    let (empty, _, _) = drive(0, &[], false);
    assert_eq!(empty.video_seconds(), Some(0));
    assert_eq!(empty.manifest(), "");
}

#[test]
fn error_messages() {
    assert_eq!(PipelineError::ConcatenationFailed.message(), "Failed to concatenate videos");
    assert_eq!(
        PipelineError::ConcatenatedVideoMissing.message(),
        "Concatenated video (output.mp4) not found"
    );
    assert_eq!(PipelineError::MergeFailed.message(), "Failed to merge audio with video");
    assert_eq!(
        PipelineError::AudioUnavailable.message(),
        "Failed to download the narration audio"
    );
    assert_eq!(PipelineError::RendererUnavailable.message(), "Failed to run the renderer");
    assert_eq!(
        PipelineError::ScratchFile.message(),
        "Failed to write or remove an intermediate file"
    );
}
