use audiomirror::render::{copy_frames, Pacing, Pass, Phase, STARVE_LIMIT};

fn pass(reprime: bool, read_frames: usize, underrun: bool, back_to_priming: bool) -> Pass {
    Pass { reprime, read_frames, underrun, back_to_priming }
}

#[test]
fn nothing_runs_until_the_buffer_is_primed() {
    let mut pacing = Pacing::new();
    assert_eq!(pacing.phase(), Phase::Priming);
    assert_eq!(pacing.begin_pass(100, 200, 64), pass(false, 0, false, false));
    assert_eq!(pacing.phase(), Phase::Priming);

    assert_eq!(pacing.begin_pass(200, 200, 64), pass(true, 64, false, false));
    assert_eq!(pacing.phase(), Phase::Running);
    assert_eq!(pacing.begin_pass(150, 200, 64), pass(false, 64, false, false));
}

#[test]
fn a_short_buffer_reads_what_is_there() {
    let mut pacing = Pacing::new();
    pacing.begin_pass(300, 200, 64);
    assert_eq!(pacing.begin_pass(10, 200, 64), pass(false, 10, true, false));
    assert_eq!(pacing.phase(), Phase::Running);
}

#[test]
fn a_dry_source_sends_the_stream_back_to_priming() {
    let mut pacing = Pacing::new();
    pacing.begin_pass(300, 200, 64);
    for _ in 1..STARVE_LIMIT {
        assert_eq!(pacing.begin_pass(0, 200, 64), pass(false, 0, false, false));
        assert_eq!(pacing.phase(), Phase::Running);
    }
    assert_eq!(pacing.begin_pass(0, 200, 64), pass(false, 0, false, true));
    assert_eq!(pacing.phase(), Phase::Priming);
}

#[test]
fn a_full_pass_forgets_earlier_dry_passes() {
    let mut pacing = Pacing::new();
    pacing.begin_pass(300, 200, 64);
    for _ in 1..STARVE_LIMIT {
        pacing.begin_pass(0, 200, 64);
    }
    assert_eq!(pacing.begin_pass(64, 200, 64), pass(false, 64, false, false));
    for _ in 1..STARVE_LIMIT {
        assert!(!pacing.begin_pass(0, 200, 64).back_to_priming);
    }
    assert_eq!(pacing.phase(), Phase::Running);
}

#[test]
fn whole_frames_are_copied_into_place() {
    let src = [1, 2, 3, 4, 5, 6, 7, 8];
    let mut dst = [0; 8];
    copy_frames(&mut dst, 1, &src, 2, 2, 2);
    assert_eq!(dst, [0, 0, 5, 6, 7, 8, 0, 0]);
    copy_frames(&mut dst, 0, &src, 0, 0, 2);
    assert_eq!(dst, [0, 0, 5, 6, 7, 8, 0, 0]);
}
