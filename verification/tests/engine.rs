use audiomirror::engine::{
    buffer_plan, burst_step, close_all, close_stream, scan_due, BurstAction, BurstEvent, is_mirroring, source_row, target_rows, plan_source, plan_target, retire_removed, source_verdict, target_verdict,
    track_new, worth_publishing, Link, LiveTarget, Step, Verdict, RETRY_BASE_MS, RETRY_CEILING_MS,
};
use audiomirror::model::{
    SourceConfig,
    LinkState, MirrorConfig, TargetConfig, FAULT_BUSY, FAULT_DISCONNECTED, FAULT_NONE, FAULT_XRUN,
};

#[test]
fn the_plan_never_goes_below_a_capture_block() {
    // 3 ms at 48 kHz is 144 frames, well under the 480-frame blocks a
    // shared-mode host delivers.
    let (target, capacity) = buffer_plan(3, 48_000, 480);
    assert!(target >= 480 * 3 / 2, "target {target} is below one block");
    assert!(capacity > target * 2);
}

#[test]
fn the_plan_honours_a_comfortable_request() {
    let (target, _) = buffer_plan(45, 48_000, 480);
    assert_eq!(target, 2_160);
}

#[test]
fn the_plan_copes_with_an_unknown_block_size() {
    let (target, capacity) = buffer_plan(5, 44_100, 0);
    assert!(target > 0 && capacity > target);
}

#[test]
fn the_plan_adds_a_pass_to_one_block_and_a_half_and_leaves_room() {
    // 720 + 64 frames for a 480-frame block; the ring holds four targets and
    // two blocks.
    assert_eq!(buffer_plan(3, 48_000, 480), (784, 784 * 4 + 960));
    // Unknown block at 44.1 kHz: 441 frames assumed.
    assert_eq!(buffer_plan(5, 44_100, 0), (725, 725 * 4 + 882));
    // Never below two passes, even with no block and no request.
    assert_eq!(buffer_plan(0, 0, 0), (128, 512));
}

#[test]
fn backoff_grows_then_settles() {
    let now = 10_000;
    let mut link = Link::new(now);
    let mut previous = 0;

    for _ in 0..4 {
        link.fail("nope".into(), now);
        let delay = link.next_try - now;
        assert!(delay >= previous, "backoff went backwards");
        previous = delay;
    }

    for _ in 0..20 {
        link.fail("nope".into(), now);
    }
    assert!(link.next_try - now <= RETRY_CEILING_MS);
}

#[test]
fn an_interrupted_link_retries_at_once() {
    let now = 10_000;
    let mut link = Link::new(now);
    link.fail("gone".into(), now);
    assert!(!link.ready(now));

    link.interrupt(LinkState::Missing, None, now);
    assert!(link.ready(now), "a returning device must not wait out a backoff");
}

#[test]
fn the_backoff_doubles_from_the_base_up_to_the_ceiling() {
    let now = 0;
    let mut link = Link::new(now);
    let mut delays = Vec::new();
    for _ in 0..7 {
        link.fail("refused".into(), now);
        delays.push(link.next_try - now);
    }
    assert_eq!(delays, [250, 500, 1000, 2000, 4000, 5000, 5000]);
    assert_eq!(delays[0], RETRY_BASE_MS);
    assert_eq!(link.failures, 7);
    assert_eq!(link.state, LinkState::Failed);
    assert_eq!(link.detail.as_deref(), Some("refused"));
    assert_eq!(link.retry_in_ms(now + 1_000), Some(4_000));
    assert_eq!(link.retry_in_ms(now + 4_999), Some(1));
    assert_eq!(link.retry_in_ms(now + 5_000), None);

    link.succeed();
    assert_eq!(link.failures, 0);
    assert_eq!(link.state, LinkState::Live);
    assert!(link.detail.is_none());
}

#[test]
fn verdicts_follow_faults_presence_and_flow() {
    assert!(matches!(source_verdict(false, FAULT_NONE, true), Verdict::Reopen(LinkState::Connecting, None)));
    match source_verdict(true, FAULT_DISCONNECTED, true) {
        Verdict::Reopen(LinkState::Connecting, Some(detail)) => assert_eq!(detail, "device disconnected"),
        other => panic!("unexpected {other:?}"),
    }
    // A transient gap is not a reason to rebuild.
    assert!(matches!(source_verdict(true, FAULT_XRUN, true), Verdict::Keep));
    assert!(matches!(source_verdict(true, FAULT_NONE, false), Verdict::Reopen(LinkState::Missing, None)));

    assert!(matches!(target_verdict(false, FAULT_NONE, true, true), Verdict::Reopen(LinkState::Connecting, None)));
    match target_verdict(true, FAULT_BUSY, true, true) {
        Verdict::Reopen(LinkState::Connecting, Some(detail)) => {
            assert_eq!(detail, "device held by another application")
        }
        other => panic!("unexpected {other:?}"),
    }
    assert!(matches!(target_verdict(true, FAULT_NONE, false, true), Verdict::Reopen(LinkState::Missing, None)));
    assert!(matches!(target_verdict(true, FAULT_NONE, true, true), Verdict::Keep));
    assert!(matches!(target_verdict(true, FAULT_XRUN, true, false), Verdict::Priming));
}

#[test]
fn a_source_is_kept_reopened_awaited_or_opened() {
    let now = 1_000;

    let mut link = Link::new(now);
    assert_eq!(plan_source(&mut link, Some(Verdict::Keep), true, now), Step { close: false, open: false });
    assert_eq!(link.state, LinkState::Live);

    let mut link = Link::new(now);
    let step = plan_source(&mut link, Some(Verdict::Reopen(LinkState::Missing, None)), false, now);
    assert_eq!(step, Step { close: true, open: false });
    assert_eq!(link.state, LinkState::Missing);

    let mut link = Link::new(now);
    assert_eq!(plan_source(&mut link, None, true, now), Step { close: false, open: true });

    let mut link = Link::new(now);
    link.fail("refused".into(), now);
    assert_eq!(plan_source(&mut link, None, true, now + 100), Step { close: false, open: false });
    assert_eq!(link.state, LinkState::Failed, "a refusing device keeps its reason while it waits");

    let mut link = Link::new(now + 50);
    assert_eq!(plan_source(&mut link, None, true, now), Step { close: false, open: false });
    assert_eq!(link.state, LinkState::Connecting);
}

#[test]
fn a_destination_waits_for_its_source_and_primes_after_opening() {
    let now = 1_000;

    let mut link = Link::new(now);
    assert_eq!(plan_target(&mut link, false, true, None, true, now), Step { close: true, open: false });
    assert_eq!(link.state, LinkState::Idle);

    let mut link = Link::new(now);
    assert_eq!(plan_target(&mut link, true, false, None, true, now), Step { close: true, open: false });
    assert_eq!(link.state, LinkState::Connecting);

    let mut link = Link::new(now);
    assert_eq!(
        plan_target(&mut link, true, true, Some(Verdict::Priming), true, now),
        Step { close: false, open: false }
    );
    assert_eq!(link.state, LinkState::Priming);

    let mut link = Link::new(now);
    let step = plan_target(&mut link, true, true, Some(Verdict::Reopen(LinkState::Connecting, None)), true, now);
    assert_eq!(step, Step { close: true, open: true });
    link.start_priming();
    assert_eq!(link.state, LinkState::Priming);
    assert_eq!(link.failures, 0);
}

fn target(id: &str) -> TargetConfig<f32> {
    TargetConfig { id: id.into(), name: id.to_uppercase(), enabled: true, gain_db: 0.0, muted: false }
}

fn live(id: &str, key: u64) -> LiveTarget<&'static str> {
    LiveTarget { id: id.into(), key, generation: 3, sink: Some("stream"), link: Link::new(0) }
}

#[test]
fn the_roster_follows_the_configuration() {
    let mut config = MirrorConfig::<f32>::default();
    config.targets = vec![target("b"), target("c")];

    let mut roster = vec![live("a", 1), live("b", 2)];
    let removed = retire_removed(&mut roster, &config);
    assert_eq!(removed.len(), 1);
    assert_eq!(removed[0].id, "a");
    assert_eq!(roster.len(), 1);
    assert_eq!(roster[0].key, 2);

    let mut next_key = 7;
    track_new(&mut roster, &config, &mut next_key, 500);
    assert_eq!(next_key, 8);
    assert_eq!(roster.len(), 2);
    assert_eq!(roster[1].id, "c");
    assert_eq!(roster[1].key, 7);
    assert_eq!(roster[1].generation, 0);
    assert!(roster[1].sink.is_none());
    assert_eq!(roster[1].link.next_try, 500);
    assert_eq!(roster[0].sink, Some("stream"));
}

#[test]
fn only_structural_changes_wake_an_unwatched_interface() {
    let shape = vec![("a".to_string(), LinkState::Live)];
    let same = shape.clone();
    let other = vec![("a".to_string(), LinkState::Priming)];
    let src = Some(LinkState::Live);

    assert!(!worth_publishing(false, &shape, &same, src, src, true, true));
    assert!(worth_publishing(true, &shape, &same, src, src, true, true));
    assert!(worth_publishing(false, &shape, &other, src, src, true, true));
    assert!(worth_publishing(false, &shape, &same, None, src, true, true));
    assert!(worth_publishing(false, &shape, &same, src, src, false, true));
    assert!(worth_publishing(false, &shape, &Vec::new(), src, src, true, true));
}

#[test]
fn mirroring_means_one_destination_renders() {
    assert!(!is_mirroring(&vec![]));
    assert!(!is_mirroring(&vec![LinkState::Priming, LinkState::Failed]));
    assert!(is_mirroring(&vec![LinkState::Missing, LinkState::Live]));
}

#[test]
fn closing_hands_back_the_streams_that_were_open() {
    let mut one = live("a", 1);
    assert_eq!(close_stream(&mut one), Some("stream"));
    assert_eq!(one.generation, 0);
    assert!(one.sink.is_none());
    assert_eq!(close_stream(&mut one), None);

    let mut idle = live("b", 2);
    idle.sink = None;
    let mut roster = vec![live("a", 1), idle, live("c", 3)];
    roster[0].link.fail("refused".to_string(), 100);
    let closed = close_all(&mut roster, LinkState::Connecting, 400);
    assert_eq!(closed, vec![(1, "stream"), (3, "stream")]);
    assert_eq!(roster.len(), 3);
    for entry in &roster {
        assert!(entry.sink.is_none());
        assert_eq!(entry.generation, 0);
        assert_eq!(entry.link.state, LinkState::Connecting);
        assert_eq!(entry.link.next_try, 400);
        assert!(entry.link.detail.is_none());
    }
    assert_eq!(roster[0].link.failures, 1);
    assert_eq!(roster[1].id, "b");
}

#[test]
fn every_configured_destination_keeps_its_row() {
    let mut config = MirrorConfig::<f32>::default();
    config.targets = vec![target("a"), target("gone"), target("c")];
    let mut roster = vec![live("c", 3), live("a", 1)];
    roster[0].sink = None;
    roster[0].link.fail("refused".to_string(), 1_000);
    roster[1].link.succeed();

    let rows = target_rows(&config, &roster, 1_100);
    assert_eq!(rows.len(), 3);
    assert_eq!(rows[0].id, "a");
    assert_eq!(rows[0].name, "A");
    assert_eq!(rows[0].state, LinkState::Live);
    assert_eq!(rows[0].stream, Some(1));
    assert_eq!(rows[1].id, "gone");
    assert_eq!(rows[1].state, LinkState::Idle);
    assert!(rows[1].detail.is_none() && rows[1].retry_in_ms.is_none() && rows[1].stream.is_none());
    assert_eq!(rows[2].state, LinkState::Failed);
    assert_eq!(rows[2].detail.as_deref(), Some("refused"));
    assert_eq!(rows[2].retry_in_ms, Some(150));
    assert_eq!(rows[2].stream, None);
}

#[test]
fn the_source_row_prefers_the_open_device_name() {
    let mut config = MirrorConfig::<f32>::default();
    let link = Link::new(0);
    assert!(source_row(&config, &link, None, 0).is_none());

    config.source = Some(SourceConfig { id: "mic".to_string(), name: "Old name".to_string() });
    let closed = source_row(&config, &link, None, 0).unwrap();
    assert_eq!(closed.name, "Old name");
    assert!(!closed.open);
    assert_eq!(closed.state, LinkState::Idle);

    let open = source_row(&config, &link, Some("New name".to_string()), 0).unwrap();
    assert_eq!(open.id, "mic");
    assert_eq!(open.name, "New name");
    assert!(open.open);
}

#[test]
fn enumeration_waits_for_its_interval() {
    assert!(scan_due(None, 0));
    assert!(!scan_due(Some(5_000), 5_999));
    assert!(scan_due(Some(5_000), 6_000));
    assert!(!scan_due(Some(5_000), 4_000));
}

#[test]
fn a_burst_of_commands_is_announced_once() {
    let (mutated, action) = burst_step(false, BurstEvent::Handled(false));
    assert_eq!((mutated, action), (false, BurstAction::Continue));
    let (mutated, action) = burst_step(mutated, BurstEvent::Handled(true));
    assert_eq!((mutated, action), (true, BurstAction::Continue));
    let (mutated, action) = burst_step(mutated, BurstEvent::Handled(false));
    assert_eq!((mutated, action), (true, BurstAction::Continue));
    assert_eq!(burst_step(mutated, BurstEvent::Drained), (false, BurstAction::Announce));
    assert_eq!(burst_step(false, BurstEvent::Drained), (false, BurstAction::Settle));
    assert_eq!(burst_step(true, BurstEvent::Shutdown).1, BurstAction::Stop);
}
