use std::sync::atomic::Ordering;
use std::sync::Arc;

use audiomirror::model::TargetTelemetry;
use audiomirror::ring::{ring, RingReader};
use audiomirror::source::{
    apply_order, apply_orders, collect_released, distribute, post_order, settle_tap, tap_queues, Tap, TapOrder, MAX_TARGETS,
};

fn tap(key: u64, channels: usize, capacity: usize) -> (Box<Tap>, RingReader) {
    let (writer, reader) = ring(channels, capacity);
    (Box::new(Tap { key, writer, telemetry: Arc::new(TargetTelemetry::new()) }), reader)
}

fn keys(taps: &[Box<Tap>]) -> Vec<u64> {
    taps.iter().map(|t| t.key).collect()
}

#[test]
fn attaching_appends_and_detaching_swaps_in_the_last() {
    let mut taps: Vec<Box<Tap>> = Vec::with_capacity(MAX_TARGETS);
    let mut readers = Vec::new();
    for key in [1, 2, 3] {
        let (t, r) = tap(key, 2, 16);
        readers.push(r);
        assert!(apply_order(&mut taps, TapOrder::Attach(t)).is_none());
    }
    assert_eq!(keys(&taps), vec![1, 2, 3]);

    let retired = apply_order(&mut taps, TapOrder::Detach(1)).unwrap();
    assert_eq!(retired.key, 1);
    assert_eq!(keys(&taps), vec![3, 2]);

    assert!(apply_order(&mut taps, TapOrder::Detach(42)).is_none());
    assert_eq!(keys(&taps), vec![3, 2]);
}

#[test]
fn a_full_list_hands_the_newcomer_back() {
    let mut taps: Vec<Box<Tap>> = Vec::with_capacity(MAX_TARGETS);
    let mut readers = Vec::new();
    for key in 0..MAX_TARGETS as u64 {
        let (t, r) = tap(key, 1, 4);
        readers.push(r);
        assert!(apply_order(&mut taps, TapOrder::Attach(t)).is_none());
    }
    let (extra, _reader) = tap(999, 1, 4);
    let back = apply_order(&mut taps, TapOrder::Attach(extra)).unwrap();
    assert_eq!(back.key, 999);
    assert_eq!(taps.len(), MAX_TARGETS);
}

#[test]
fn orders_travel_through_the_queues() {
    let (orders, released) = tap_queues();
    let mut taps: Vec<Box<Tap>> = Vec::with_capacity(MAX_TARGETS);
    let (a, _ra) = tap(7, 2, 8);
    let (b, _rb) = tap(8, 2, 8);
    assert!(post_order(&orders, TapOrder::Attach(a)));
    assert!(post_order(&orders, TapOrder::Attach(b)));
    assert!(post_order(&orders, TapOrder::Detach(7)));
    apply_orders(&orders, &released, &mut taps);
    assert_eq!(keys(&taps), vec![8]);

    let freed = collect_released(&released);
    assert_eq!(keys(&freed), vec![7]);
    assert!(collect_released(&released).is_empty());
}

#[test]
fn every_ring_gets_the_block_and_overruns_are_counted() {
    let released = tap_queues().1;
    let mut taps: Vec<Box<Tap>> = Vec::with_capacity(MAX_TARGETS);
    let (roomy, mut roomy_reader) = tap(1, 2, 8);
    let (tight, mut tight_reader) = tap(2, 2, 2);
    let tight_telemetry = Arc::clone(&tight.telemetry);
    taps.push(roomy);
    taps.push(tight);

    let block = [1u32, 2, 3, 4, 5, 6];
    distribute(&block, &mut taps, &released);
    assert_eq!(keys(&taps), vec![1, 2]);

    let mut out = [0u32; 6];
    assert_eq!(roomy_reader.read(&mut out), 3);
    assert_eq!(out, block);

    let mut out = [0u32; 6];
    assert_eq!(tight_reader.read(&mut out), 2);
    assert_eq!(&out[..4], &block[..4]);
    assert_eq!(tight_telemetry.overruns.load(Ordering::Relaxed), 1);
}

#[test]
fn a_tap_whose_destination_ended_is_let_go() {
    let released = tap_queues().1;
    let mut taps: Vec<Box<Tap>> = Vec::with_capacity(MAX_TARGETS);
    let (gone, gone_reader) = tap(1, 1, 4);
    let (kept, mut kept_reader) = tap(2, 1, 4);
    taps.push(gone);
    taps.push(kept);
    drop(gone_reader);

    distribute(&[9u32, 8], &mut taps, &released);
    assert_eq!(keys(&taps), vec![2]);
    assert_eq!(keys(&collect_released(&released)), vec![1]);

    let mut out = [0u32; 2];
    assert_eq!(kept_reader.read(&mut out), 2);
    assert_eq!(out, [9, 8]);
}

#[test]
fn only_a_gone_destination_leaves_the_list() {
    let mut taps: Vec<Box<Tap>> = Vec::with_capacity(MAX_TARGETS);
    let mut readers = Vec::new();
    for key in [1, 2, 3] {
        let (t, r) = tap(key, 1, 4);
        readers.push(r);
        taps.push(t);
    }
    assert!(settle_tap(&mut taps, 0, false).is_none());
    assert_eq!(keys(&taps), vec![1, 2, 3]);
    let gone = settle_tap(&mut taps, 0, true).unwrap();
    assert_eq!(gone.key, 1);
    assert_eq!(keys(&taps), vec![3, 2]);
}
