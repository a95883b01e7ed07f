use audiomirror::channels::{ChannelMapper, Plan};

#[test]
fn copies_at_equal_width() {
    let mapper = ChannelMapper::new(2, 2);
    assert!(mapper.is_transparent());

    let mut out = [0.0; 4];
    mapper.map(&[1.0, -1.0, 0.5, -0.5], &mut out, 0.0);
    assert_eq!(out, [1.0, -1.0, 0.5, -0.5]);
}

#[test]
fn spreads_mono_across_every_channel() {
    let mapper = ChannelMapper::new(1, 4);
    let mut out = [0.0; 8];
    mapper.map(&[0.25, -0.75], &mut out, 0.0);
    assert_eq!(out, [0.25, 0.25, 0.25, 0.25, -0.75, -0.75, -0.75, -0.75]);
}

#[test]
fn keeps_shared_channels_and_silences_the_rest() {
    let mapper = ChannelMapper::new(2, 4);
    let mut out = [9.0; 8];
    mapper.map(&[1.0, 2.0, 3.0, 4.0], &mut out, 0.0);
    assert_eq!(out, [1.0, 2.0, 0.0, 0.0, 3.0, 4.0, 0.0, 0.0]);
}

#[test]
fn truncates_when_the_destination_is_narrower() {
    let mapper = ChannelMapper::new(6, 2);
    let mut out = [0.0; 2];
    mapper.map(&[1.0, 2.0, 3.0, 4.0, 5.0, 6.0], &mut out, 0.0);
    assert_eq!(out, [1.0, 2.0]);
}

#[test]
fn picks_the_rule_from_the_two_widths() {
    assert_eq!(ChannelMapper::new(2, 2).plan(), Plan::Direct);
    assert_eq!(ChannelMapper::new(1, 6).plan(), Plan::Spread);
    assert_eq!(ChannelMapper::new(6, 1).plan(), Plan::Fold);
    assert_eq!(ChannelMapper::new(6, 2).plan(), Plan::Common);
    assert_eq!(ChannelMapper::new(1, 1).plan(), Plan::Direct);

    let folding = ChannelMapper::new(2, 1);
    assert!(folding.folds());
    assert!(!folding.is_transparent());
    assert_eq!(folding.source_channels(), 2);
    assert_eq!(folding.target_channels(), 1);
}

#[test]
fn moves_sample_words_as_they_are() {
    let mapper = ChannelMapper::new(3, 2);
    let mut out = [0u32; 4];
    mapper.map(&[1, 2, 3, 4, 5, 6], &mut out, 0);
    assert_eq!(out, [1, 2, 4, 5]);
}

#[test]
fn an_empty_block_maps_to_nothing() {
    let mapper = ChannelMapper::new(2, 4);
    let mut out: [f32; 0] = [];
    mapper.map(&[], &mut out, 0.0);
    assert_eq!(out.len(), 0);
}
