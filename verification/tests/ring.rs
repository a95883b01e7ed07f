use audiomirror::ring::{frames_in, ring, samples_to_accept, samples_to_take};

fn words(samples: &[f32]) -> Vec<u32> {
    samples.iter().map(|sample| sample.to_bits()).collect()
}

fn floats(words: &[u32]) -> Vec<f32> {
    words.iter().map(|word| f32::from_bits(*word)).collect()
}

#[test]
fn carries_frames_in_order() {
    let (mut writer, mut reader) = ring(2, 8);
    assert_eq!(writer.write(&words(&[1.0, 2.0, 3.0, 4.0])), 0);
    assert_eq!(reader.filled_frames(), 2);

    let mut out = [0u32; 4];
    assert_eq!(reader.read(&mut out), 2);
    assert_eq!(floats(&out), [1.0, 2.0, 3.0, 4.0]);
    assert_eq!(reader.filled_frames(), 0);
}

#[test]
fn rejects_overflow_without_tearing_a_frame() {
    let (mut writer, mut reader) = ring(2, 2);
    // Five frames offered into two slots: three must be turned away.
    let rejected = writer.write(&words(&[1.0, 1.0, 2.0, 2.0, 3.0, 3.0, 4.0, 4.0, 5.0, 5.0]));
    assert_eq!(rejected, 3);
    assert_eq!(reader.filled_frames(), 2);

    let mut out = [0u32; 4];
    assert_eq!(reader.read(&mut out), 2);
    assert_eq!(floats(&out), [1.0, 1.0, 2.0, 2.0]);
}

#[test]
fn survives_wrap_around() {
    let (mut writer, mut reader) = ring(2, 4);
    let mut expected = 0.0f32;
    let mut produced = 0.0f32;

    // Three frames per round over a capacity of four: the live window
    // shifts every pass and eventually straddles the end of the buffer.
    for _ in 0..32 {
        let block: Vec<f32> = (0..3)
            .flat_map(|_| {
                produced += 1.0;
                [produced, -produced]
            })
            .collect();
        assert_eq!(writer.write(&words(&block)), 0);

        let mut out = [0u32; 6];
        assert_eq!(reader.read(&mut out), 3);
        for pair in floats(&out).chunks_exact(2) {
            expected += 1.0;
            assert_eq!(pair, [expected, -expected]);
        }
    }
}

#[test]
fn reads_what_is_available_and_leaves_the_rest_alone() {
    let (mut writer, mut reader) = ring(2, 8);
    writer.write(&words(&[7.0, 8.0]));

    let mut out = [(-1.0f32).to_bits(); 6];
    assert_eq!(reader.read(&mut out), 1);
    assert_eq!(floats(&out), [7.0, 8.0, -1.0, -1.0, -1.0, -1.0]);
}

#[test]
fn discards_the_oldest_frames() {
    let (mut writer, mut reader) = ring(1, 8);
    writer.write(&words(&[1.0, 2.0, 3.0, 4.0]));
    assert_eq!(reader.drop_frames(2), 2);

    let mut out = [0u32; 2];
    assert_eq!(reader.read(&mut out), 2);
    assert_eq!(floats(&out), [3.0, 4.0]);

    // Discarding more than is held simply discards what is left.
    assert_eq!(reader.drop_frames(10), 0);
}

#[test]
fn free_room_shrinks_as_frames_arrive_and_returns_as_they_leave() {
    let (mut writer, mut reader) = ring(2, 4);
    assert_eq!(writer.free_frames(), 4);
    assert_eq!(writer.write(&[1, 2, 3, 4, 5, 6]), 0);
    assert_eq!(writer.free_frames(), 1);
    assert_eq!(reader.filled_frames(), 3);

    let mut out = [0u32; 2];
    assert_eq!(reader.read(&mut out), 1);
    assert_eq!(out, [1, 2]);
    assert_eq!(writer.free_frames(), 2);
}

#[test]
fn a_ring_whose_other_end_is_gone_is_abandoned() {
    let (writer, reader) = ring(1, 4);
    assert!(!writer.is_abandoned());
    assert!(!reader.is_abandoned());
    drop(reader);
    assert!(writer.is_abandoned());

    let (writer, reader) = ring(1, 4);
    drop(writer);
    assert!(reader.is_abandoned());
}

#[test]
fn an_empty_ring_reads_nothing_and_keeps_the_buffer() {
    let (_writer, mut reader) = ring(3, 4);
    let mut out = [9u32; 6];
    assert_eq!(reader.read(&mut out), 0);
    assert_eq!(out, [9; 6]);
    assert_eq!(reader.drop_frames(1), 0);
    assert_eq!(reader.channels(), 3);
}

#[test]
fn the_counts_follow_the_measured_slots() {
    // Ten samples offered, five free slots, two channels: two whole frames.
    assert_eq!(samples_to_accept(10, 5, 2), 4);
    assert_eq!(samples_to_accept(3, 8, 2), 3);
    assert_eq!(samples_to_accept(6, 1, 2), 0);
    assert_eq!(samples_to_take(6, 5, 2), 4);
    assert_eq!(samples_to_take(4, 9, 2), 4);
    assert_eq!(samples_to_take(7, 9, 2), 6);
    assert_eq!(frames_in(7, 2), 3);
    assert_eq!(frames_in(0, 3), 0);
}

#[test]
fn a_fresh_ring_offers_all_its_room() {
    let (writer, _reader) = ring(2, 5);
    assert_eq!(writer.free_frames(), 5);
}
