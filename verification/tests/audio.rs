use interjections::audio::{frames, neighbours, next_sample, rejoin, FRAME_LEN};
use interjections::pcm::{decode_samples, encode_samples, native_order, order_of, ByteOrder};

#[test]
fn the_last_frame_is_padded() {
    let input: Vec<i16> = (1..=500).collect();
    let list = frames(&input);
    assert_eq!(list.len(), 2);
    assert_eq!(list[0], input[..480].to_vec());
    assert_eq!(list[1][..20], input[480..]);
    assert_eq!(list[1][20..], vec![0i16; 460]);
}

#[test]
fn no_samples_make_no_frames() {
    assert!(frames(&[]).is_empty());
    assert!(rejoin(&vec![], 0).is_empty());
    assert_eq!(frames(&[3; FRAME_LEN]).len(), 1);
    assert_eq!(frames(&[3; FRAME_LEN + 1]).len(), 2);
}

#[test]
fn frames_rejoin_without_padding() {
    let input: Vec<i16> = (0..1000).map(|i| (i * 7 % 300) as i16).collect();
    assert_eq!(rejoin(&frames(&input), input.len()), input);
    let outputs = vec![vec![1i16; FRAME_LEN], vec![2i16; FRAME_LEN]];
    let joined = rejoin(&outputs, 481);
    assert_eq!(joined.len(), 481);
    assert_eq!(joined[479], 1);
    assert_eq!(joined[480], 2);
}

#[test]
fn whole_frames_may_be_handed_in_on_their_own() {
    let first: Vec<i16> = (0..960).collect();
    let second: Vec<i16> = (5000..5100).collect();
    let whole = [first.clone(), second.clone()].concat();
    let louder = |list: Vec<Vec<i16>>, mut step: i16| -> Vec<Vec<i16>> {
        list.into_iter()
            .map(|frame| {
                step += 1;
                frame.into_iter().map(|sample| sample + step).collect()
            })
            .collect()
    };
    let together = rejoin(&louder(frames(&whole), 0), whole.len());
    let apart = [
        rejoin(&louder(frames(&first), 0), first.len()),
        rejoin(&louder(frames(&second), 2), second.len()),
    ]
    .concat();
    assert_eq!(together, apart);
    assert_eq!(together.len(), 1060);
}

#[test]
fn neighbours_beyond_the_end_are_silent() {
    assert_eq!(neighbours(&[5, 6], 0), (5, 6));
    assert_eq!(neighbours(&[5, 6], 1), (6, 0));
    assert_eq!(neighbours(&[5, 6], 2), (0, 0));
    assert_eq!(neighbours(&[], usize::MAX), (0, 0));
}

#[test]
fn the_last_queued_sample_waits() {
    let mut queue = vec![7, 8];
    assert_eq!(next_sample(&mut queue), 7);
    assert_eq!(queue, vec![8]);
    assert_eq!(next_sample(&mut queue), 0);
    assert_eq!(queue, vec![8]);
    queue.push(9);
    assert_eq!(next_sample(&mut queue), 8);
}

#[test]
fn samples_are_two_bytes_each() {
    assert_eq!(decode_samples(&[0x34, 0x12, 0xff, 0xff, 0x01], ByteOrder::Little), vec![0x1234, -1]);
    assert_eq!(decode_samples(&[0x12, 0x34, 0x80, 0x00], ByteOrder::Big), vec![0x1234, -32768]);
    assert_eq!(encode_samples(&[0x1234, -2], ByteOrder::Little), vec![0x34, 0x12, 0xfe, 0xff]);
    assert_eq!(encode_samples(&[0x1234, -2], ByteOrder::Big), vec![0x12, 0x34, 0xff, 0xfe]);
}

#[test]
fn every_sample_survives_both_orders() {
    let all: Vec<i16> = (i16::MIN..=i16::MAX).collect();
    for order in [ByteOrder::Little, ByteOrder::Big] {
        assert_eq!(decode_samples(&encode_samples(&all, order), order), all);
    }
}

#[test]
fn the_machine_order_is_the_machines() {
    let bytes = encode_samples(&[0x0102], native_order());
    assert_eq!(bytes, 0x0102i16.to_ne_bytes().to_vec());
}

#[test]
fn one_shows_the_order() {
    assert_eq!(order_of([1, 0]), ByteOrder::Little);
    assert_eq!(order_of([0, 1]), ByteOrder::Big);
    assert_eq!(order_of(1u16.to_ne_bytes()), native_order());
}
