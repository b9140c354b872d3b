use udp_relay::datagram::{clip, copy_received, MAX_DATAGRAM_SIZE};

fn pattern(len: usize) -> Vec<u8> {
    (0..len).map(|i| (i % 251) as u8).collect()
}

#[test]
fn default_ceiling_is_4096_bytes() {
    assert_eq!(MAX_DATAGRAM_SIZE, 4096);
}

#[test]
fn clip_keeps_a_short_datagram_whole() {
    assert_eq!(clip(vec![1, 2, 3], 4096), vec![1, 2, 3]);
}

#[test]
fn clip_keeps_an_empty_datagram_empty() {
    assert_eq!(clip(Vec::new(), 4096), Vec::<u8>::new());
}

#[test]
fn clip_keeps_a_datagram_of_exactly_the_ceiling() {
    let bytes = pattern(4096);
    assert_eq!(clip(bytes.clone(), 4096), bytes);
}

#[test]
fn clip_cuts_one_byte_over_the_ceiling() {
    let bytes = pattern(4097);
    let kept = clip(bytes.clone(), 4096);
    assert_eq!(kept.len(), 4096);
    assert_eq!(kept[..], bytes[..4096]);
}

#[test]
fn clip_keeps_the_front_not_the_back() {
    assert_eq!(clip(vec![10, 20, 30, 40, 50], 2), vec![10, 20]);
}

#[test]
fn clip_with_a_ceiling_of_zero_keeps_nothing() {
    assert_eq!(clip(vec![9, 9, 9], 0), Vec::<u8>::new());
}

#[test]
fn clip_twice_is_clip_once() {
    let once = clip(pattern(100), 64);
    assert_eq!(clip(once.clone(), 64), once);
}

#[test]
fn copy_received_takes_the_filled_part_of_the_buffer() {
    let buffer = [7u8, 8, 9, 0, 0, 0, 0, 0];
    assert_eq!(copy_received(&buffer, 3, 4096), vec![7, 8, 9]);
}

#[test]
fn copy_received_of_nothing_is_empty() {
    let buffer = [1u8; 16];
    assert_eq!(copy_received(&buffer, 0, 4096), Vec::<u8>::new());
}

#[test]
fn copy_received_takes_a_full_buffer() {
    let buffer = pattern(4096);
    assert_eq!(copy_received(&buffer, 4096, 4096), buffer);
}

#[test]
fn copy_received_cuts_at_the_ceiling() {
    let buffer = pattern(5000);
    let datagram = copy_received(&buffer, 5000, 4096);
    assert_eq!(datagram.len(), 4096);
    assert_eq!(datagram[..], buffer[..4096]);
}

#[test]
fn copy_received_never_reads_past_the_buffer() {
    let buffer = [1u8, 2, 3];
    assert_eq!(copy_received(&buffer, 10, 4096), vec![1, 2, 3]);
}

#[test]
fn copy_received_applies_the_smaller_of_amount_and_ceiling() {
    let buffer = [1u8, 2, 3, 4, 5, 6];
    assert_eq!(copy_received(&buffer, 5, 2), vec![1, 2]);
    assert_eq!(copy_received(&buffer, 2, 5), vec![1, 2]);
}
