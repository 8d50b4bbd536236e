use sig_agg::codec::{bytes_to_chunks, decode_to_chunks, encode_epoch, encode_message, to_le_bytes};
use sig_agg::field::{field_add, ORDER};
use sig_agg::params::MESSAGE_LENGTH;

fn bits(text: &str) -> Vec<u8> {
    text.bytes().map(|c| c - b'0').collect()
}

#[test]
fn field_addition_wraps_at_the_order() {
    assert_eq!(ORDER, 2130706433);
    assert_eq!(field_add(0, 0), 0);
    assert_eq!(field_add(1, 2), 3);
    assert_eq!(field_add(ORDER - 1, 1), 0);
    assert_eq!(field_add(ORDER - 1, ORDER - 1), ORDER - 2);
    assert_eq!(field_add(2000000000, 2000000000), 1869293567);
}

#[test]
fn field_addition_reads_large_values_as_residues() {
    assert_eq!(field_add(ORDER, 5), 5);
    assert_eq!(field_add(u32::MAX, u32::MAX), (u32::MAX - 2 * ORDER) * 2);
    assert_eq!(field_add(u32::MAX, 0), u32::MAX - 2 * ORDER);
}

#[test]
fn zero_message_encodes_to_zeros() {
    let encoded: [u32; 9] = encode_message(&[0u8; MESSAGE_LENGTH]);
    assert_eq!(encoded, [0u32; 9]);
}

#[test]
fn small_message_is_its_own_first_digit() {
    let mut message = [0u8; MESSAGE_LENGTH];
    message[0] = 0x34;
    message[1] = 0x12;
    let encoded: [u32; 9] = encode_message(&message);
    assert_eq!(encoded, [0x1234, 0, 0, 0, 0, 0, 0, 0, 0]);
}

#[test]
fn message_of_distinct_bytes_encodes_to_its_digits() {
    let message: [u8; MESSAGE_LENGTH] = std::array::from_fn(|i| i as u8);
    let encoded: [u32; 9] = encode_message(&message);
    assert_eq!(
        encoded,
        [
            158200685, 22817125, 768861932, 1220633732, 741473605, 1829125427, 227592113,
            282695284, 33
        ]
    );
}

#[test]
fn largest_message_encodes_to_its_digits() {
    let encoded: [u32; 9] = encode_message(&[0xffu8; MESSAGE_LENGTH]);
    assert_eq!(
        encoded,
        [
            1539525976, 1261153412, 1969546126, 1544481308, 1871195519, 936857536, 333911385,
            1230415057, 272
        ]
    );
}

#[test]
fn message_encoding_drops_digits_beyond_the_requested_ones() {
    let short: [u32; 3] = encode_message(&[0xffu8; MESSAGE_LENGTH]);
    assert_eq!(short, [1539525976, 1261153412, 1969546126]);
    let empty: [u32; 0] = encode_message(&[0xffu8; MESSAGE_LENGTH]);
    assert_eq!(empty.len(), 0);
}

#[test]
fn message_encoding_pads_with_zero_digits() {
    let long: [u32; 12] = encode_message(&[0xffu8; MESSAGE_LENGTH]);
    assert_eq!(
        long,
        [
            1539525976, 1261153412, 1969546126, 1544481308, 1871195519, 936857536, 333911385,
            1230415057, 272, 0, 0, 0
        ]
    );
}

#[test]
fn epoch_is_encoded_above_the_separator() {
    assert_eq!(encode_epoch::<2>(0), [2, 0]);
    assert_eq!(encode_epoch::<2>(1), [258, 0]);
    assert_eq!(encode_epoch::<2>(5), [1282, 0]);
    assert_eq!(encode_epoch::<2>(8323072), [1, 1]);
    assert_eq!(encode_epoch::<2>(u32::MAX), [67108094, 516]);
}

#[test]
fn epoch_encoding_of_other_widths() {
    assert_eq!(encode_epoch::<0>(7).len(), 0);
    assert_eq!(encode_epoch::<1>(u32::MAX), [67108094]);
    assert_eq!(encode_epoch::<3>(u32::MAX), [67108094, 516, 0]);
}

#[test]
fn digest_decodes_to_bits() {
    let digest: [u32; 7] = [1, 2, 3, 4, 5, 6, 7];
    let chunks: [u8; 16] = decode_to_chunks::<16, 2, 7>(&digest);
    assert_eq!(chunks, [0, 0, 1, 1, 1, 0, 0, 0, 0, 0, 0, 0, 0, 0, 0, 0]);
    let all: [u8; 155] = decode_to_chunks::<155, 2, 7>(&digest);
    assert_eq!(
        all.to_vec(),
        bits(
            "00111000000000000000000000010011110110000000000001100010010111001000100000010011110010100110101101000100000100111001010001010101101010000011011101010001010"
        )
    );
}

#[test]
fn largest_digest_decodes_to_bits() {
    let digest: [u32; 7] = [ORDER - 1; 7];
    let all: [u8; 155] = decode_to_chunks::<155, 2, 7>(&digest);
    assert_eq!(
        all.to_vec(),
        bits(
            "00000000000000000000000010011110110000000000000010101000110101001010000010111010001011111010001011100100010111000010110110010001011011011101000010001001001"
        )
    );
}

#[test]
fn digest_decodes_in_other_bases() {
    let digest: [u32; 7] = [1, 2, 3, 4, 5, 6, 7];
    assert_eq!(
        decode_to_chunks::<8, 256, 7>(&digest),
        [28, 0, 0, 200, 27, 0, 70, 58]
    );
    assert_eq!(
        decode_to_chunks::<10, 3, 7>(&digest),
        [1, 1, 0, 0, 0, 0, 0, 2, 0, 1]
    );
    assert_eq!(decode_to_chunks::<4, 1, 7>(&digest), [0, 0, 0, 0]);
}

#[test]
fn decoding_reads_the_first_element_as_most_significant() {
    assert_eq!(decode_to_chunks::<4, 256, 2>(&[0, 0x01020304]), [4, 3, 2, 1]);
    assert_eq!(decode_to_chunks::<5, 256, 2>(&[1, 0]), [1, 0, 0, 127, 0]);
    assert_eq!(decode_to_chunks::<3, 2, 0>(&[]), [0, 0, 0]);
}

#[test]
fn decoding_reads_elements_as_residues() {
    assert_eq!(
        decode_to_chunks::<4, 256, 1>(&[ORDER + 5]),
        decode_to_chunks::<4, 256, 1>(&[5])
    );
}

#[test]
fn bytes_are_cut_into_bits() {
    assert_eq!(bytes_to_chunks(&[0xb1], 1), vec![1, 0, 0, 0, 1, 1, 0, 1]);
    assert_eq!(bytes_to_chunks(&[0xe4], 2), vec![0, 1, 2, 3]);
    assert_eq!(bytes_to_chunks(&[0xb1], 4), vec![1, 11]);
    assert_eq!(bytes_to_chunks(&[0x12, 0x34, 0x56], 8), vec![0x12, 0x34, 0x56]);
}

#[test]
fn chunks_may_straddle_bytes() {
    assert_eq!(bytes_to_chunks(&[0xff, 0x01], 3), vec![7, 7, 7, 0, 0, 0]);
    assert_eq!(bytes_to_chunks(&[0x12, 0x34, 0x56], 5), vec![18, 0, 13, 12, 5]);
    assert_eq!(bytes_to_chunks(&[0x12, 0x34, 0x56], 7), vec![18, 104, 88, 2]);
}

#[test]
fn wide_chunks_keep_their_low_byte() {
    assert_eq!(
        bytes_to_chunks(&[0xab, 0xcd, 0xef, 0x01, 0x23], 12),
        vec![171, 252, 1, 2]
    );
    assert_eq!(bytes_to_chunks(&[0xff, 0xff, 0xff, 0xff], 25), vec![255, 127]);
}

#[test]
fn no_bytes_give_no_chunks() {
    assert_eq!(bytes_to_chunks(&[], 1), Vec::<u8>::new());
    assert_eq!(bytes_to_chunks(&[], 8), Vec::<u8>::new());
}

#[test]
fn integers_are_written_least_significant_byte_first() {
    assert_eq!(to_le_bytes(0), [0u8; 8]);
    assert_eq!(to_le_bytes(155), [155, 0, 0, 0, 0, 0, 0, 0]);
    assert_eq!(
        to_le_bytes(0x0102030405060708),
        [8, 7, 6, 5, 4, 3, 2, 1]
    );
    assert_eq!(to_le_bytes(u64::MAX), [0xffu8; 8]);
    assert_eq!(to_le_bytes(0x1234), 0x1234u64.to_le_bytes());
}
