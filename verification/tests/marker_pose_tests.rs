use enpose_api::marker_pose::{MarkerPose, ENCODED_SIZE, MAX_BATCH_LEN};

fn sample(marker_id: u16) -> MarkerPose {
    MarkerPose {
        timestamp: 0x0102_0304_0506_0708,
        marker_id,
        x: 1.5f64.to_bits(),
        y: (-2.25f64).to_bits(),
        z: 3.125f64.to_bits(),
        rotation: [
            1.0f64.to_bits(),
            0.0f64.to_bits(),
            0.0f64.to_bits(),
            0.0f64.to_bits(),
            1.0f64.to_bits(),
            0.0f64.to_bits(),
            0.0f64.to_bits(),
            0.0f64.to_bits(),
            1.0f64.to_bits(),
        ],
        position_rmse: 0.1f64.to_bits(),
        rotation_rmse: 0.01f64.to_bits(),
        sensors: 3,
        observed_emitters: 4,
    }
}

#[test]
fn round_trips_a_batch() {
    let poses = vec![sample(7), sample(8), sample(9)];
    let encoded = MarkerPose::encode_batch(&poses);
    // 2-byte count + N fixed-size records.
    assert_eq!(encoded.len(), 2 + poses.len() * MarkerPose::ENCODED_SIZE);
    assert_eq!(MarkerPose::decode_batch(&encoded), Some(poses));
}

#[test]
fn round_trips_an_empty_batch() {
    let encoded = MarkerPose::encode_batch(&[]);
    assert_eq!(encoded, vec![0, 0]);
    assert_eq!(MarkerPose::decode_batch(&encoded), Some(Vec::new()));
}

#[test]
fn encodes_big_endian() {
    let encoded = MarkerPose::encode_batch(&[sample(0xBEEF)]);
    // count = 1, then timestamp big-endian, then marker_id big-endian.
    assert_eq!(&encoded[0..2], &[0x00, 0x01]);
    assert_eq!(&encoded[2..10], &0x0102_0304_0506_0708u64.to_be_bytes());
    assert_eq!(&encoded[10..12], &[0xBE, 0xEF]);
}

#[test]
fn rejects_truncated_payloads() {
    let encoded = MarkerPose::encode_batch(&[sample(1)]);
    // Too short for the declared count of 1.
    assert_eq!(MarkerPose::decode_batch(&encoded[..encoded.len() - 1]), None);
    // A buffer too short even for the count prefix.
    assert_eq!(MarkerPose::decode_batch(&[0]), None);
    // Trailing garbage past the declared count is also rejected.
    let mut extra = encoded.clone();
    extra.push(0xFF);
    assert_eq!(MarkerPose::decode_batch(&extra), None);
}

#[test]
fn record_layout_matches_field_order() {
    let p = sample(0x1234);
    let encoded = MarkerPose::encode_batch(&[p]);
    assert_eq!(encoded.len(), 2 + ENCODED_SIZE);
    let r = &encoded[2..];
    assert_eq!(&r[10..18], &1.5f64.to_be_bytes());
    assert_eq!(&r[18..26], &(-2.25f64).to_be_bytes());
    assert_eq!(&r[26..34], &3.125f64.to_be_bytes());
    assert_eq!(&r[34..42], &1.0f64.to_be_bytes());
    assert_eq!(&r[98..106], &1.0f64.to_be_bytes());
    assert_eq!(&r[106..114], &0.1f64.to_be_bytes());
    assert_eq!(&r[114..122], &0.01f64.to_be_bytes());
    assert_eq!(r[122], 3);
    assert_eq!(r[123], 4);
}

#[test]
fn real_values_survive_bit_for_bit() {
    let mut p = sample(1);
    p.x = f64::NAN.to_bits() | 0x1234;
    p.y = (-0.0f64).to_bits();
    p.z = f64::INFINITY.to_bits();
    let decoded = MarkerPose::decode_batch(&MarkerPose::encode_batch(&[p])).unwrap();
    assert_eq!(decoded[0].x, f64::NAN.to_bits() | 0x1234);
    assert_eq!(f64::from_bits(decoded[0].y).to_bits(), (-0.0f64).to_bits());
    assert!(f64::from_bits(decoded[0].z).is_infinite());
}

#[test]
fn declared_count_must_match_length() {
    // Declares two records but carries one.
    let mut data = MarkerPose::encode_batch(&[sample(1)]);
    data[1] = 2;
    assert_eq!(MarkerPose::decode_batch(&data), None);
    // Declares zero records but carries one.
    data[1] = 0;
    assert_eq!(MarkerPose::decode_batch(&data), None);
}

#[test]
fn oversized_batch_is_truncated_to_u16_max() {
    let poses = vec![sample(3); MAX_BATCH_LEN + 2];
    let encoded = MarkerPose::encode_batch(&poses);
    assert_eq!(&encoded[0..2], &[0xFF, 0xFF]);
    assert_eq!(encoded.len(), 2 + MAX_BATCH_LEN * ENCODED_SIZE);
    let decoded = MarkerPose::decode_batch(&encoded).unwrap();
    assert_eq!(decoded.len(), MAX_BATCH_LEN);
    assert_eq!(decoded[0], sample(3));
}

#[test]
fn reencoding_a_decoded_payload_gives_it_back() {
    let mut data = vec![0u8, 2];
    for i in 0..(2 * ENCODED_SIZE) {
        data.push((i * 7 % 251) as u8);
    }
    let decoded = MarkerPose::decode_batch(&data).unwrap();
    assert_eq!(decoded.len(), 2);
    assert_eq!(MarkerPose::encode_batch(&decoded), data);
}
