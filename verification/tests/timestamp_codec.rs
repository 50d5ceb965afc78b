use field_codec::error::CodecError;
use field_codec::timestamp::{
    deserialize, serialize, Timestamp, MAX_TIMESTAMP_SECS, MIN_TIMESTAMP_SECS,
};

#[test]
fn encode_scales_seconds_to_milliseconds() {
    let t = Timestamp::new(1_700_000_000, 0).unwrap();
    assert_eq!(serialize(&t), 1_700_000_000_000);
}

#[test]
fn epoch_milliseconds_round_trip() {
    let t = deserialize(1_700_000_000_000).unwrap();
    assert_eq!(t, Timestamp { secs: 1_700_000_000, nanos: 0 });
    assert_eq!(serialize(&t), 1_700_000_000_000);
}

#[test]
fn round_trip_truncates_below_one_millisecond() {
    let t = Timestamp::new(12_345, 678_901_234).unwrap();
    let ms = serialize(&t);
    assert_eq!(ms, 12_345_678);
    let back = deserialize(ms).unwrap();
    assert_eq!(back, Timestamp { secs: 12_345, nanos: 678_000_000 });
}

#[test]
fn negative_instants_round_trip() {
    let t = Timestamp::new(-1, 999_000_000).unwrap();
    assert_eq!(serialize(&t), -1);
    assert_eq!(deserialize(-1).unwrap(), t);

    let t = Timestamp::new(-1, 0).unwrap();
    assert_eq!(serialize(&t), -1000);
    assert_eq!(deserialize(-1000).unwrap(), t);
}

#[test]
fn out_of_range_milliseconds_are_range_errors() {
    assert_eq!(deserialize(i64::MAX).unwrap_err(), CodecError::RangeError);
    assert_eq!(deserialize(i64::MIN).unwrap_err(), CodecError::RangeError);
    assert_eq!(
        deserialize(MAX_TIMESTAMP_SECS * 1000 + 1000).unwrap_err(),
        CodecError::RangeError
    );
    assert_eq!(
        deserialize(MIN_TIMESTAMP_SECS * 1000 - 1).unwrap_err(),
        CodecError::RangeError
    );
}

#[test]
fn range_boundaries_decode() {
    let top = MAX_TIMESTAMP_SECS * 1000 + 999;
    assert_eq!(
        deserialize(top).unwrap(),
        Timestamp { secs: MAX_TIMESTAMP_SECS, nanos: 999_000_000 }
    );
    let bottom = MIN_TIMESTAMP_SECS * 1000;
    assert_eq!(
        deserialize(bottom).unwrap(),
        Timestamp { secs: MIN_TIMESTAMP_SECS, nanos: 0 }
    );
}

#[test]
fn new_rejects_out_of_range_parts() {
    assert_eq!(
        Timestamp::new(MAX_TIMESTAMP_SECS + 1, 0).unwrap_err(),
        CodecError::RangeError
    );
    assert_eq!(
        Timestamp::new(0, 1_000_000_000).unwrap_err(),
        CodecError::RangeError
    );
}

#[test]
fn range_error_names_the_failure() {
    let err = deserialize(i64::MAX).unwrap_err();
    assert_eq!(err.message(), "timestamp out of range");
}
