use ssp_backend::date_time::DateTime;
use ssp_backend::hex::{hex_decode, hex_encode};
use ssp_backend::uuid::Uuid;

#[test]
fn hex_round_trips() {
    let data = vec![0x00u8, 0x01, 0x7f, 0x80, 0xbe, 0xef, 0xff];
    let text = hex_encode(&data);
    assert_eq!(text, "00017f80beefff");
    let back = hex_decode(&text).unwrap();
    assert_eq!(back, data);
    assert_eq!(hex_decode("BEEF").unwrap(), vec![0xbeu8, 0xef]);
    assert!(hex_decode("abc").is_none());
    assert!(hex_decode("zz").is_none());
}

#[test]
fn try_from() {
    let uuid = "e645cfd2-b365-4bda-bb64-535ffa050328";
    let result = Uuid::try_from_text(uuid).unwrap();
    assert_eq!(result.to_string(), uuid.to_string());
}

#[test]
fn try_from_invalid_uuid() {
    let uuid_string = "not a uuid";
    let result = Uuid::try_from_text(uuid_string).unwrap_err();
    assert_eq!(
        result,
        format!("Failed to parse UUID from string: {}", uuid_string)
    );
}

#[test]
fn uuid_bytes_round_trip() {
    let parsed = Uuid::try_from_text("36a1174f-b789-46e4-a5d6-ef8d38cd52b9").unwrap();
    let bytes = parsed.to_bytes();
    assert_eq!(bytes.len(), 16);
    let back = Uuid::from_bytes(&bytes);
    assert_eq!(back.to_string(), "36a1174f-b789-46e4-a5d6-ef8d38cd52b9");
}

#[test]
fn from_random_bytes_sets_version_and_variant() {
    let id = Uuid::from_random_bytes([0u8; 16]);
    let bytes = id.to_bytes();
    assert_eq!(bytes[6] & 0xF0, 0x40);
    assert_eq!(bytes[8] & 0xC0, 0x80);
    let id2 = Uuid::from_random_bytes([0xFFu8; 16]);
    let b2 = id2.to_bytes();
    assert_eq!(b2[6], 0x4F);
    assert_eq!(b2[8], 0xBF);
    assert_ne!(id, id2);
}

#[test]
fn uuid_min_max() {
    assert_eq!(Uuid::min().to_string(), "00000000-0000-0000-0000-000000000000");
    assert_eq!(Uuid::max().to_string(), "ffffffff-ffff-ffff-ffff-ffffffffffff");
}

#[test]
fn date_time_timestamp() {
    let (timestamp, date_string) = (1706899350000000u64, "2024-02-02T18:42:30+00:00");
    let date_time = DateTime::from_timestamp_micros(timestamp).unwrap();
    assert_eq!(date_time.to_string(), date_string);
    assert_eq!(date_time.timestamp_micros(), timestamp);
}

#[test]
fn date_time_truncates_to_seconds() {
    let dt = DateTime::from_timestamp_micros(1706899350123456).unwrap();
    assert_eq!(dt.to_string(), "2024-02-02T18:42:30+00:00");
    let max = DateTime::max().unwrap();
    assert_eq!(max.to_string().len(), 25);
    assert!(DateTime::new(253402300800).is_err());
}
