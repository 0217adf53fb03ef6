use xenosave::soldier::{parse_soldier, Gender};
use xenosave::DecodeError;

fn soldier_start_marker() -> Vec<u8> {
    vec![0x4D, 0x41, 0x52, 0x4B, 0x07, 0, 0, 0, b'S', b'o', b'l', b'd', b'i', b'e', b'r']
}

fn soldier_end_marker() -> Vec<u8> {
    vec![0x4D, 0x41, 0x52, 0x4B, 0x08, 0, 0, 0, b'S', b'o', b'l', b'd', b'i', b'e', b'r', b'2']
}

fn lp(payload: &[u8]) -> Vec<u8> {
    let mut v = (payload.len() as u32).to_le_bytes().to_vec();
    v.extend_from_slice(payload);
    v
}

fn soldier_record(id: u32, nationality: &[u8], name: &[u8], gender: u8) -> Vec<u8> {
    let mut v = Vec::new();
    v.extend_from_slice(&soldier_start_marker());
    v.extend_from_slice(&id.to_le_bytes());
    v.extend_from_slice(&lp(nationality));
    v.extend_from_slice(&lp(name));
    v.extend_from_slice(&lp(b"asi"));
    v.extend_from_slice(&3u32.to_le_bytes());
    v.extend_from_slice(&lp(b"japan"));
    for s in [54u32, 55, 49, 67, 63, 59, 54, 55, 49, 67, 63, 59] {
        v.extend_from_slice(&s.to_le_bytes());
    }
    v.extend_from_slice(&9u32.to_le_bytes());
    v.extend_from_slice(&[0xA5; 36]);
    v.extend_from_slice(&25.0f32.to_le_bytes());
    v.extend_from_slice(&lp(b"regiment.japan1"));
    v.extend_from_slice(&lp(b"experience.none"));
    v.extend_from_slice(&[1, 2, 3, 4]);
    v.extend_from_slice(&lp(b"Charlie - 1/13"));
    v.extend_from_slice(&6u32.to_le_bytes());
    v.extend_from_slice(&7u32.to_le_bytes());
    v.push(gender);
    v.extend_from_slice(b"unparsed per-soldier equipment state");
    v.extend_from_slice(&soldier_end_marker());
    v
}

fn sample_soldier_bytes() -> Vec<u8> {
    soldier_record(23, b"Japanese", b"Ruri Yasuda", 0)
}

#[test]
fn it_parses_soldier() {
    let file = sample_soldier_bytes();

    let (soldier, _) = parse_soldier(&file, 0).unwrap();
    assert_eq!(soldier.id, 23);
    assert_eq!(soldier.nationality, "Japanese");
    assert_eq!(soldier.name, "Ruri Yasuda");
    assert_eq!(soldier.race, b"asi");
    assert_eq!(soldier.face_number, 3);
    assert_eq!(soldier.nation, b"japan");
    assert_eq!(soldier.xp, 9);
    assert_eq!(soldier.regiment, b"regiment.japan1");
    assert_eq!(soldier.experience, b"experience.none");
    assert_eq!(soldier.carrier, b"Charlie - 1/13");
    assert_eq!(soldier.gender, Gender::Female);

    assert_eq!(soldier.stats.time_units_current, 54);
    assert_eq!(soldier.stats.health_current, 55);
    assert_eq!(soldier.stats.strength_current, 49);
    assert_eq!(soldier.stats.accuracy_current, 67);
    assert_eq!(soldier.stats.reflexes_current, 63);
    assert_eq!(soldier.stats.bravery_current, 59);
    assert_eq!(soldier.stats.time_units_original, 54);
    assert_eq!(soldier.stats.health_original, 55);
    assert_eq!(soldier.stats.strength_original, 49);
    assert_eq!(soldier.stats.accuracy_original, 67);
    assert_eq!(soldier.stats.reflexes_original, 63);
    assert_eq!(soldier.stats.bravery_original, 59);

    assert_eq!(soldier.age_bits, 25.0f32.to_bits());
    assert_eq!(soldier.opaque_block_a, vec![0xA5; 36]);
    assert_eq!(soldier.opaque_block_b, vec![1, 2, 3, 4]);
    assert_eq!(soldier.remaining_bytes, b"unparsed per-soldier equipment state");
}

#[test]
fn it_parses_soldier_round_trip() {
    let file = sample_soldier_bytes();

    let (soldier, _) = parse_soldier(&file, 0).unwrap();
    let output = soldier.serialise();
    assert_eq!(file, output);
}

#[test]
fn parse_consumes_record_and_reports_next_position() {
    let mut file = sample_soldier_bytes();
    let record_len = file.len();
    file.extend_from_slice(&[0xEE, 0xEF]);
    let (_, next) = parse_soldier(&file, 0).unwrap();
    assert_eq!(next, record_len);
}

#[test]
fn reencode_recomputes_length_prefixes() {
    let file = sample_soldier_bytes();
    let (mut soldier, _) = parse_soldier(&file, 0).unwrap();
    soldier.name = String::from("A Much Longer Name Than Before");
    let output = soldier.serialise();
    let (reparsed, _) = parse_soldier(&output, 0).unwrap();
    assert_eq!(reparsed.name, "A Much Longer Name Than Before");
    assert_eq!(reparsed.carrier, b"Charlie - 1/13");
}

#[test]
fn non_ascii_utf8_fields_survive_the_round_trip() {
    let file = soldier_record(5, "日本".as_bytes(), "Grün".as_bytes(), 1);
    let (soldier, _) = parse_soldier(&file, 0).unwrap();
    assert_eq!(soldier.nationality, "日本");
    assert_eq!(soldier.name, "Grün");
    assert_eq!(soldier.gender, Gender::Male);
    assert_eq!(soldier.serialise(), file);
}

#[test]
fn missing_start_marker_gives_marker_not_found() {
    let mut file = sample_soldier_bytes();
    file[0] = b'X';
    let err = parse_soldier(&file, 0).unwrap_err();
    assert_eq!(err, DecodeError::MarkerNotFound);
}

#[test]
fn corrupt_end_marker_gives_marker_not_found() {
    let mut file = sample_soldier_bytes();
    let last = file.len() - 1;
    file[last] = b'X';
    let err = parse_soldier(&file, 0).unwrap_err();
    assert_eq!(err, DecodeError::MarkerNotFound);
}

#[test]
fn truncation_inside_length_prefixed_field_gives_truncated_input() {
    let file = sample_soldier_bytes();
    // Cut inside the nationality payload: marker (15) + id (4) + length
    // prefix (4) + part of the payload.
    let err = parse_soldier(&file[..15 + 4 + 4 + 3], 0).unwrap_err();
    assert_eq!(err, DecodeError::TruncatedInput);
}

#[test]
fn gender_byte_two_gives_invalid_enum() {
    let file = soldier_record(23, b"Japanese", b"Ruri Yasuda", 2);
    let err = parse_soldier(&file, 0).unwrap_err();
    assert_eq!(err, DecodeError::InvalidEnum);
}

#[test]
fn invalid_utf8_in_nationality_gives_invalid_encoding() {
    let file = soldier_record(23, &[0xFF, 0xFE, 0x01], b"Ruri Yasuda", 0);
    let err = parse_soldier(&file, 0).unwrap_err();
    assert_eq!(err, DecodeError::InvalidEncoding);
}
