use xenosave::stats::{parse_soldier_stats, SoldierStats};
use xenosave::DecodeError;

fn stats_fixture_bytes() -> Vec<u8> {
    [
        [0x36, 0x00, 0x00, 0x00, 0x37, 0x00, 0x00, 0x00, 0x31, 0x00, 0x00, 0x00, 0x43, 0x00, 0x00, 0x00],
        [0x3F, 0x00, 0x00, 0x00, 0x3B, 0x00, 0x00, 0x00, 0x36, 0x00, 0x00, 0x00, 0x37, 0x00, 0x00, 0x00],
        [0x31, 0x00, 0x00, 0x00, 0x43, 0x00, 0x00, 0x00, 0x3F, 0x00, 0x00, 0x00, 0x3B, 0x00, 0x00, 0x00],
    ]
    .concat()
}

#[test]
fn it_parses_stats() {
    let input = stats_fixture_bytes();

    let (stats, _) = parse_soldier_stats(&input, 0).unwrap();
    assert_eq!(stats.time_units_current, 54);
    assert_eq!(stats.health_current, 55);
    assert_eq!(stats.strength_current, 49);
    assert_eq!(stats.accuracy_current, 67);
    assert_eq!(stats.reflexes_current, 63);
    assert_eq!(stats.bravery_current, 59);
    assert_eq!(stats.time_units_original, 54);
    assert_eq!(stats.health_original, 55);
    assert_eq!(stats.strength_original, 49);
    assert_eq!(stats.accuracy_original, 67);
    assert_eq!(stats.reflexes_original, 63);
    assert_eq!(stats.bravery_original, 59);
}

#[test]
fn it_parses_stats_round_trip() {
    let input = stats_fixture_bytes();

    let (stats, _) = parse_soldier_stats(&input, 0).unwrap();
    let output = stats.serialise();
    assert_eq!(input, output);
}

#[test]
fn stats_consume_exactly_forty_eight_bytes() {
    let mut input = stats_fixture_bytes();
    input.push(0xAA);
    let (_, next) = parse_soldier_stats(&input, 0).unwrap();
    assert_eq!(next, 48);
}

#[test]
fn stats_serialise_emits_little_endian_fields_in_order() {
    let stats = SoldierStats {
        time_units_current: 1,
        health_current: 2,
        strength_current: 3,
        accuracy_current: 4,
        reflexes_current: 5,
        bravery_current: 6,
        time_units_original: 0x01020304,
        health_original: 8,
        strength_original: 9,
        accuracy_original: 10,
        reflexes_original: 11,
        bravery_original: 12,
    };
    let out = stats.serialise();
    let expected: Vec<u8> = [
        1u32, 2, 3, 4, 5, 6, 0x01020304, 8, 9, 10, 11, 12,
    ]
    .iter()
    .flat_map(|v| v.to_le_bytes())
    .collect();
    assert_eq!(out, expected);
}

#[test]
fn truncated_stats_block_gives_truncated_input() {
    let input = stats_fixture_bytes();
    let err = parse_soldier_stats(&input[..40], 0).unwrap_err();
    assert_eq!(err, DecodeError::TruncatedInput);
}
