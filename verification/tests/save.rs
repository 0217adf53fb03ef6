use xenosave::save::parse_save;
use xenosave::DecodeError;

fn soldier_start_marker() -> Vec<u8> {
    vec![0x4D, 0x41, 0x52, 0x4B, 0x07, 0, 0, 0, b'S', b'o', b'l', b'd', b'i', b'e', b'r']
}

fn soldier_end_marker() -> Vec<u8> {
    vec![0x4D, 0x41, 0x52, 0x4B, 0x08, 0, 0, 0, b'S', b'o', b'l', b'd', b'i', b'e', b'r', b'2']
}

fn lp(payload: &[u8]) -> Vec<u8> {
    let mut v = (payload.len() as u32).to_le_bytes().to_vec();
    v.extend_from_slice(payload);
    v
}

fn soldier_record(id: u32, name: &[u8], gender: u8) -> Vec<u8> {
    let mut v = Vec::new();
    v.extend_from_slice(&soldier_start_marker());
    v.extend_from_slice(&id.to_le_bytes());
    v.extend_from_slice(&lp(b"Japanese"));
    v.extend_from_slice(&lp(name));
    v.extend_from_slice(&lp(b"asi"));
    v.extend_from_slice(&3u32.to_le_bytes());
    v.extend_from_slice(&lp(b"japan"));
    for s in [54u32, 55, 49, 67, 63, 59, 54, 55, 49, 67, 63, 59] {
        v.extend_from_slice(&s.to_le_bytes());
    }
    v.extend_from_slice(&9u32.to_le_bytes());
    v.extend_from_slice(&[0; 36]);
    v.extend_from_slice(&30.0f32.to_le_bytes());
    v.extend_from_slice(&lp(b"regiment.japan1"));
    v.extend_from_slice(&lp(b"experience.none"));
    v.extend_from_slice(&[0; 4]);
    v.extend_from_slice(&lp(b"Charlie - 1/13"));
    v.extend_from_slice(&6u32.to_le_bytes());
    v.extend_from_slice(&7u32.to_le_bytes());
    v.push(gender);
    v.extend_from_slice(b"equipment");
    v.extend_from_slice(&soldier_end_marker());
    v
}

fn sample_save_bytes(records: &[Vec<u8>]) -> Vec<u8> {
    let mut v = Vec::new();
    v.extend_from_slice(&[9, 9, 9, 9, 9, 9, 9, 9]);
    v.extend_from_slice(&lp("Iron Man (2024-07-06_20.46.00)".as_bytes()));
    v.extend_from_slice(&[0xDE, 0xAD, 0xBE, 0xEF]);
    v.extend_from_slice(b"FeatureGuards2");
    v.extend_from_slice(&lp(b"2024-07-06_20.46.00"));
    v.extend_from_slice(&11u32.to_le_bytes());
    v.push(1);
    v.extend_from_slice(&[0x10, 0x11, 0x12]);
    for r in records {
        v.extend_from_slice(r);
    }
    v.extend_from_slice(&[0x77; 10]);
    v
}

#[test]
fn it_parses_full_save() {
    let file = sample_save_bytes(&[
        soldier_record(23, b"Ruri Yasuda", 0),
        soldier_record(24, b"Kenji Sato", 1),
    ]);

    let save = parse_save(&file).unwrap();
    assert_eq!(save.file_start.len(), 8);
    assert_eq!(save.save_name, "Iron Man (2024-07-06_20.46.00)");
    assert_eq!(save.feature_guards, vec![0xDE, 0xAD, 0xBE, 0xEF]);
    assert_eq!(save.save_time, "2024-07-06_20.46.00".as_bytes());
    assert_eq!(save.unknown, 11);
    assert_eq!(save.iron_man, true);
    assert_eq!(save.before_soldiers, vec![0x10, 0x11, 0x12]);
    assert_eq!(save.soldiers.len(), 2);
    assert_eq!(save.soldiers[0].id, 23);
    assert_eq!(save.soldiers[1].id, 24);
    assert_eq!(save.soldiers[1].name, "Kenji Sato");
    assert_eq!(save.after_soldiers.len(), 10);
}

#[test]
fn it_parses_full_save_round_trip() {
    let file = sample_save_bytes(&[
        soldier_record(23, b"Ruri Yasuda", 0),
        soldier_record(24, b"Kenji Sato", 1),
    ]);

    let save = parse_save(&file).unwrap();
    let output = save.serialise();
    assert_eq!(file, output);
}

#[test]
fn redecoding_a_reencoded_save_is_identical() {
    let file = sample_save_bytes(&[
        soldier_record(23, b"Ruri Yasuda", 0),
        soldier_record(24, b"Kenji Sato", 1),
    ]);

    let first = parse_save(&file).unwrap();
    let again = parse_save(&first.serialise()).unwrap();
    assert_eq!(first, again);
}

#[test]
fn editing_the_save_name_recomputes_its_length_prefix() {
    let file = sample_save_bytes(&[soldier_record(23, b"Ruri Yasuda", 0)]);
    let mut save = parse_save(&file).unwrap();
    save.save_name = String::from("Renamed Campaign");
    let reparsed = parse_save(&save.serialise()).unwrap();
    assert_eq!(reparsed.save_name, "Renamed Campaign");
    assert_eq!(reparsed.soldiers.len(), 1);
}

#[test]
fn iron_man_byte_two_gives_invalid_enum() {
    let mut file = sample_save_bytes(&[soldier_record(23, b"Ruri Yasuda", 0)]);
    // The flag byte sits right after the 4-byte scalar that follows the
    // length-prefixed save time.
    let flag_at = 8 + 4 + 30 + 4 + 14 + 4 + 19 + 4;
    assert_eq!(file[flag_at], 1);
    file[flag_at] = 2;
    let err = parse_save(&file).unwrap_err();
    assert_eq!(err, DecodeError::InvalidEnum);
}

#[test]
fn missing_sentinel_gives_marker_not_found() {
    let mut file = sample_save_bytes(&[soldier_record(23, b"Ruri Yasuda", 0)]);
    let guards_at = 8 + 4 + 30;
    assert_eq!(file[guards_at + 4], b'F');
    file[guards_at + 4] = b'X';
    let err = parse_save(&file).unwrap_err();
    assert_eq!(err, DecodeError::MarkerNotFound);
}

#[test]
fn save_without_any_soldier_marker_gives_marker_not_found() {
    let file = sample_save_bytes(&[]);
    let err = parse_save(&file).unwrap_err();
    assert_eq!(err, DecodeError::MarkerNotFound);
}

#[test]
fn corrupt_record_aborts_the_whole_decode() {
    let mut file = sample_save_bytes(&[
        soldier_record(23, b"Ruri Yasuda", 0),
        soldier_record(24, b"Kenji Sato", 3),
    ]);
    let err = parse_save(&file).unwrap_err();
    assert_eq!(err, DecodeError::InvalidEnum);
    // Repairing the gender byte makes the same bytes decode again.
    let bad_at = file
        .windows(b"equipment".len())
        .rposition(|w| w == b"equipment")
        .unwrap()
        - 1;
    file[bad_at] = 1;
    assert!(parse_save(&file).is_ok());
}

#[test]
fn get_soldier_prefers_the_higher_index_on_duplicate_ids() {
    let file = sample_save_bytes(&[
        soldier_record(23, b"First Copy", 0),
        soldier_record(23, b"Second Copy", 1),
        soldier_record(9, b"Someone Else", 0),
    ]);
    let save = parse_save(&file).unwrap();
    let found = save.get_soldier(23).unwrap();
    assert_eq!(found.name, "Second Copy");
    assert_eq!(save.get_soldier(9).unwrap().name, "Someone Else");
    assert!(save.get_soldier(1000).is_none());
}

#[test]
fn get_soldier_mut_edits_in_place() {
    let file = sample_save_bytes(&[
        soldier_record(23, b"Ruri Yasuda", 0),
        soldier_record(24, b"Kenji Sato", 1),
    ]);
    let mut save = parse_save(&file).unwrap();
    {
        let soldier = save.get_soldier_mut(24).unwrap();
        soldier.xp = 9999;
    }
    assert_eq!(save.get_soldier(24).unwrap().xp, 9999);
    assert_eq!(save.get_soldier(23).unwrap().xp, 9);
    assert!(save.get_soldier_mut(1000).is_none());
}
