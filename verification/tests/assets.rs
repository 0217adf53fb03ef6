use xenosave::assets::{Assets, FacePath, KeyedPath, KeyedString};
use xenosave::soldier::Gender;

fn ks(key: &str, string: &str) -> KeyedString {
    KeyedString { key: String::from(key), string: String::from(string) }
}

fn face(race: &str, id: u32, path: &str) -> FacePath {
    FacePath { race: String::from(race), id, path: String::from(path) }
}

fn sample_assets() -> Assets {
    Assets::from_parts(
        String::from("/games/assets"),
        vec![
            ks("regiment.japan1", "1st Tokyo Rifles"),
            ks("experience.none", "Rookie"),
            ks("country.japan", "Japan"),
            ks("regiment.usa1", "82nd Airborne"),
            ks("country.japan", "Nippon"),
        ],
        vec![KeyedPath { key: String::from("japan"), path: String::from("flags/japan.png") }],
        vec![face("asi", 3, "male/asi3.png"), face("asi", 4, "male/asi4.png")],
        vec![
            face("asi", 3, "female/asi3.png"),
            face("cau", 3, "female/cau3.png"),
            face("asi", 3, "female/asi3_alt.png"),
        ],
    )
}

#[test]
fn from_parts_filters_names_by_key_prefix() {
    let assets = sample_assets();
    assert_eq!(assets.all_strings.len(), 5);
    assert_eq!(
        assets.regiment_names,
        vec![ks("regiment.japan1", "1st Tokyo Rifles"), ks("regiment.usa1", "82nd Airborne")]
    );
    assert_eq!(assets.experience_names, vec![ks("experience.none", "Rookie")]);
    assert_eq!(assets.asset_path, "/games/assets");
    assert_eq!(assets.flags.len(), 1);
}

#[test]
fn string_by_key_prefers_the_higher_index_on_duplicate_keys() {
    let assets = sample_assets();
    let found = assets.string_by_key("country.japan").unwrap();
    assert_eq!(found.string, "Nippon");
    assert_eq!(assets.string_by_key("regiment.usa1").unwrap().string, "82nd Airborne");
    assert!(assets.string_by_key("country.mars").is_none());
}

#[test]
fn get_face_selects_by_race_id_and_gender() {
    let assets = sample_assets();
    let male = assets.get_face(&b"asi".to_vec(), 3, Gender::Male).unwrap();
    assert_eq!(male.path, "male/asi3.png");
    let female = assets.get_face(&b"asi".to_vec(), 3, Gender::Female).unwrap();
    assert_eq!(female.path, "female/asi3_alt.png");
    assert!(assets.get_face(&b"asi".to_vec(), 9, Gender::Male).is_none());
    assert!(assets.get_face(&b"cau".to_vec(), 3, Gender::Male).is_none());
}

#[test]
fn keyed_string_label_shows_the_key_only_when_it_differs() {
    let named = ks("regiment.japan1", "1st Tokyo Rifles");
    assert_eq!(named.label(), "1st Tokyo Rifles (regiment.japan1)");
    let plain = ks("Japan", "Japan");
    assert_eq!(plain.label(), "Japan");
}

#[test]
fn gender_labels() {
    assert_eq!(Gender::Female.label(), "Female");
    assert_eq!(Gender::Male.label(), "Male");
}
