use sokoban::levels::{LevelError, LevelStore};
use sokoban::map::ParseError;

#[test]
fn missing_level_is_reported() {
    let store = LevelStore::default();
    assert_eq!(store.load_level(0), Err(LevelError::NotFound(0)));
}

#[test]
fn registered_level_loads() {
    let mut levels = LevelStore::default();
    levels.add_level(1, "W W W\nW P W\nW W W".to_string());
    let store = levels.load_level(1).expect("level parses");
    let players = (0..store.entity_count()).filter(|&id| store.is_player(id)).count();
    assert_eq!(players, 1);
    assert_eq!(levels.load_level(2), Err(LevelError::NotFound(2)));
}

#[test]
fn invalid_level_text_is_carried_through() {
    let mut levels = LevelStore::default();
    levels.add_level(0, "P X".to_string());
    match levels.load_level(0) {
        Err(LevelError::Invalid(ParseError::UnrecognizedToken { token, row, column })) => {
            assert_eq!(token, "X");
            assert_eq!(row, 0);
            assert_eq!(column, 1);
        },
        other => panic!("expected an invalid level, got {:?}", other),
    }
}

#[test]
fn replacing_a_level_takes_effect() {
    let mut levels = LevelStore::default();
    levels.add_level(0, "P X".to_string());
    levels.add_level(0, "P .".to_string());
    assert!(levels.load_level(0).is_ok());
}
