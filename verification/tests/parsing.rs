use sokoban::components::{BoxColour, Position, FLOOR_Z, PLAYER_Z, WALL_Z};
use sokoban::map::{initialize_level, load_map, ParseError};
use sokoban::store::EntityStore;

fn count_floors(s: &EntityStore) -> usize {
    (0..s.entity_count()).filter(|&id| s.is_floor(id)).count()
}

fn count_walls(s: &EntityStore) -> usize {
    (0..s.entity_count()).filter(|&id| s.is_wall(id)).count()
}

fn count_players(s: &EntityStore) -> usize {
    (0..s.entity_count()).filter(|&id| s.is_player(id)).count()
}

fn boxes_of(s: &EntityStore) -> Vec<(usize, BoxColour)> {
    (0..s.entity_count()).filter_map(|id| s.box_colour(id).map(|c| (id, c))).collect()
}

fn spots_of(s: &EntityStore) -> Vec<(usize, BoxColour)> {
    (0..s.entity_count()).filter_map(|id| s.spot_colour(id).map(|c| (id, c))).collect()
}

const SMALL_LEVEL: &str = "W W W W\nW P B W\nW . S W\nW W W W";

#[test]
fn small_level_entities() {
    let store = load_map(SMALL_LEVEL).expect("level parses");
    assert_eq!(count_floors(&store), 16);
    assert_eq!(count_players(&store), 1);
    assert_eq!(count_walls(&store), 12);
    let boxes = boxes_of(&store);
    let spots = spots_of(&store);
    assert_eq!(boxes.len(), 1);
    assert_eq!(spots.len(), 1);
    assert_eq!(boxes[0].1, BoxColour::Red);
    assert_eq!(spots[0].1, BoxColour::Red);
}

#[test]
fn coordinates_row_is_y_column_is_x() {
    let store = load_map("N P\nW .").expect("level parses");
    let mut player_pos = None;
    let mut wall_pos = None;
    for id in 0..store.entity_count() {
        if store.is_player(id) {
            player_pos = store.position(id);
        }
        if store.is_wall(id) {
            wall_pos = store.position(id);
        }
    }
    assert_eq!(player_pos, Some(Position { x: 1, y: 0, z: PLAYER_Z }));
    assert_eq!(wall_pos, Some(Position { x: 0, y: 1, z: WALL_Z }));
}

#[test]
fn void_cell_creates_nothing() {
    let store = load_map("N P\nW .").expect("level parses");
    assert_eq!(count_floors(&store), 3);
    let positions: Vec<Position> =
        (0..store.entity_count()).filter_map(|id| store.position(id)).collect();
    assert!(!positions.contains(&Position { x: 0, y: 0, z: FLOOR_Z }));
}

#[test]
fn parse_is_deterministic() {
    let a = load_map(SMALL_LEVEL).expect("level parses");
    let b = load_map(SMALL_LEVEL).expect("level parses");
    assert_eq!(a, b);
}

#[test]
fn unrecognized_token_is_reported_with_its_cell() {
    match load_map("W W W\nW X W") {
        Err(ParseError::UnrecognizedToken { token, row, column }) => {
            assert_eq!(token, "X");
            assert_eq!(row, 1);
            assert_eq!(column, 1);
        },
        other => panic!("expected an unrecognized token error, got {:?}", other),
    }
}

#[test]
fn unrecognized_token_at_first_cell() {
    match load_map("X P") {
        Err(ParseError::UnrecognizedToken { token, row, column }) => {
            assert_eq!(token, "X");
            assert_eq!(row, 0);
            assert_eq!(column, 0);
        },
        other => panic!("expected an unrecognized token error, got {:?}", other),
    }
}

#[test]
fn first_unrecognized_token_wins() {
    match load_map("P Q\nR W") {
        Err(ParseError::UnrecognizedToken { token, row, column }) => {
            assert_eq!(token, "Q");
            assert_eq!(row, 0);
            assert_eq!(column, 1);
        },
        other => panic!("expected an unrecognized token error, got {:?}", other),
    }
}

#[test]
fn long_tokens_are_unrecognized() {
    match load_map("P WWW") {
        Err(ParseError::UnrecognizedToken { token, row, column }) => {
            assert_eq!(token, "WWW");
            assert_eq!(row, 0);
            assert_eq!(column, 1);
        },
        other => panic!("expected an unrecognized token error, got {:?}", other),
    }
}

#[test]
fn missing_player_is_rejected() {
    assert_eq!(load_map("W . W"), Err(ParseError::NoPlayer));
    assert_eq!(load_map(""), Err(ParseError::NoPlayer));
}

#[test]
fn duplicate_player_is_rejected() {
    assert_eq!(load_map("P P"), Err(ParseError::MultiplePlayers));
}

#[test]
fn oversized_grid_is_rejected() {
    let wide = ". ".repeat(257) + "P";
    assert_eq!(load_map(&wide), Err(ParseError::MapTooLarge));
    let tall = "P".to_string() + &"\n.".repeat(256);
    assert_eq!(load_map(&tall), Err(ParseError::MapTooLarge));
}

#[test]
fn widest_allowed_grid_parses() {
    let mut text = ". ".repeat(255);
    text.push('P');
    let store = load_map(&text).expect("256 columns fit");
    assert_eq!(count_floors(&store), 256);
    assert_eq!(count_players(&store), 1);
}

#[test]
fn extra_blanks_are_ignored() {
    let a = load_map("W  P \t B\n\rW . S").expect("level parses");
    let b = load_map("W P B\nW . S").expect("level parses");
    assert_eq!(a, b);
}

#[test]
fn coloured_tokens_carry_their_colour() {
    let store = load_map("P RB BB\n. RS BS").expect("level parses");
    let boxes = boxes_of(&store);
    let spots = spots_of(&store);
    assert_eq!(boxes.len(), 2);
    assert_eq!(spots.len(), 2);
    assert_eq!(boxes[0].1, BoxColour::Red);
    assert_eq!(boxes[1].1, BoxColour::Blue);
    assert_eq!(spots[0].1, BoxColour::Red);
    assert_eq!(spots[1].1, BoxColour::Blue);
}

#[test]
fn built_in_level_loads() {
    let store = initialize_level().expect("the built-in level parses");
    assert_eq!(count_floors(&store), 70);
    assert_eq!(count_players(&store), 1);
    assert_eq!(boxes_of(&store).len(), 2);
    assert_eq!(spots_of(&store).len(), 2);
}

#[test]
fn parsed_boxes_and_spots_sit_on_distinct_cells() {
    let store = initialize_level().expect("the built-in level parses");
    let box_cells: Vec<(u8, u8)> = (0..store.entity_count())
        .filter(|&id| store.box_colour(id).is_some())
        .map(|id| {
            let p = store.position(id).expect("boxes are placed");
            (p.x, p.y)
        })
        .collect();
    let spot_cells: Vec<(u8, u8)> = (0..store.entity_count())
        .filter(|&id| store.spot_colour(id).is_some())
        .map(|id| {
            let p = store.position(id).expect("spots are placed");
            (p.x, p.y)
        })
        .collect();
    for (i, a) in box_cells.iter().enumerate() {
        assert!(!box_cells[i + 1..].contains(a));
    }
    for (i, a) in spot_cells.iter().enumerate() {
        assert!(!spot_cells[i + 1..].contains(a));
    }
}
