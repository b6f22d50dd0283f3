use sokoban::components::{Position, BOX_Z};
use sokoban::events::Event;
use sokoban::map::load_map;
use sokoban::resources::{EventQueue, Gameplay, GameplayState};
use sokoban::store::EntityStore;
use sokoban::systems::gameplay_state_system::GameplayStateSystem;

fn find_box(s: &EntityStore) -> usize {
    (0..s.entity_count()).find(|&id| s.box_colour(id).is_some()).expect("a box exists")
}

fn find_spot(s: &EntityStore) -> usize {
    (0..s.entity_count()).find(|&id| s.spot_colour(id).is_some()).expect("a spot exists")
}

fn tick(store: &EntityStore, gameplay: &mut Gameplay, events: &mut EventQueue) {
    let mut system = GameplayStateSystem::default();
    system.run(store, gameplay, events);
}

#[test]
fn unmatched_spot_keeps_playing() {
    let store = load_map("W W W W\nW P B W\nW . S W\nW W W W").expect("level parses");
    let mut gameplay = Gameplay::default();
    let mut events = EventQueue::default();
    tick(&store, &mut gameplay, &mut events);
    assert_eq!(gameplay.state, GameplayState::Playing);
    assert!(events.events.is_empty());
}

#[test]
fn box_on_spot_wins_and_emits_one_event() {
    let mut store = load_map("W W W W\nW P B W\nW . S W\nW W W W").expect("level parses");
    let box_id = find_box(&store);
    let spot_pos = store.position(find_spot(&store)).expect("spot is placed");
    store.set_position(box_id, Position { x: spot_pos.x, y: spot_pos.y, z: BOX_Z });
    let mut gameplay = Gameplay::default();
    let mut events = EventQueue::default();
    tick(&store, &mut gameplay, &mut events);
    assert_eq!(gameplay.state, GameplayState::Won);
    assert_eq!(events.events, vec![Event::PlayerWon]);
}

#[test]
fn win_event_fires_once_across_many_ticks() {
    let mut store = load_map("W W W W\nW P B W\nW . S W\nW W W W").expect("level parses");
    let box_id = find_box(&store);
    let spot_pos = store.position(find_spot(&store)).expect("spot is placed");
    store.set_position(box_id, Position { x: spot_pos.x, y: spot_pos.y, z: BOX_Z });
    let mut gameplay = Gameplay::default();
    let mut events = EventQueue::default();
    for _ in 0..5 {
        tick(&store, &mut gameplay, &mut events);
        assert_eq!(gameplay.state, GameplayState::Won);
    }
    assert_eq!(events.events, vec![Event::PlayerWon]);
}

#[test]
fn wrong_colour_box_keeps_playing() {
    let mut store = load_map("W W W W\nW P RB W\nW . BS W\nW W W W").expect("level parses");
    let box_id = find_box(&store);
    let spot_pos = store.position(find_spot(&store)).expect("spot is placed");
    store.set_position(box_id, Position { x: spot_pos.x, y: spot_pos.y, z: BOX_Z });
    let mut gameplay = Gameplay::default();
    let mut events = EventQueue::default();
    tick(&store, &mut gameplay, &mut events);
    assert_eq!(gameplay.state, GameplayState::Playing);
    assert!(events.events.is_empty());
}

#[test]
fn matching_colours_win_spot_by_spot() {
    let store = load_map("P RB BB\nN RS BS").expect("level parses");
    let mut gameplay = Gameplay::default();
    let mut events = EventQueue::default();
    tick(&store, &mut gameplay, &mut events);
    assert_eq!(gameplay.state, GameplayState::Playing);

    // Stack each box on the spot of its colour.
    let mut store = store;
    let moves: Vec<(usize, Position)> = (0..store.entity_count())
        .filter_map(|id| {
            let colour = store.box_colour(id)?;
            let spot = (0..store.entity_count())
                .find(|&sid| store.spot_colour(sid) == Some(colour))
                .expect("a spot of the box's colour");
            let pos = store.position(spot).expect("spot is placed");
            Some((id, Position { x: pos.x, y: pos.y, z: BOX_Z }))
        })
        .collect();
    for (id, pos) in moves {
        store.set_position(id, pos);
    }
    tick(&store, &mut gameplay, &mut events);
    assert_eq!(gameplay.state, GameplayState::Won);
    assert_eq!(events.events, vec![Event::PlayerWon]);
}

#[test]
fn level_without_spots_is_vacuously_won() {
    let store = load_map("P .").expect("level parses");
    let mut gameplay = Gameplay::default();
    let mut events = EventQueue::default();
    tick(&store, &mut gameplay, &mut events);
    assert_eq!(gameplay.state, GameplayState::Won);
    assert_eq!(events.events, vec![Event::PlayerWon]);
}

#[test]
fn evaluator_leaves_counters_alone() {
    let store = load_map("P .").expect("level parses");
    let mut gameplay = Gameplay { state: GameplayState::Playing, moves_count: 7, level: 3 };
    let mut events = EventQueue::default();
    tick(&store, &mut gameplay, &mut events);
    assert_eq!(gameplay.moves_count, 7);
    assert_eq!(gameplay.level, 3);
}

#[test]
fn event_queue_drains_in_order() {
    let mut queue = EventQueue::default();
    queue.events.push(Event::PlayerHitObstacle);
    queue.events.push(Event::PlayerWon);
    let drained = queue.drain();
    assert_eq!(drained, vec![Event::PlayerHitObstacle, Event::PlayerWon]);
    assert!(queue.events.is_empty());
}

#[test]
fn gameplay_state_labels() {
    assert_eq!(GameplayState::Playing.label(), "Playing");
    assert_eq!(GameplayState::Won.label(), "Won");
    assert_eq!(GameplayState::default(), GameplayState::Playing);
    let gameplay = Gameplay::default();
    assert_eq!(gameplay.moves_count, 0);
    assert_eq!(gameplay.level, 0);
}
