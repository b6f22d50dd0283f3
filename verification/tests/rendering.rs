use sokoban::components::{Renderable, RenderableKind, BOX_SPOT_Z, FLOOR_Z, WALL_Z};
use sokoban::map::load_map;
use sokoban::systems::rendering_system::{batch, get_image, DrawBatch, Transform, TILE_SIZE};

fn four_frame_renderable() -> Renderable {
    Renderable::new_animated(vec![
        "frame_0.png".to_string(),
        "frame_1.png".to_string(),
        "frame_2.png".to_string(),
        "frame_3.png".to_string(),
    ])
}

#[test]
fn animation_frame_selection() {
    let r = four_frame_renderable();
    assert_eq!(get_image(&r, 0), "frame_0.png");
    assert_eq!(get_image(&r, 250), "frame_1.png");
    assert_eq!(get_image(&r, 500), "frame_2.png");
    assert_eq!(get_image(&r, 750), "frame_3.png");
    assert_eq!(get_image(&r, 999), "frame_3.png");
    assert_eq!(get_image(&r, 1000), "frame_0.png");
}

#[test]
fn static_renderable_always_shows_its_image() {
    let r = Renderable::new_static("only.png".to_string());
    assert_eq!(r.kind(), RenderableKind::Static);
    for delta in [0u64, 250, 999, 12345] {
        assert_eq!(get_image(&r, delta), "only.png");
    }
}

#[test]
fn short_animations_wrap_their_frames() {
    let r = Renderable::new_animated(vec![
        "a.png".to_string(),
        "b.png".to_string(),
        "c.png".to_string(),
    ]);
    assert_eq!(r.kind(), RenderableKind::Animated);
    // Frame index 3 wraps around a three-frame cycle to frame 0.
    assert_eq!(get_image(&r, 750), "a.png");
}

fn total_transforms(batches: &[DrawBatch]) -> usize {
    batches.iter().map(|b| b.transforms.len()).sum()
}

#[test]
fn batching_preserves_entity_count() {
    let store = load_map("W W W W\nW P B W\nW . S W\nW W W W").expect("level parses");
    let batches = batch(&store, 0);
    // 16 floors + 12 walls + 1 player + 1 box + 1 spot, all renderable.
    assert_eq!(store.entity_count(), 31);
    assert_eq!(total_transforms(&batches), 31);
}

#[test]
fn batches_rise_in_depth_and_group_by_image() {
    let store = load_map("W W W W\nW P B W\nW . S W\nW W W W").expect("level parses");
    let batches = batch(&store, 0);
    for pair in batches.windows(2) {
        assert!(pair[0].z <= pair[1].z);
    }
    for (i, a) in batches.iter().enumerate() {
        for b in &batches[i + 1..] {
            assert!(!(a.z == b.z && a.image == b.image));
        }
    }
    // One batch per layer and image: floors, spot, then walls, player
    // and box at the top layer in first-appearance order.
    assert_eq!(batches.len(), 5);
    assert_eq!(batches[0].z, FLOOR_Z);
    assert_eq!(batches[0].image, "/images/floor.png");
    assert_eq!(batches[0].transforms.len(), 16);
    assert_eq!(batches[1].z, BOX_SPOT_Z);
    assert_eq!(batches[1].image, "/images/box_spot_red.png");
    assert_eq!(batches[2].z, WALL_Z);
    assert_eq!(batches[2].image, "/images/wall.png");
    assert_eq!(batches[2].transforms.len(), 12);
    assert_eq!(batches[3].image, "/images/player_1.png");
    assert_eq!(batches[4].image, "/images/box_red_1.png");
}

#[test]
fn animated_entities_change_image_with_time() {
    let store = load_map("P .").expect("level parses");
    let at_start = batch(&store, 0);
    let later = batch(&store, 250);
    let player_image_start =
        at_start.iter().find(|b| b.image.contains("player")).expect("player drawn");
    let player_image_later =
        later.iter().find(|b| b.image.contains("player")).expect("player drawn");
    assert_eq!(player_image_start.image, "/images/player_1.png");
    assert_eq!(player_image_later.image, "/images/player_2.png");
}

#[test]
fn transforms_scale_grid_coordinates_by_tile_size() {
    let store = load_map("N N\nN P").expect("level parses");
    let batches = batch(&store, 0);
    let player = batches.iter().find(|b| b.image.contains("player")).expect("player drawn");
    assert_eq!(player.transforms, vec![Transform { x: TILE_SIZE, y: TILE_SIZE }]);
}

#[test]
fn batching_is_deterministic() {
    let store = load_map("W W W W\nW P B W\nW . S W\nW W W W").expect("level parses");
    assert_eq!(batch(&store, 123), batch(&store, 123));
}
