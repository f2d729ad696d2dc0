use tile_walker::character::{CharacterSystem, Movement, TILE_MOVEMENT_DURATION_IN_LOOP};
use tile_walker::input::{read_movements_actions, HeldActions, Orientation};
use tile_walker::TILE_SIZE;

fn held(up: bool, down: bool, left: bool, right: bool) -> HeldActions {
    HeldActions { up, down, left, right }
}

fn none_held() -> HeldActions {
    held(false, false, false, false)
}

#[test]
fn single_keys_resolve_to_their_direction() {
    assert_eq!(read_movements_actions(&held(true, false, false, false)), Some(Orientation::Up));
    assert_eq!(read_movements_actions(&held(false, true, false, false)), Some(Orientation::Down));
    assert_eq!(read_movements_actions(&held(false, false, true, false)), Some(Orientation::Left));
    assert_eq!(read_movements_actions(&held(false, false, false, true)), Some(Orientation::Right));
}

#[test]
fn nothing_held_resolves_to_none() {
    assert_eq!(read_movements_actions(&none_held()), None);
}

#[test]
fn all_opposite_keys_cancel() {
    assert_eq!(read_movements_actions(&held(true, true, true, true)), None);
    assert_eq!(read_movements_actions(&held(false, false, true, true)), None);
    assert_eq!(read_movements_actions(&held(true, true, false, false)), None);
}

#[test]
fn horizontal_wins_over_vertical() {
    assert_eq!(read_movements_actions(&held(true, false, false, true)), Some(Orientation::Right));
    assert_eq!(read_movements_actions(&held(false, true, true, false)), Some(Orientation::Left));
}

#[test]
fn cancelled_axis_leaves_the_other() {
    assert_eq!(read_movements_actions(&held(false, true, true, true)), Some(Orientation::Down));
    assert_eq!(read_movements_actions(&held(true, true, true, false)), Some(Orientation::Left));
}

#[test]
fn new_system_is_idle_facing_down() {
    let system = CharacterSystem::new();
    assert!(!system.is_moving());
    assert_eq!(system.orientation(), Orientation::Down);
    assert_eq!(system.next_frame(), 0);
    assert_eq!(system.frame_counter(), 0);
}

#[test]
fn idle_tick_without_input_does_nothing() {
    let mut system = CharacterSystem::new();
    assert_eq!(system.run(None), None);
    assert!(!system.is_moving());
    assert_eq!(system.frame_counter(), 0);
}

#[test]
fn init_movement_sets_base_frame_and_counter() {
    let cases = [
        (Orientation::Right, 12),
        (Orientation::Left, 8),
        (Orientation::Down, 0),
        (Orientation::Up, 4),
    ];
    for (orientation, base) in cases {
        let mut system = CharacterSystem::new();
        system.init_movement(orientation);
        assert!(system.is_moving());
        assert_eq!(system.orientation(), orientation);
        assert_eq!(system.next_frame(), base);
        assert_eq!(system.frame_counter(), 16);
    }
}

#[test]
fn right_press_moves_one_tile_in_sixteen_ticks() {
    let mut system = CharacterSystem::new();
    let requested = read_movements_actions(&held(false, false, false, true));
    assert_eq!(requested, Some(Orientation::Right));
    let first = system.run(requested).unwrap();
    assert_eq!(system.orientation(), Orientation::Right);
    assert_eq!(first.sprite_number, 12);
    assert_eq!(first.movement, Movement { x: 2, y: 0 });
    let (mut x, mut y) = (first.movement.x, first.movement.y);
    for tick in 1..16 {
        assert!(system.is_moving());
        let request = if tick % 2 == 0 { requested } else { None };
        let out = system.run(request).unwrap();
        x += out.movement.x;
        y += out.movement.y;
    }
    assert_eq!((x, y), (TILE_SIZE, 0));
    assert!(!system.is_moving());
    assert_eq!(system.frame_counter(), 0);
    assert_eq!(system.next_frame(), 12);
    assert_eq!(system.run(None), None);
}

#[test]
fn each_direction_moves_by_signed_steps() {
    let cases = [
        (Orientation::Right, (2, 0)),
        (Orientation::Left, (-2, 0)),
        (Orientation::Down, (0, -2)),
        (Orientation::Up, (0, 2)),
    ];
    for (orientation, (dx, dy)) in cases {
        let mut system = CharacterSystem::new();
        let out = system.run(Some(orientation)).unwrap();
        assert_eq!(out.movement, Movement { x: dx, y: dy });
    }
}

#[test]
fn walk_cycle_frames_over_a_transit() {
    let mut system = CharacterSystem::new();
    let mut frames = Vec::new();
    for _ in 0..TILE_MOVEMENT_DURATION_IN_LOOP {
        frames.push(system.run(Some(Orientation::Left)).unwrap().sprite_number);
    }
    assert_eq!(frames, vec![8, 8, 8, 8, 9, 9, 9, 9, 10, 10, 10, 10, 11, 11, 11, 8]);
    for _ in 0..TILE_MOVEMENT_DURATION_IN_LOOP {
        frames.push(system.run(Some(Orientation::Left)).unwrap().sprite_number);
    }
    assert_eq!(&frames[16..], &frames[..16]);
    assert!(frames.iter().all(|f| *f < 16));
}

#[test]
fn new_direction_ignored_while_moving() {
    let mut system = CharacterSystem::new();
    system.run(Some(Orientation::Up));
    for _ in 1..TILE_MOVEMENT_DURATION_IN_LOOP {
        let out = system.run(Some(Orientation::Left)).unwrap();
        assert_eq!(system.orientation(), Orientation::Up);
        assert_eq!(out.movement, Movement { x: 0, y: 2 });
    }
    assert!(!system.is_moving());
    let out = system.run(Some(Orientation::Left)).unwrap();
    assert_eq!(system.orientation(), Orientation::Left);
    assert_eq!(out.movement, Movement { x: -2, y: 0 });
}

#[test]
fn init_movement_restarts_a_moving_actor() {
    let mut system = CharacterSystem::new();
    for _ in 0..5 {
        system.run(Some(Orientation::Up));
    }
    assert!(system.is_moving());
    system.init_movement(Orientation::Right);
    assert!(system.is_moving());
    assert_eq!(system.orientation(), Orientation::Right);
    assert_eq!(system.next_frame(), 12);
    assert_eq!(system.frame_counter(), 16);
}
