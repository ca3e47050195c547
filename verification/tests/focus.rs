//! Focus.

use ratty::focus::{
    drain_focus_requests, focus_boot_terminal, FocusGained, FocusLost, FocusOrigin, FocusRequest,
    FocusTransition, FocusedTerminal, LiveSeat,
};
use ratty::identity::TerminalRegistry;

struct World {
    focus: FocusedTerminal,
    registry: TerminalRegistry,
    live: Vec<LiveSeat>,
    requests: Vec<FocusRequest>,
    next: u64,
}

fn focus_world() -> World {
    World {
        focus: FocusedTerminal::new(),
        registry: TerminalRegistry::default(),
        live: Vec::new(),
        requests: Vec::new(),
        next: 100,
    }
}

fn spawn_seat(world: &mut World) -> u64 {
    let identity = world.registry.allocate().expect("the test pool is nowhere near 128 seats");
    let entity = world.next;
    world.next += 1;
    world.live.push(LiveSeat { entity, id: identity.id() });
    entity
}

fn despawn(world: &mut World, entity: u64) {
    world.live.retain(|seat| seat.entity != entity);
}

fn request(world: &mut World, target: Option<u64>, origin: FocusOrigin) {
    world.requests.push(FocusRequest { target, origin });
}

fn run_drain(world: &mut World) -> FocusTransition {
    let requests = std::mem::take(&mut world.requests);
    drain_focus_requests(&requests, &mut world.focus, &world.live)
}

fn focused(world: &World) -> Option<u64> {
    world.focus.get()
}

#[test]
fn a_request_focuses_a_live_seat_and_no_request_means_no_focus() {
    let mut world = focus_world();
    let seat = spawn_seat(&mut world);
    assert_eq!(world.live.len(), 1, "seat count asserted");
    run_drain(&mut world);
    assert_eq!(focused(&world), None, "no implicit focus from nothing");
    request(&mut world, Some(seat), FocusOrigin::SpawnPolicy);
    run_drain(&mut world);
    assert_eq!(focused(&world), Some(seat));
    assert!(world.focus.is_focused(seat) && !world.focus.is_focused(seat + 1));
}

#[test]
fn a_user_request_beats_a_wire_request_in_the_same_frame() {
    let mut world = focus_world();
    let seat_a = spawn_seat(&mut world);
    let seat_b = spawn_seat(&mut world);
    assert_eq!(world.live.len(), 2, "seat count asserted");
    request(&mut world, Some(seat_a), FocusOrigin::PointerPress);
    request(&mut world, Some(seat_b), FocusOrigin::WireVerb);
    run_drain(&mut world);
    assert_eq!(
        focused(&world),
        Some(seat_a),
        "the user-class request wins over the later wire request"
    );
    request(&mut world, Some(seat_a), FocusOrigin::PointerPress);
    request(&mut world, Some(seat_b), FocusOrigin::JsControl);
    run_drain(&mut world);
    assert_eq!(focused(&world), Some(seat_b));
}

#[test]
fn a_request_naming_a_corpse_is_dropped() {
    let mut world = focus_world();
    let seat_a = spawn_seat(&mut world);
    let seat_b = spawn_seat(&mut world);
    request(&mut world, Some(seat_a), FocusOrigin::SpawnPolicy);
    run_drain(&mut world);
    despawn(&mut world, seat_b);
    assert_eq!(world.live.len(), 1, "seat count asserted");
    request(&mut world, Some(seat_b), FocusOrigin::WireVerb);
    run_drain(&mut world);
    assert_eq!(
        focused(&world),
        Some(seat_a),
        "the authority never points at a dead entity on purpose"
    );
}

#[test]
fn focus_transitions_are_loud_and_both_sides_repaint() {
    let mut world = focus_world();
    let seat_a = spawn_seat(&mut world);
    let seat_b = spawn_seat(&mut world);
    request(&mut world, Some(seat_a), FocusOrigin::SpawnPolicy);
    let first = run_drain(&mut world);
    assert_eq!(first, FocusTransition { lost: None, gained: Some(FocusGained(seat_a)) });
    request(&mut world, Some(seat_b), FocusOrigin::PointerPress);
    let moved = run_drain(&mut world);
    assert_eq!(moved.gained, Some(FocusGained(seat_b)));
    assert_eq!(moved.lost, Some(FocusLost(seat_a)));
}

#[test]
fn a_noop_request_stays_quiet() {
    let mut world = focus_world();
    let seat = spawn_seat(&mut world);
    request(&mut world, Some(seat), FocusOrigin::SpawnPolicy);
    run_drain(&mut world);
    request(&mut world, Some(seat), FocusOrigin::PointerPress);
    let quiet = run_drain(&mut world);
    assert_eq!(
        quiet,
        FocusTransition { lost: None, gained: None },
        "re-focusing the focused terminal fires nothing"
    );
}

#[test]
fn the_focused_terminals_death_falls_back_to_the_mru_survivor() {
    let mut world = focus_world();
    let seat_a = spawn_seat(&mut world);
    let seat_b = spawn_seat(&mut world);
    let seat_c = spawn_seat(&mut world);
    assert_eq!(world.live.len(), 3, "seat count asserted");
    request(&mut world, Some(seat_a), FocusOrigin::SpawnPolicy);
    run_drain(&mut world);
    request(&mut world, Some(seat_c), FocusOrigin::PointerPress);
    run_drain(&mut world);

    despawn(&mut world, seat_c);
    let moved = run_drain(&mut world);
    assert_eq!(focused(&world), Some(seat_a));
    assert_eq!(moved.lost, None, "a corpse gets no events — it cannot repaint");

    despawn(&mut world, seat_a);
    run_drain(&mut world);
    assert_eq!(focused(&world), Some(seat_b));
    assert_eq!(world.focus.history().as_slice(), &[seat_b], "MRU pruned to live seats");
}

#[test]
fn cycle_targets_the_least_recently_focused_live_seat() {
    let mut world = focus_world();
    let seat_a = spawn_seat(&mut world);
    let seat_b = spawn_seat(&mut world);
    let seat_c = spawn_seat(&mut world);
    request(&mut world, Some(seat_a), FocusOrigin::SpawnPolicy);
    run_drain(&mut world);
    assert_eq!(world.focus.cycle_target(&world.live), Some(seat_b));
    request(&mut world, Some(seat_b), FocusOrigin::SpawnPolicy);
    run_drain(&mut world);
    assert_eq!(world.focus.cycle_target(&world.live), Some(seat_c));
    request(&mut world, Some(seat_c), FocusOrigin::SpawnPolicy);
    run_drain(&mut world);
    assert_eq!(world.focus.cycle_target(&world.live), Some(seat_a));
}

#[test]
fn cycling_alone_is_a_noop() {
    let mut world = focus_world();
    let seat = spawn_seat(&mut world);
    request(&mut world, Some(seat), FocusOrigin::SpawnPolicy);
    run_drain(&mut world);
    assert_eq!(
        world.focus.cycle_target(&world.live),
        None,
        "N=1: the chord is a no-op, never a self-focus churn"
    );
}

#[test]
fn cycling_visits_every_seat_and_focusing_nothing_is_legal() {
    let mut world = focus_world();
    let seats: Vec<u64> = (0..5).map(|_| spawn_seat(&mut world)).collect();
    world.requests.push(focus_boot_terminal(seats[0]));
    run_drain(&mut world);
    let mut visited = vec![seats[0]];
    for _ in 0..4 {
        let target = world.focus.cycle_target(&world.live).expect("a target");
        request(&mut world, Some(target), FocusOrigin::Keybinding);
        run_drain(&mut world);
        visited.push(target);
    }
    visited.sort();
    assert_eq!(visited, seats);
    request(&mut world, None, FocusOrigin::WireVerb);
    let moved = run_drain(&mut world);
    assert_eq!(focused(&world), None);
    assert_eq!(moved.gained, None);
    assert!(moved.lost.is_some());
}
