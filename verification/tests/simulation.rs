use langtons_ant::Simulator;
use langtons_ant::Vec2;

use std::collections::HashMap;

#[test]
fn parses_classic_pair() {
    let sim = Simulator::new("RL").unwrap();
    assert_eq!(sim.states.len(), 2);
    let r = sim.states[0];
    let l = sim.states[1];
    // rotate +90 degrees, then rotate -90 degrees
    assert_eq!((r.a, r.b, r.c, r.d), (0, 1, -1, 0));
    assert_eq!((l.a, l.b, l.c, l.d), (0, -1, 1, 0));
}

#[test]
fn parses_all_four_symbols() {
    let sim = Simulator::new("RLUN").unwrap();
    assert_eq!(sim.states.len(), 4);
    let u = sim.states[2];
    let n = sim.states[3];
    assert_eq!((u.a, u.b, u.c, u.d), (-1, 0, 0, -1));
    assert_eq!((n.a, n.b, n.c, n.d), (1, 0, 0, 1));
}

#[test]
fn rejects_invalid_symbol() {
    match Simulator::new("RX") {
        Ok(_) => panic!("RX must be rejected"),
        Err(e) => assert_eq!(e.symbol, Some('X')),
    }
}

#[test]
fn rejects_empty_sequence() {
    match Simulator::new("") {
        Ok(_) => panic!("an empty sequence must be rejected"),
        Err(e) => assert_eq!(e.symbol, None),
    }
}

#[test]
fn rejects_later_invalid_symbol() {
    match Simulator::new("RLUN?") {
        Ok(_) => panic!("RLUN? must be rejected"),
        Err(e) => assert_eq!(e.symbol, Some('?')),
    }
}

#[test]
fn starts_at_origin_facing_left() {
    let sim = Simulator::new("RL").unwrap();
    assert_eq!(sim.ant_position, Vec2 { x: 0, y: 0 });
    assert_eq!(sim.ant_direction, Vec2 { x: -1, y: 0 });
    assert_eq!(sim.board.len(), 0);
}

#[test]
fn first_steps_of_classic_ant() {
    let mut sim = Simulator::new("RL").unwrap();
    sim.simulate();
    // on white, turn right: facing left becomes facing up, then move
    assert_eq!(sim.ant_direction, Vec2 { x: 0, y: 1 });
    assert_eq!(sim.ant_position, Vec2 { x: 0, y: 1 });
    assert_eq!(sim.state_at(0, 0), 1);
    sim.simulate();
    assert_eq!(sim.ant_direction, Vec2 { x: 1, y: 0 });
    assert_eq!(sim.ant_position, Vec2 { x: 1, y: 1 });
    assert_eq!(sim.state_at(0, 1), 1);
}

#[test]
fn two_runs_agree() {
    let mut a = Simulator::new("RLU").unwrap();
    let mut b = Simulator::new("RLU").unwrap();
    for _ in 0..500 {
        a.simulate();
        b.simulate();
        assert_eq!(a.ant_position, b.ant_position);
        assert_eq!(a.ant_direction, b.ant_direction);
        assert_eq!(a.board.len(), b.board.len());
    }
    for x in -30..30 {
        for y in -30..30 {
            assert_eq!(a.state_at(x, y), b.state_at(x, y));
        }
    }
}

#[test]
fn heading_stays_axis_aligned_unit() {
    let mut sim = Simulator::new("RLUN").unwrap();
    for _ in 0..1000 {
        sim.simulate();
        let d = sim.ant_direction;
        assert!(
            (d.x.abs() == 1 && d.y == 0) || (d.x == 0 && d.y.abs() == 1),
            "heading {:?} is not an axis-aligned unit vector",
            d
        );
    }
}

#[test]
fn stored_state_is_visits_mod_states() {
    let mut sim = Simulator::new("RLU").unwrap();
    let mut counts: HashMap<(i32, i32), usize> = HashMap::new();
    for _ in 0..2000 {
        let p = (sim.ant_position.x, sim.ant_position.y);
        *counts.entry(p).or_insert(0) += 1;
        sim.simulate();
    }
    assert_eq!(counts.len(), sim.board.len());
    for (&(x, y), &v) in &counts {
        assert_eq!(sim.state_at(x, y), v % 3);
    }
}

#[test]
fn classic_ant_ten_thousand_steps() {
    let mut sim = Simulator::new("RL").unwrap();
    for _ in 0..10_000 {
        sim.simulate();
    }
    let visited = sim.board.len();
    assert!(visited > 0);
    assert!(visited < 10_001);
    assert_ne!(sim.ant_position, Vec2 { x: 0, y: 0 });
}

#[test]
fn single_no_turn_state_goes_straight() {
    let mut sim = Simulator::new("N").unwrap();
    for k in 1..=50 {
        sim.simulate();
        assert_eq!(sim.ant_direction, Vec2 { x: -1, y: 0 });
        assert_eq!(sim.ant_position, Vec2 { x: -k, y: 0 });
        // with one state, every visited cell cycles straight back to 0
        assert_eq!(sim.state_at(-(k - 1), 0), 0);
    }
    assert_eq!(sim.board.len(), 50);
}
