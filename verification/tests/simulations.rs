use priklady::mutex_sim::{holder_label, mutex_step, reset, thread_label, waiting_label, ThreadState, ThreadTiming};
use priklady::particles::{particles_to_spawn, pseudo_offset_byte};
use priklady::pipeline::{Arrival, Sim};
use priklady::shooter::{
    apply_bullet_hits, apply_player_contacts, health_bar, menu_input, restart_input, score_text,
    tally_kills, GameState, ENEMY_HEALTH, PLAYER_HEALTH,
};
use priklady::life::xorshift64;

fn timing(wants: bool, hold: bool, leave: bool) -> ThreadTiming {
    ThreadTiming { wants_lock: wants, hold_over: hold, leave_over: leave }
}

fn exclusive(states: &[ThreadState], locked: Option<usize>) -> bool {
    let holders: Vec<usize> = (0..states.len()).filter(|&i| states[i] == ThreadState::Locked).collect();
    match locked {
        Some(i) => holders == vec![i],
        None => holders.is_empty(),
    }
}

#[test]
fn mutex_one_holder_at_a_time() {
    let mut states = vec![ThreadState::Waiting; 6];
    let mut locked = None;
    let all_want = vec![timing(true, false, false); 6];
    mutex_step(&mut states, &mut locked, true, &all_want);
    assert!(states.iter().all(|s| *s == ThreadState::Acquiring));
    mutex_step(&mut states, &mut locked, true, &all_want);
    assert_eq!(locked, Some(0));
    assert_eq!(states[0], ThreadState::Locked);
    assert!(states[1..].iter().all(|s| *s == ThreadState::Acquiring));
    assert!(exclusive(&states, locked));
    let released = mutex_step(&mut states, &mut locked, true, &vec![timing(false, true, false); 6]);
    assert!(released);
    assert_eq!(states[0], ThreadState::Done);
    assert_eq!(locked, None);
    assert!(states[1..].iter().all(|s| *s == ThreadState::Acquiring));
    let released = mutex_step(&mut states, &mut locked, true, &vec![timing(false, false, true); 6]);
    assert!(!released);
    assert_eq!(states[0], ThreadState::Waiting);
    assert_eq!(locked, Some(1));
    assert!(exclusive(&states, locked));
}

#[test]
fn mutex_pause_after_release_blocks_takeover() {
    let mut states = vec![ThreadState::Locked, ThreadState::Acquiring];
    let mut locked = Some(0);
    mutex_step(&mut states, &mut locked, true, &vec![timing(false, true, false); 2]);
    assert_eq!(states, vec![ThreadState::Done, ThreadState::Acquiring]);
    assert_eq!(locked, None);
    mutex_step(&mut states, &mut locked, false, &vec![timing(false, false, false); 2]);
    assert_eq!(locked, None);
}

#[test]
fn mutex_reset_and_labels() {
    let mut states = vec![ThreadState::Acquiring, ThreadState::Locked, ThreadState::Done, ThreadState::Acquiring];
    let mut locked = Some(1);
    assert_eq!(holder_label(locked), "T1");
    assert_eq!(waiting_label(&states), "T0, T3");
    reset(&mut states, &mut locked);
    assert!(states.iter().all(|s| *s == ThreadState::Waiting));
    assert_eq!(locked, None);
    assert_eq!(holder_label(locked), "nikto");
    assert_eq!(waiting_label(&states), "—");
    assert_eq!(thread_label(12), "T12");
}

fn run_pipeline(values: std::ops::Range<i32>) -> Sim {
    let mut sim = Sim::new();
    for v in values {
        let mut value = v;
        for stage in 1..=4 {
            let (a, nv) = sim.arrive(stage, value);
            value = nv;
            if a != Arrival::Passed {
                break;
            }
        }
    }
    sim
}

#[test]
fn pipeline_collects_first_five_even_squares() {
    let sim = run_pipeline(0..20);
    assert_eq!(sim.result, vec![0, 4, 16, 36, 64]);
    assert!(sim.done);
    assert_eq!(sim.filter_total, 20);
    assert_eq!(sim.filter_passed, 10);
    assert_eq!(sim.map_count, 10);
    assert_eq!(sim.take_count, 5);
    let expected: Vec<i32> = (0..20).filter(|x| x % 2 == 0).map(|x| x * x).take(5).collect();
    assert_eq!(sim.result, expected);
}

#[test]
fn pipeline_stage_outcomes() {
    let mut sim = Sim::new();
    assert_eq!(sim.arrive(1, 3), (Arrival::FilteredOut, 3));
    assert_eq!(sim.arrive(1, -4), (Arrival::Passed, -4));
    assert_eq!(sim.arrive(2, -4), (Arrival::Passed, 16));
    assert_eq!(sim.arrive(4, 16), (Arrival::Collected, 16));
    sim.take_count = 5;
    assert_eq!(sim.arrive(3, 8), (Arrival::TakenOut, 8));
}

#[test]
fn pipeline_spawns_twenty_then_stops() {
    let mut sim = Sim::new();
    let mut seen = Vec::new();
    while let Some(v) = sim.spawn() {
        seen.push(v);
    }
    assert_eq!(seen, (0..20).collect::<Vec<_>>());
    sim.restart();
    assert_eq!(sim.spawn(), Some(0));
    sim.done = true;
    assert_eq!(sim.spawn(), None);
}

#[test]
fn shooter_rules() {
    assert!(menu_input(GameState::Menu, true) == GameState::Playing);
    assert!(menu_input(GameState::Menu, false) == GameState::Menu);
    assert!(restart_input(GameState::GameOver, 700, true) == (GameState::Menu, 0));
    assert!(restart_input(GameState::Playing, 700, true) == (GameState::Playing, 700));
    let mut hp = vec![ENEMY_HEALTH; 4];
    let kills = apply_bullet_hits(&mut hp, &vec![Some(1), None, Some(1), Some(2)]);
    assert_eq!(kills, 1);
    assert_eq!(hp, vec![2, 0, 1, 2]);
    assert_eq!(apply_player_contacts(PLAYER_HEALTH, 1), (2, false));
    assert_eq!(apply_player_contacts(1, 2), (-1, true));
    assert_eq!(apply_player_contacts(3, 0), (3, false));
    assert_eq!(tally_kills(300, 2), 500);
    assert_eq!(health_bar(3), "[*][*][*]");
    assert_eq!(health_bar(-1), "");
    assert_eq!(score_text(1200), "Score: 1200");
}

#[test]
fn particle_cap_and_offsets() {
    assert_eq!(particles_to_spawn(0, true), 3);
    assert_eq!(particles_to_spawn(998, true), 2);
    assert_eq!(particles_to_spawn(1000, true), 0);
    assert_eq!(particles_to_spawn(10, false), 0);
    let mut seed = 12345u64;
    let b = pseudo_offset_byte(&mut seed);
    assert_eq!(seed, xorshift64(12345));
    assert_eq!(b as u64, seed & 0xFF);
}
