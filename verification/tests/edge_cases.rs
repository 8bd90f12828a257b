use priklady::ownership_viz::{AppState as OwnershipState, PanelLineKind};
use priklady::shooter::apply_bullet_hits;
use priklady::text::push_signed_decimal;
use priklady::traits_viz::{vtable_active_row, VtableRow, VtableStep};
use priklady::types_viz::{type_table_lines, TableLineKind};
use priklady::wire::{encode_fields, Serialize, U16Be, U32Le};
use priklady::pipeline::{Arrival, DotPhase, Sim};

#[test]
fn second_hit_on_destroyed_enemy_is_no_new_kill() {
    let mut hp = vec![1];
    assert_eq!(apply_bullet_hits(&mut hp, &vec![Some(0), Some(0)]), 1);
    assert_eq!(hp, vec![-1]);
    let mut hp = vec![2, 1, 0];
    assert_eq!(apply_bullet_hits(&mut hp, &vec![Some(0), Some(2), Some(0), Some(1), Some(0)]), 2);
    assert_eq!(hp, vec![-1, 0, -1]);
}

#[test]
fn signed_numerals_cover_whole_range() {
    for n in [i64::MIN, -1, 0, 7, i64::MAX] {
        let mut s = String::from("x=");
        push_signed_decimal(&mut s, n);
        assert_eq!(s, format!("x={}", n));
    }
}

#[test]
fn vtable_rows_follow_lookup() {
    assert_eq!(vtable_active_row(VtableStep::Idle), None);
    assert_eq!(vtable_active_row(VtableStep::DataPtr), Some(VtableRow::DataPtr));
    assert_eq!(vtable_active_row(VtableStep::AreaLookup), Some(VtableRow::Area));
    assert_eq!(vtable_active_row(VtableStep::PerimeterLookup), Some(VtableRow::Perimeter));
    assert_eq!(vtable_active_row(VtableStep::Done), None);
}

#[test]
fn type_panel_lines() {
    let lines = type_table_lines();
    assert_eq!(lines.len(), 23);
    assert_eq!(lines[0].text, format!("  {:<6} {:>5}   {:<18} {}", "Typ", "Bajty", "Min", "Max"));
    assert_eq!(lines[1].text, format!("  {}", "─".repeat(50)));
    assert!(lines[2].kind == TableLineKind::Legend);
    assert!(lines[6].kind == TableLineKind::Row(0));
    assert_eq!(lines[6].text, format!("  {:<6} {:>5}   {:<18} {}", "u32", "4", "0", "4 294 967 295"));
    assert!(lines[12].kind == TableLineKind::Row(2));
    assert_eq!(lines[16].text, "");
    assert_eq!(lines[17].text, "  {sep}");
    assert_eq!(lines[22].text, "  char (4B Unicode) ≠ C char (1B ASCII)");
}

#[test]
fn dropped_panel_per_step() {
    let mut s = OwnershipState::new();
    let p = s.dropped_panel();
    assert_eq!(p.len(), 3);
    assert_eq!(p[0].text, "  [nedostupné / dropped]");
    assert!(p[2].kind == PanelLineKind::Nothing && p[2].text == "  (nič)");
    s.next_step();
    s.next_step();
    s.next_step();
    assert!(s.use_after_move_shown());
    let p = s.dropped_panel();
    assert_eq!(p.len(), 5);
    assert!(p[2].kind == PanelLineKind::Name && p[2].text == "  s1 ");
    assert_eq!(p[3].text, "  [USE AFTER MOVE!]");
    s.next_step();
    let p = s.dropped_panel();
    assert_eq!(p.len(), 8);
    assert_eq!(p[5].text, "  s2 ");
    assert!(!s.use_after_move_shown());
}

#[test]
fn encoding_joins_and_sizes() {
    let a = U16Be(0x0800);
    let b = U32Le(0xDEAD_BEEF);
    let c = U16Be(7);
    let first: [&dyn Serialize; 2] = [&a, &b];
    let second: [&dyn Serialize; 1] = [&c];
    let all: [&dyn Serialize; 3] = [&a, &b, &c];
    let mut joined = encode_fields(&first);
    joined.extend(encode_fields(&second));
    assert_eq!(encode_fields(&all), joined);
    assert_eq!(encode_fields(&all).len(), all.iter().map(|f| f.wire_size()).sum::<usize>());
}

#[test]
fn pipeline_bookkeeping_stays_consistent() {
    let mut sim = Sim::new();
    while let Some(v) = sim.spawn() {
        let mut value = v;
        for stage in 1..=4 {
            let (a, nv) = sim.arrive(stage, value);
            value = nv;
            if a != priklady::pipeline::Arrival::Passed {
                break;
            }
        }
        assert!(sim.filter_passed <= sim.filter_total && sim.take_count <= 5);
        assert_eq!(sim.done, sim.result.len() >= 5);
    }
    assert_eq!(sim.result, vec![0, 4, 16, 36, 64]);
    assert_eq!(sim.next_spawn_val, 9);
}

#[test]
fn pointer_only_on_the_owner_and_heap_addresses_in_order() {
    let mut state = OwnershipState::new();
    for _ in 0..6 {
        for v in state.vars() {
            if v.details.contains("ptr=0x7f4a") {
                assert!(v.col == priklady::ownership_viz::ColState::Stack);
            }
        }
        let names: Vec<&str> = state.vars().iter().map(|v| v.name).collect();
        let mut unique = names.clone();
        unique.dedup();
        assert_eq!(names, unique);
        let h = state.heap_items();
        assert!(h.is_empty() || h.len() == 8);
        for (i, (line, _)) in h.iter().enumerate() {
            assert!(line.starts_with(&format!("0x{:x}:", 0x7f4a + i)));
        }
        state.next_step();
    }
}

#[test]
fn dots_travelling_in_order_give_the_pipeline_result() {
    let mut sim = Sim::new();
    let mut ticks = 0;
    while !(sim.done && !sim.dots.iter().any(|d| d.phase == DotPhase::Moving)) {
        sim.spawn();
        for idx in 0..sim.dots.len() {
            match sim.dots[idx].phase {
                DotPhase::Moving => {
                    sim.advance_dot(idx);
                }
                DotPhase::FilterFlash | DotPhase::TakeFlash => sim.retire(idx),
                _ => {}
            }
        }
        ticks += 1;
        assert!(ticks < 100);
        assert!(sim.result.len() <= 5 && sim.take_count <= 5);
        assert_eq!(sim.result[..], [0, 4, 16, 36, 64][..sim.result.len()]);
    }
    assert_eq!(sim.result, vec![0, 4, 16, 36, 64]);
    assert!(sim.dots.iter().all(|d| d.phase != DotPhase::FilterFlash));
    let mut again = Sim::new();
    again.spawn();
    assert_eq!(again.advance_dot(0), Some(Arrival::Passed));
    assert_eq!(again.dots[0].stage, 1);
    assert_eq!(again.advance_dot(5), None);
}

#[test]
fn advancing_a_dot_applies_each_stage() {
    let mut sim = Sim::new();
    sim.spawn();
    sim.spawn();
    assert_eq!(sim.advance_dot(1), Some(Arrival::FilteredOut));
    assert_eq!(sim.dots[1].phase, DotPhase::FilterFlash);
    sim.retire(1);
    assert_eq!(sim.dots[1].phase, DotPhase::Gone);
    assert_eq!(sim.advance_dot(1), None);
    assert_eq!(sim.advance_dot(0), Some(Arrival::Passed));
    assert_eq!(sim.advance_dot(0), Some(Arrival::Passed));
    assert_eq!(sim.advance_dot(0), Some(Arrival::Passed));
    assert_eq!(sim.take_count, 1);
    assert_eq!(sim.advance_dot(0), Some(Arrival::Collected));
    assert_eq!(sim.dots[0].phase, DotPhase::Collected);
    assert_eq!(sim.advance_dot(0), None);
    assert_eq!(sim.result, vec![0]);
    assert_eq!((sim.filter_total, sim.filter_passed, sim.map_count), (2, 1, 1));
}
