use priklady::basics::{calculate_len, gpio_write};
use priklady::lifetimes_viz::select_scene;
use priklady::memory_map::{build_memory_map, cell_addr, move_cursor, Region, Scene};
use priklady::ownership_viz::{AppState as OwnershipState, ColState};
use priklady::traits_viz::{focus_label, mono_line_role, mono_status, vtable_status, LineRole, App as TraitsApp, Focus, MonoStep, VtableStep};
use priklady::match_viz::{arm_role, App as MatchApp, ArmRole};
use priklady::types_viz::{format_table_line, diagram_cells, type_table, variant_description, variant_title, AppState as TypesState, CellKind, EnumVariant};

#[test]
fn len_of_borrowed_vec() {
    let data = vec![1u32, 2, 3];
    assert_eq!(calculate_len(&data), 3);
    assert_eq!(calculate_len(&Vec::new()), 0);
    gpio_write(17, true);
    gpio_write(17, false);
}

#[test]
fn ownership_walkthrough() {
    let mut s = OwnershipState::new();
    assert_eq!(s.step, 0);
    assert!(s.vars().is_empty());
    assert!(s.heap_items().is_empty());
    assert_eq!(s.step_title(), "Krok 0/4 — Počiatočný stav");
    s.next_step();
    let v = s.vars();
    assert_eq!(v.len(), 1);
    assert_eq!(v[0].name, "s1");
    assert!(v[0].col == ColState::Stack);
    assert_eq!(s.step_code(), "let s1 = String::from(\"hello\");");
    s.next_step();
    let v = s.vars();
    assert!(v[0].col == ColState::Dropped && v[1].col == ColState::Stack);
    assert_eq!(v[0].details, "  [presunutá — moved]");
    s.next_step();
    assert_eq!(s.vars()[0].details, "  [USE AFTER MOVE!]");
    assert!(s.heap_items().iter().all(|(_, d)| !d));
    s.next_step();
    assert_eq!(s.step, 4);
    let h = s.heap_items();
    assert_eq!(h.len(), 8);
    assert_eq!(h[5].0, "0x7f4f: '\\0'");
    assert!(h.iter().all(|(_, d)| *d));
    assert!(s.vars().iter().all(|v| v.col == ColState::Dropped));
    assert_eq!(
        s.step_desc(),
        "drop() uvoľní heap pamäť. Rust to robí deterministicky (na rozdiel od GC). Žiadny double-free, pretože vlastník je jediný."
    );
    s.next_step();
    assert_eq!(s.step, 4);
}

#[test]
fn ownership_single_owner_every_step() {
    let mut s = OwnershipState::new();
    for _ in 0..6 {
        let owners = s.vars().iter().filter(|v| v.col == ColState::Stack).count();
        assert!(owners <= 1);
        let heap = s.heap_items();
        let live = !heap.is_empty() && !heap[0].1;
        assert_eq!(owners == 1, live);
        s.next_step();
    }
}

#[test]
fn types_table_and_toggle() {
    let t = type_table();
    assert_eq!(t.len(), 12);
    assert_eq!(t[2].name, "u32");
    assert_eq!(t[2].max, "4 294 967 295");
    assert_eq!(t[6].min, "-2 147 483 648");
    assert_eq!(t[11].max, "U+10FFFF");
    assert_eq!(t[9].group, 2);
    let mut s = TypesState::new();
    assert!(s.variant == EnumVariant::V4);
    s.toggle();
    assert!(s.variant == EnumVariant::V6);
    s.toggle();
    assert!(s.variant == EnumVariant::V4);
    assert_eq!(variant_title(EnumVariant::V6), "IpAddr::V6(\"2001:db8::1\")");
    assert_eq!(variant_description(EnumVariant::V4).1, "tag(8B) + 4×u8(4B) + padding(20B) = 32 B");
}

#[test]
fn enum_diagram_cells() {
    let v4 = diagram_cells(EnumVariant::V4);
    let labels: Vec<&str> = v4.iter().map(|c| c.label.as_str()).collect();
    assert_eq!(labels[0], "00");
    assert_eq!(&labels[8..12], &["C0", "A8", "01", "01"]);
    assert_eq!(labels[31], "░░");
    assert!(v4[0].kind == CellKind::Tag && v4[3].kind == CellKind::Padding && v4[9].kind == CellKind::Octet);
    let v6 = diagram_cells(EnumVariant::V6);
    assert_eq!(v6.len(), 32);
    assert_eq!(v6[0].label, "01");
    assert_eq!(v6[8].label, "p0");
    assert_eq!(v6[15].label, "p7");
    assert_eq!(v6[20].label, "l4");
    assert_eq!(v6[31].label, "c7");
    assert!(v6[16].kind == CellKind::Len && v6[24].kind == CellKind::Cap && v6[8].kind == CellKind::Ptr);
}

#[test]
fn traits_animation_cycles() {
    let mut a = TraitsApp::new();
    assert!(a.focus == Focus::Left && a.blink);
    for _ in 0..5 {
        a.advance_animation();
    }
    assert!(a.mono_step == MonoStep::Idle);
    a.advance_animation();
    assert!(a.mono_step == MonoStep::Circle);
    assert!(a.vtable_step == VtableStep::Idle);
    a.switch_focus();
    assert!(a.focus == Focus::Right && a.mono_step == MonoStep::Idle);
    for _ in 0..4 {
        a.advance_animation();
    }
    assert!(a.vtable_step == VtableStep::PerimeterLookup);
    a.advance_animation();
    assert!(a.vtable_step == VtableStep::Done);
    a.advance_animation();
    assert!(a.vtable_step == VtableStep::Idle);
}

#[test]
fn memory_map_layout() {
    let cells = build_memory_map();
    assert_eq!(cells.len(), 192);
    let x: Vec<u8> = cells[0..4].iter().map(|c| c.value).collect();
    assert_eq!(x, 42i32.to_le_bytes().to_vec());
    let y: Vec<u8> = cells[4..12].iter().map(|c| c.value).collect();
    assert_eq!(y, 3.14f64.to_le_bytes().to_vec());
    let p: Vec<u8> = cells[12..20].iter().map(|c| c.value).collect();
    assert_eq!(p, 0x40u64.to_le_bytes().to_vec());
    let hello: Vec<u8> = cells[64..80].iter().map(|c| c.value).collect();
    assert_eq!(&hello, b"Hello, Rust!    ");
    let len: Vec<u8> = cells[80..88].iter().map(|c| c.value).collect();
    assert_eq!(len, 12u64.to_le_bytes().to_vec());
    let cap: Vec<u8> = cells[88..96].iter().map(|c| c.value).collect();
    assert_eq!(cap, 16u64.to_le_bytes().to_vec());
    for i in 0..32usize {
        assert_eq!(cells[96 + i].value, ((i * 17 + 0xAB) & 0xFF) as u8);
    }
    assert!(cells[63].region == Region::Stack && cells[64].region == Region::Heap);
    assert!(cells[127].region == Region::Heap && cells[128].region == Region::Unmapped);
    assert!(!cells[191].region.is_safe() && cells[0].region.is_safe());
    assert_eq!(cells[70].description, "Vec<u8>: \", Rust!\"");
    assert_eq!(cells[150].description, "nemapovaná pamäť — prístup = crash");
    assert_eq!(Region::Unmapped.label(), "UNMAPPED");
    assert_eq!(cell_addr(0x1F), 0x1F);
}

#[test]
fn scenes_and_cursor() {
    assert!(Scene::Normal.next() == Scene::RawPointer);
    assert!(Scene::Normal.next().next().next() == Scene::Normal);
    assert_eq!(Scene::UseAfterFree.label(), "3. Use-after-free!");
    assert_eq!(move_cursor(0, 0, true, false, true, false), (1, 1));
    assert_eq!(move_cursor(0, 0, false, true, false, true), (0, 0));
    assert_eq!(move_cursor(11, 15, true, false, true, false), (11, 15));
    assert_eq!(move_cursor(5, 5, true, true, false, false), (5, 5));
    assert_eq!(select_scene(3, true, None), 0);
    assert_eq!(select_scene(1, false, None), 1);
    assert_eq!(select_scene(1, true, Some(3)), 3);
}

#[test]
fn table_lines_like_format() {
    for row in type_table() {
        assert_eq!(
            format_table_line(row.name, row.bytes, row.min, row.max),
            format!("  {:<6} {:>5}   {:<18} {}", row.name, row.bytes, row.min, row.max)
        );
    }
    assert_eq!(
        format_table_line("Typ", "Bajty", "Min", "Max"),
        format!("  {:<6} {:>5}   {:<18} {}", "Typ", "Bajty", "Min", "Max")
    );
    assert_eq!(format_table_line("dlhé_meno", "123456", "ž", ""), "  dlhé_meno 123456   ž                  ");
}

#[test]
fn column_roles_and_status_texts() {
    assert!(mono_line_role(MonoStep::Square, MonoStep::Square) == LineRole::Active);
    assert!(mono_line_role(MonoStep::Done, MonoStep::Square) == LineRole::Finished);
    assert!(mono_line_role(MonoStep::Circle, MonoStep::Square) == LineRole::Plain);
    assert_eq!(mono_status(MonoStep::Triangle), "Kompilujem pre Triangle...");
    assert_eq!(vtable_status(VtableStep::Done), "  Lookup hotový — 2 indirect cally vykonané");
    assert_eq!(focus_label(Focus::Right), "pravá (vtable)");
}

#[test]
fn arm_roles_and_invalid_input() {
    assert!(arm_role(Some(2), 0) == ArmRole::Skipped);
    assert!(arm_role(Some(2), 2) == ArmRole::Matched);
    assert!(arm_role(Some(2), 4) == ArmRole::Pending);
    assert!(arm_role(None, 0) == ArmRole::Pending);
    let mut app = MatchApp::new();
    assert!(!app.input_invalid());
    app.type_char('x');
    app.submit();
    assert!(app.input_invalid());
}
