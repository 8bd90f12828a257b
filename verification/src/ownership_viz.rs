//! The ownership walkthrough: `let s1 = String::from("hello"); let s2 = s1; drop(s2);` shown
//! step by step as stack variables, heap bytes and dropped names.
use vstd::prelude::*;
use vstd::string::*;

verus! {

/// The column a variable is shown in.
#[derive(Clone, Copy, PartialEq, Eq, Structural, Debug)]
pub enum ColState {
    /// Alive on the stack, owning the heap buffer.
    Stack,
    /// Moved out of or dropped.
    Dropped,
}

/// A variable on screen.
pub struct Var {
    pub name: &'static str,
    /// The pointer, length and capacity line, or why the name is gone.
    pub details: &'static str,
    pub col: ColState,
}

/// The walkthrough position.
pub struct AppState {
    pub step: usize,
    pub max_steps: usize,
}

/// The variables shown at `step`: name, detail line and column.
pub open spec fn vars_at(step: usize) -> Seq<(Seq<char>, Seq<char>, ColState)> {
    if step == 0 {
        Seq::empty()
    } else if step == 1 {
        seq![("s1"@, "  ptr=0x7f4a  len=5  cap=8"@, ColState::Stack)]
    } else if step == 2 {
        seq![
            ("s1"@, "  [presunutá — moved]"@, ColState::Dropped),
            ("s2"@, "  ptr=0x7f4a  len=5  cap=8"@, ColState::Stack),
        ]
    } else if step == 3 {
        seq![
            ("s1"@, "  [USE AFTER MOVE!]"@, ColState::Dropped),
            ("s2"@, "  ptr=0x7f4a  len=5  cap=8"@, ColState::Stack),
        ]
    } else {
        seq![
            ("s1"@, "  [presunutá — moved]"@, ColState::Dropped),
            ("s2"@, "  [uvoľnená — dropped]"@, ColState::Dropped),
        ]
    }
}

/// The line shown for heap byte `i` of the string buffer.
pub open spec fn heap_line(i: int) -> Seq<char> {
    if i == 0 {
        "0x7f4a: 'h'"@
    } else if i == 1 {
        "0x7f4b: 'e'"@
    } else if i == 2 {
        "0x7f4c: 'l'"@
    } else if i == 3 {
        "0x7f4d: 'l'"@
    } else if i == 4 {
        "0x7f4e: 'o'"@
    } else if i == 5 {
        "0x7f4f: '\\0'"@
    } else if i == 6 {
        "0x7f50: [pad]"@
    } else {
        "0x7f51: [pad]"@
    }
}

/// The heap shown at `step`: the eight bytes of the buffer from its allocation on, marked
/// freed once it is dropped; nothing before the allocation.
pub open spec fn heap_at(step: usize) -> Seq<(Seq<char>, bool)> {
    if 1 <= step <= 3 {
        Seq::new(8, |i: int| (heap_line(i), false))
    } else if step == 4 {
        Seq::new(8, |i: int| (heap_line(i), true))
    } else {
        Seq::empty()
    }
}

/// The code line of `step`.
pub open spec fn code_at(step: usize) -> Seq<char> {
    if step == 0 {
        "// Začíname — zásobník a halda sú prázdne"@
    } else if step == 1 {
        "let s1 = String::from(\"hello\");"@
    } else if step == 2 {
        "let s2 = s1;   // s1 je MOVED do s2"@
    } else if step == 3 {
        "// s1.len()   <-- CHYBA: value used here after move"@
    } else if step == 4 {
        "drop(s2);   // explicitný drop (alebo koniec scope)"@
    } else {
        ""@
    }
}

/// The explanation of `step`.
pub open spec fn desc_at(step: usize) -> Seq<char> {
    if step == 0 {
        "Zásobník (stack) uchováva lokálne premenné s pevnou veľkosťou. \
         Halda (heap) uchováva dynamické dáta."@
    } else if step == 1 {
        "String::from() alokuje pamäť na halde. Na zásobníku vznikne \"fat pointer\": \
         ptr (adresa), len (dĺžka), cap (kapacita)."@
    } else if step == 2 {
        "Move semantics: hodnotový typ sa PRESUNIE. s1 stráca vlastníctvo. \
         V C++ by sa tu vytvorila KÓPIA — Rust to robí efektívnejšie."@
    } else if step == 3 {
        "Rust ODMIETNE skompilovať tento kód. Žiadny runtime crash — \
         chyba je odhalená počas kompilácie. V C++ by to bol undefined behaviour."@
    } else if step == 4 {
        "drop() uvoľní heap pamäť. Rust to robí deterministicky \
         (na rozdiel od GC). Žiadny double-free, pretože vlastník je jediný."@
    } else {
        ""@
    }
}

/// The title of `step`.
pub open spec fn title_at(step: usize) -> Seq<char> {
    if step == 0 {
        "Krok 0/4 — Počiatočný stav"@
    } else if step == 1 {
        "Krok 1/4 — Alokácia na halde"@
    } else if step == 2 {
        "Krok 2/4 — Move semantics"@
    } else if step == 3 {
        "Krok 3/4 — Chyba kompilácie (use after move)"@
    } else if step == 4 {
        "Krok 4/4 — Drop a uvoľnenie pamäte"@
    } else {
        ""@
    }
}

/// Whether `v` shows the entry `e`.
pub open spec fn shows(v: Var, e: (Seq<char>, Seq<char>, ColState)) -> bool {
    v.name@ == e.0 && v.details@ == e.1 && v.col == e.2
}

impl AppState {
    /// The walkthrough at its first step, with four steps after it.
    pub fn new() -> (s: AppState)
        ensures
            s.step == 0,
            s.max_steps == 4,
    {
        AppState { step: 0, max_steps: 4 }
    }

    /// Goes one step on, stopping at the last one.
    pub fn next_step(&mut self)
        ensures
            final(self).max_steps == old(self).max_steps,
            final(self).step == if old(self).step < old(self).max_steps {
                old(self).step + 1
            } else {
                old(self).step as int
            },
    {
        if self.step < self.max_steps {
            self.step = self.step + 1;
        }
    }

    /// The variables of the current step.
    pub fn vars(&self) -> (v: Vec<Var>)
        ensures
            v@.len() == vars_at(self.step).len(),
            forall|i: int| 0 <= i < v@.len() ==> shows(#[trigger] v@[i], vars_at(self.step)[i]),
    {
        match self.step {
            0 => Vec::new(),
            1 => vec![Var { name: "s1", details: "  ptr=0x7f4a  len=5  cap=8", col: ColState::Stack }],
            2 => vec![
                Var { name: "s1", details: "  [presunutá — moved]", col: ColState::Dropped },
                Var { name: "s2", details: "  ptr=0x7f4a  len=5  cap=8", col: ColState::Stack },
            ],
            3 => vec![
                Var { name: "s1", details: "  [USE AFTER MOVE!]", col: ColState::Dropped },
                Var { name: "s2", details: "  ptr=0x7f4a  len=5  cap=8", col: ColState::Stack },
            ],
            _ => vec![
                Var { name: "s1", details: "  [presunutá — moved]", col: ColState::Dropped },
                Var { name: "s2", details: "  [uvoľnená — dropped]", col: ColState::Dropped },
            ],
        }
    }

    /// The heap bytes of the current step, each with whether it has been freed.
    pub fn heap_items(&self) -> (h: Vec<(&'static str, bool)>)
        ensures
            h@.len() == heap_at(self.step).len(),
            forall|i: int|
                0 <= i < h@.len() ==> (#[trigger] h@[i]).0@ == heap_at(self.step)[i].0 && h@[i].1
                    == heap_at(self.step)[i].1,
    {
        if self.step >= 1 && self.step <= 4 {
            let dropped = self.step == 4;
            let h = vec![
                ("0x7f4a: 'h'", dropped),
                ("0x7f4b: 'e'", dropped),
                ("0x7f4c: 'l'", dropped),
                ("0x7f4d: 'l'", dropped),
                ("0x7f4e: 'o'", dropped),
                ("0x7f4f: '\\0'", dropped),
                ("0x7f50: [pad]", dropped),
                ("0x7f51: [pad]", dropped),
            ];
            h
        } else {
            Vec::new()
        }
    }

    /// The code line of the current step.
    pub fn step_code(&self) -> (s: &'static str)
        ensures
            s@ == code_at(self.step),
    {
        match self.step {
            0 => "// Začíname — zásobník a halda sú prázdne",
            1 => "let s1 = String::from(\"hello\");",
            2 => "let s2 = s1;   // s1 je MOVED do s2",
            3 => "// s1.len()   <-- CHYBA: value used here after move",
            4 => "drop(s2);   // explicitný drop (alebo koniec scope)",
            _ => "",
        }
    }

    /// The explanation of the current step.
    pub fn step_desc(&self) -> (s: &'static str)
        ensures
            s@ == desc_at(self.step),
    {
        match self.step {
            0 => "Zásobník (stack) uchováva lokálne premenné s pevnou veľkosťou. \
                  Halda (heap) uchováva dynamické dáta.",
            1 => "String::from() alokuje pamäť na halde. Na zásobníku vznikne \"fat pointer\": \
                  ptr (adresa), len (dĺžka), cap (kapacita).",
            2 => "Move semantics: hodnotový typ sa PRESUNIE. s1 stráca vlastníctvo. \
                  V C++ by sa tu vytvorila KÓPIA — Rust to robí efektívnejšie.",
            3 => "Rust ODMIETNE skompilovať tento kód. Žiadny runtime crash — \
                  chyba je odhalená počas kompilácie. V C++ by to bol undefined behaviour.",
            4 => "drop() uvoľní heap pamäť. Rust to robí deterministicky \
                  (na rozdiel od GC). Žiadny double-free, pretože vlastník je jediný.",
            _ => "",
        }
    }

    /// The title of the current step.
    pub fn step_title(&self) -> (s: &'static str)
        ensures
            s@ == title_at(self.step),
    {
        match self.step {
            0 => "Krok 0/4 — Počiatočný stav",
            1 => "Krok 1/4 — Alokácia na halde",
            2 => "Krok 2/4 — Move semantics",
            3 => "Krok 3/4 — Chyba kompilácie (use after move)",
            4 => "Krok 4/4 — Drop a uvoľnenie pamäte",
            _ => "",
        }
    }
}

/// What a line of the panel of moved and dropped names is.
#[derive(Clone, Copy, PartialEq, Eq, Structural, Debug)]
pub enum PanelLineKind {
    /// The caption under the title.
    Caption,
    /// An empty line.
    Blank,
    /// A name that is gone (drawn with a cross after it).
    Name,
    /// Why the name is gone.
    Details,
    /// The placeholder when no name is gone.
    Nothing,
}

/// A line of the panel of moved and dropped names.
pub struct PanelLine {
    pub kind: PanelLineKind,
    pub text: String,
}

/// The entries of the panel for the variables `vars[0..k]` that are gone: for each, its name
/// (indented, with a trailing space), its detail line and an empty line.
pub open spec fn dropped_entries(vars: Seq<(Seq<char>, Seq<char>, ColState)>, k: int) -> Seq<
    (PanelLineKind, Seq<char>),
>
    decreases k,
{
    if k <= 0 {
        Seq::empty()
    } else {
        let prev = dropped_entries(vars, k - 1);
        let v = vars[k - 1];
        if v.2 == ColState::Dropped {
            prev + seq![
                (PanelLineKind::Name, seq![' ', ' '] + v.0 + seq![' ']),
                (PanelLineKind::Details, v.1),
                (PanelLineKind::Blank, Seq::<char>::empty()),
            ]
        } else {
            prev
        }
    }
}

/// The panel of moved and dropped names at `step`: caption, empty line, the entries, or the
/// placeholder `"  (nič)"` when no name is gone.
pub open spec fn dropped_panel_at(step: usize) -> Seq<(PanelLineKind, Seq<char>)> {
    let body = dropped_entries(vars_at(step), vars_at(step).len() as int);
    seq![
        (PanelLineKind::Caption, "  [nedostupné / dropped]"@),
        (PanelLineKind::Blank, Seq::<char>::empty()),
    ] + body + if body.len() == 0 {
        seq![(PanelLineKind::Nothing, "  (nič)"@)]
    } else {
        Seq::empty()
    }
}

/// Whether the lines `lines` show the entries `e`.
pub open spec fn shows_lines(lines: Seq<PanelLine>, e: Seq<(PanelLineKind, Seq<char>)>) -> bool {
    &&& lines.len() == e.len()
    &&& forall|i: int|
        0 <= i < lines.len() ==> (#[trigger] lines[i]).kind == e[i].0 && lines[i].text@ == e[i].1
}

fn panel_line(kind: PanelLineKind, t: &str) -> (l: PanelLine)
    ensures
        l.kind == kind,
        l.text@ == t@,
{
    PanelLine { kind, text: String::from_str(t) }
}

impl AppState {
    /// The panel of moved and dropped names of the current step.
    pub fn dropped_panel(&self) -> (lines: Vec<PanelLine>)
        ensures
            shows_lines(lines@, dropped_panel_at(self.step)),
    {
        let vars = self.vars();
        let ghost vs = vars_at(self.step);
        let mut lines: Vec<PanelLine> = Vec::new();
        lines.push(panel_line(PanelLineKind::Caption, "  [nedostupné / dropped]"));
        lines.push(panel_line(PanelLineKind::Blank, ""));
        proof {
            reveal_strlit("");
        }
        let ghost head = seq![
            (PanelLineKind::Caption, "  [nedostupné / dropped]"@),
            (PanelLineKind::Blank, Seq::<char>::empty()),
        ];
        assert(head + dropped_entries(vs, 0) =~= head);
        assert(lines@[1].text@ =~= Seq::<char>::empty());
        let mut any = false;
        let mut k: usize = 0;
        while k < vars.len()
            invariant
                vars@.len() == vs.len(),
                forall|i: int| 0 <= i < vars@.len() ==> shows(#[trigger] vars@[i], vs[i]),
                k <= vars@.len(),
                shows_lines(lines@, head + dropped_entries(vs, k as int)),
                any == (dropped_entries(vs, k as int).len() > 0),
            decreases vars@.len() - k,
        {
            let v = &vars[k];
            assert(shows(vars@[k as int], vs[k as int]));
            let ghost old_lines = lines@;
            let ghost old_e = head + dropped_entries(vs, k as int);
            if v.col == ColState::Dropped {
                let mut name = String::from_str("  ");
                name.append(v.name);
                name.append(" ");
                proof {
                    reveal_strlit("  ");
                    reveal_strlit(" ");
                }
                lines.push(PanelLine { kind: PanelLineKind::Name, text: name });
                lines.push(PanelLine { kind: PanelLineKind::Details, text: String::from_str(v.details) });
                lines.push(panel_line(PanelLineKind::Blank, ""));
                any = true;
                proof {
                    reveal_strlit("");
                    let add = seq![
                        (PanelLineKind::Name, seq![' ', ' '] + vs[k as int].0 + seq![' ']),
                        (PanelLineKind::Details, vs[k as int].1),
                        (PanelLineKind::Blank, Seq::<char>::empty()),
                    ];
                    let e = head + dropped_entries(vs, k + 1);
                    assert(e =~= old_e + add);
                    assert(lines@[old_lines.len() as int].text@ =~= add[0].1);
                    assert(lines@[old_lines.len() as int + 2].text@ =~= add[2].1);
                    assert forall|i: int| 0 <= i < lines@.len() implies (#[trigger] lines@[i]).kind
                        == e[i].0 && lines@[i].text@ == e[i].1 by {
                        if i < old_lines.len() {
                            assert(lines@[i] == old_lines[i]);
                        }
                    }
                }
            } else {
                proof {
                    assert(head + dropped_entries(vs, k + 1) =~= old_e);
                }
            }
            k = k + 1;
        }
        if !any {
            lines.push(panel_line(PanelLineKind::Nothing, "  (nič)"));
        }
        proof {
            let body = dropped_entries(vs, vs.len() as int);
            assert(dropped_panel_at(self.step) =~= head + body + if body.len() == 0 {
                seq![(PanelLineKind::Nothing, "  (nič)"@)]
            } else {
                Seq::empty()
            });
        }
        lines
    }

    /// The step that shows the use-after-move error, when the panel blinks.
    pub fn use_after_move_shown(&self) -> (b: bool)
        ensures
            b == (self.step == 3),
    {
        self.step == 3
    }
}

/// The buffer has one owner at a time: at every step at most one variable is on the stack,
/// and the heap buffer is live exactly while some variable owns it (no leak, no use after
/// free, no double free).
pub proof fn lemma_single_owner(step: usize)
    ensures
        forall|i: int, j: int|
            0 <= i < j < vars_at(step).len() ==> !(#[trigger] vars_at(step)[i].2 == ColState::Stack
                && #[trigger] vars_at(step)[j].2 == ColState::Stack),
        (exists|i: int| 0 <= i < vars_at(step).len() && #[trigger] vars_at(step)[i].2
            == ColState::Stack) <==> (heap_at(step).len() > 0 && !heap_at(step)[0].1),
        forall|i: int|
            0 <= i < heap_at(step).len() ==> #[trigger] heap_at(step)[i].1 == heap_at(step)[0].1,
{
    if 1 <= step <= 3 {
        let i: int = if step == 1 { 0 } else { 1 };
        assert(vars_at(step)[i].2 == ColState::Stack);
    }
}

/// A name that has been moved out of or dropped never comes back, and the buffer once freed
/// stays freed, however far the walkthrough goes.
pub proof fn lemma_drops_are_final(a: usize, b: usize, i: int)
    requires
        a <= b,
        0 <= i < vars_at(a).len(),
        vars_at(a)[i].2 == ColState::Dropped,
    ensures
        i < vars_at(b).len(),
        vars_at(b)[i].0 == vars_at(a)[i].0,
        vars_at(b)[i].2 == ColState::Dropped,
{
}

/// Whether `t` occurs in `s` as a run of consecutive characters.
pub open spec fn occurs_in(t: Seq<char>, s: Seq<char>) -> bool {
    exists|k: int| 0 <= k && k + t.len() <= s.len() && #[trigger] s.subrange(k, k + t.len()) == t
}

/// The variables are named `s1` and `s2`, never the same name twice, and only the variable on
/// the stack shows the pointer to the heap buffer.
pub proof fn lemma_names_and_pointer(step: usize)
    ensures
        forall|i: int, j: int|
            0 <= i < j < vars_at(step).len() ==> #[trigger] vars_at(step)[i].0
                != #[trigger] vars_at(step)[j].0,
        forall|i: int|
            0 <= i < vars_at(step).len() ==> (#[trigger] vars_at(step)[i].0 == "s1"@
                || vars_at(step)[i].0 == "s2"@),
        forall|i: int|
            0 <= i < vars_at(step).len() && occurs_in("ptr=0x7f4a"@, #[trigger] vars_at(step)[i].1)
                ==> vars_at(step)[i].2 == ColState::Stack,
{
    reveal_strlit("s1");
    reveal_strlit("s2");
    assert("s1"@[1] != "s2"@[1]);
    reveal_strlit("ptr=0x7f4a");
    reveal_strlit("  [presunutá — moved]");
    assert forall|k: int| 0 <= k && k + 1 < "  [presunutá — moved]"@.len() implies !(#[trigger] "  [presunutá — moved]"@[k] == 'p'
        && "  [presunutá — moved]"@[k + 1] == 't') by {
        reveal_strlit("  [presunutá — moved]");
    }
    lemma_no_pointer("  [presunutá — moved]"@);
    reveal_strlit("  [USE AFTER MOVE!]");
    assert forall|k: int| 0 <= k && k + 1 < "  [USE AFTER MOVE!]"@.len() implies !(#[trigger] "  [USE AFTER MOVE!]"@[k] == 'p'
        && "  [USE AFTER MOVE!]"@[k + 1] == 't') by {
        reveal_strlit("  [USE AFTER MOVE!]");
    }
    lemma_no_pointer("  [USE AFTER MOVE!]"@);
    reveal_strlit("  [uvoľnená — dropped]");
    assert forall|k: int| 0 <= k && k + 1 < "  [uvoľnená — dropped]"@.len() implies !(#[trigger] "  [uvoľnená — dropped]"@[k] == 'p'
        && "  [uvoľnená — dropped]"@[k + 1] == 't') by {
        reveal_strlit("  [uvoľnená — dropped]");
    }
    lemma_no_pointer("  [uvoľnená — dropped]"@);
}

/// A detail line without the characters `pt` next to each other does not show the pointer.
proof fn lemma_no_pointer(s: Seq<char>)
    requires
        forall|k: int| 0 <= k && k + 1 < s.len() ==> !(#[trigger] s[k] == 'p' && s[k + 1] == 't'),
    ensures
        !occurs_in("ptr=0x7f4a"@, s),
{
    reveal_strlit("ptr=0x7f4a");
    if occurs_in("ptr=0x7f4a"@, s) {
        let k = choose|k: int|
            0 <= k && k + 10 <= s.len() && #[trigger] s.subrange(k, k + 10) == "ptr=0x7f4a"@;
        assert(s.subrange(k, k + 10)[0] == 'p');
        assert(s.subrange(k, k + 10)[1] == 't');
        assert(s[k] == 'p' && s[k + 1] == 't');
    }
}

/// The hexadecimal digit of `d`, in lower case.
pub open spec fn hex_digit(d: int) -> char {
    if d < 10 {
        ((d + 48) as u8) as char
    } else {
        ((d + 87) as u8) as char
    }
}

/// `0x`, the four lower-case hexadecimal digits of `a` and a colon.
pub open spec fn address_label(a: int) -> Seq<char> {
    seq![
        '0',
        'x',
        hex_digit(a / 0x1000 % 16),
        hex_digit(a / 0x100 % 16),
        hex_digit(a / 0x10 % 16),
        hex_digit(a % 16),
        ':',
    ]
}

/// The heap is shown either not at all or as the eight bytes of the buffer, the line of byte
/// `i` starting with its address `0x7f4a + i`.
pub proof fn lemma_heap_addresses(step: usize)
    ensures
        heap_at(step).len() == 0 || heap_at(step).len() == 8,
        forall|i: int|
            0 <= i < heap_at(step).len() ==> (#[trigger] heap_at(step)[i]).0.take(7)
                == address_label(0x7f4a + i),
{
    assert forall|i: int| 0 <= i < 8 implies #[trigger] heap_line(i).take(7) == address_label(
        0x7f4a + i,
    ) by {
        reveal_strlit("0x7f4a: 'h'");
        reveal_strlit("0x7f4b: 'e'");
        reveal_strlit("0x7f4c: 'l'");
        reveal_strlit("0x7f4d: 'l'");
        reveal_strlit("0x7f4e: 'o'");
        reveal_strlit("0x7f4f: '\\0'");
        reveal_strlit("0x7f50: [pad]");
        reveal_strlit("0x7f51: [pad]");
        assert(heap_line(i).take(7) =~= address_label(0x7f4a + i));
    }
}

} // verus!
