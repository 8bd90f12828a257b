//! The type-system screen: a table of the primitive types and the byte layout of
//! `enum IpAddr { V4(u8, u8, u8, u8), V6(String) }` for the variant in view.
use vstd::prelude::*;
use vstd::string::*;
use crate::text::{decimal, push_char, push_decimal};

verus! {

/// The variant of `IpAddr` on screen.
#[derive(Clone, Copy, PartialEq, Eq, Structural, Debug)]
pub enum EnumVariant {
    V4,
    V6,
}

/// The screen state.
pub struct AppState {
    pub variant: EnumVariant,
}

/// The other variant.
pub open spec fn other(v: EnumVariant) -> EnumVariant {
    match v {
        EnumVariant::V4 => EnumVariant::V6,
        EnumVariant::V6 => EnumVariant::V4,
    }
}

impl AppState {
    /// Starts with `V4` in view.
    pub fn new() -> (s: AppState)
        ensures
            s.variant == EnumVariant::V4,
    {
        AppState { variant: EnumVariant::V4 }
    }

    /// Switches to the other variant.
    pub fn toggle(&mut self)
        ensures
            final(self).variant == other(old(self).variant),
    {
        self.variant = match self.variant {
            EnumVariant::V4 => EnumVariant::V6,
            EnumVariant::V6 => EnumVariant::V4,
        };
    }
}

/// Switching twice shows the variant that was shown before.
pub proof fn lemma_toggle_twice(v: EnumVariant)
    ensures
        other(other(v)) == v,
{
}

/// A row of the table of primitive types.
pub struct TypeRow {
    pub name: &'static str,
    pub bytes: &'static str,
    pub min: &'static str,
    pub max: &'static str,
    /// 0 unsigned, 1 signed, 2 float, 3 other.
    pub group: u8,
}

/// Row `i` of the table: name, size in bytes, minimum, maximum and group.
pub open spec fn type_row(i: int) -> (Seq<char>, Seq<char>, Seq<char>, Seq<char>, u8) {
    if i == 0 {
        ("u8"@, "1"@, "0"@, "255"@, 0)
    } else if i == 1 {
        ("u16"@, "2"@, "0"@, "65 535"@, 0)
    } else if i == 2 {
        ("u32"@, "4"@, "0"@, "4 294 967 295"@, 0)
    } else if i == 3 {
        ("u64"@, "8"@, "0"@, "1.8e19"@, 0)
    } else if i == 4 {
        ("i8"@, "1"@, "-128"@, "127"@, 1)
    } else if i == 5 {
        ("i16"@, "2"@, "-32 768"@, "32 767"@, 1)
    } else if i == 6 {
        ("i32"@, "4"@, "-2 147 483 648"@, "2 147 483 647"@, 1)
    } else if i == 7 {
        ("i64"@, "8"@, "-9.2e18"@, "9.2e18"@, 1)
    } else if i == 8 {
        ("f32"@, "4"@, "~1.4e-45"@, "~3.4e38"@, 2)
    } else if i == 9 {
        ("f64"@, "8"@, "~5e-324"@, "~1.8e308"@, 2)
    } else if i == 10 {
        ("bool"@, "1"@, "false"@, "true"@, 3)
    } else {
        ("char"@, "4"@, "U+0000"@, "U+10FFFF"@, 3)
    }
}

/// Whether `r` shows row `i` of the table.
pub open spec fn shows_row(r: TypeRow, i: int) -> bool {
    let e = type_row(i);
    r.name@ == e.0 && r.bytes@ == e.1 && r.min@ == e.2 && r.max@ == e.3 && r.group == e.4
}

/// The twelve primitive types with their sizes and ranges.
pub fn type_table() -> (t: Vec<TypeRow>)
    ensures
        t@.len() == 12,
        forall|i: int| 0 <= i < 12 ==> shows_row(#[trigger] t@[i], i),
{
    vec![
        TypeRow { name: "u8", bytes: "1", min: "0", max: "255", group: 0 },
        TypeRow { name: "u16", bytes: "2", min: "0", max: "65 535", group: 0 },
        TypeRow { name: "u32", bytes: "4", min: "0", max: "4 294 967 295", group: 0 },
        TypeRow { name: "u64", bytes: "8", min: "0", max: "1.8e19", group: 0 },
        TypeRow { name: "i8", bytes: "1", min: "-128", max: "127", group: 1 },
        TypeRow { name: "i16", bytes: "2", min: "-32 768", max: "32 767", group: 1 },
        TypeRow { name: "i32", bytes: "4", min: "-2 147 483 648", max: "2 147 483 647", group: 1 },
        TypeRow { name: "i64", bytes: "8", min: "-9.2e18", max: "9.2e18", group: 1 },
        TypeRow { name: "f32", bytes: "4", min: "~1.4e-45", max: "~3.4e38", group: 2 },
        TypeRow { name: "f64", bytes: "8", min: "~5e-324", max: "~1.8e308", group: 2 },
        TypeRow { name: "bool", bytes: "1", min: "false", max: "true", group: 3 },
        TypeRow { name: "char", bytes: "4", min: "U+0000", max: "U+10FFFF", group: 3 },
    ]
}

/// `n` spaces.
pub open spec fn spaces(n: int) -> Seq<char> {
    Seq::new(if n > 0 { n as nat } else { 0 }, |i: int| ' ')
}

/// `s` padded with spaces on the right to `w` characters (`{:<w}`).
pub open spec fn pad_right(s: Seq<char>, w: int) -> Seq<char> {
    s + spaces(w - s.len())
}

/// `s` padded with spaces on the left to `w` characters (`{:>w}`).
pub open spec fn pad_left(s: Seq<char>, w: int) -> Seq<char> {
    spaces(w - s.len()) + s
}

fn push_spaces(s: &mut String, n: usize)
    ensures
        final(s)@ == old(s)@ + spaces(n as int),
{
    let mut k: usize = 0;
    while k < n
        invariant
            k <= n,
            s@ == old(s)@ + spaces(k as int),
        decreases n - k,
    {
        push_char(s, ' ');
        k = k + 1;
        proof {
            assert(s@ =~= old(s)@ + spaces(k as int));
        }
    }
}

fn push_padded(s: &mut String, t: &str, w: usize, left: bool)
    ensures
        final(s)@ == old(s)@ + if left {
            pad_left(t@, w as int)
        } else {
            pad_right(t@, w as int)
        },
{
    let n = t.unicode_len();
    let fill = if n < w {
        w - n
    } else {
        0
    };
    assert(spaces(fill as int) =~= spaces(w - t@.len()));
    if left {
        push_spaces(s, fill);
        s.append(t);
        assert(s@ =~= old(s)@ + pad_left(t@, w as int));
    } else {
        s.append(t);
        push_spaces(s, fill);
        assert(s@ =~= old(s)@ + pad_right(t@, w as int));
    }
}

/// A line of the table: `"  {:<6} {:>5}   {:<18} {}"` of name, size, minimum and maximum.
pub open spec fn table_line(name: Seq<char>, bytes: Seq<char>, min: Seq<char>, max: Seq<char>) -> Seq<char> {
    seq![' ', ' '] + pad_right(name, 6) + seq![' '] + pad_left(bytes, 5) + seq![' ', ' ', ' ']
        + pad_right(min, 18) + seq![' '] + max
}

/// Lays out one line of the table of types (also its header).
pub fn format_table_line(name: &str, bytes: &str, min: &str, max: &str) -> (s: String)
    ensures
        s@ == table_line(name@, bytes@, min@, max@),
{
    let mut s = String::new();
    push_char(&mut s, ' ');
    push_char(&mut s, ' ');
    push_padded(&mut s, name, 6, false);
    push_char(&mut s, ' ');
    push_padded(&mut s, bytes, 5, true);
    push_char(&mut s, ' ');
    push_char(&mut s, ' ');
    push_char(&mut s, ' ');
    push_padded(&mut s, min, 18, false);
    push_char(&mut s, ' ');
    s.append(max);
    assert(s@ =~= table_line(name@, bytes@, min@, max@));
    s
}

/// What a line of the table panel is, which decides its style.
#[derive(Clone, Copy, PartialEq, Eq, Structural, Debug)]
pub enum TableLineKind {
    /// The column titles.
    Header,
    /// A rule.
    Separator,
    /// The colour legend of the groups.
    Legend,
    /// A type, with its group (0 unsigned, 1 signed, 2 float, 3 other).
    Row(u8),
    /// An empty line.
    Blank,
    /// The title of the notes.
    NotesTitle,
    /// A note comparing C++ and Rust types.
    Note,
}

/// A line of the table panel.
pub struct TableLine {
    pub kind: TableLineKind,
    pub text: String,
}

/// The rule under the header: two spaces and fifty box-drawing dashes.
pub open spec fn rule_text() -> Seq<char> {
    seq![' ', ' '] + Seq::new(50, |i: int| '─')
}

/// Number of lines of the table panel.
pub const TABLE_PANEL_LINES: usize = 23;

/// Line `i` of the table panel: header, rule, legend, rule, the twelve types, then a blank
/// line, a line `"  {sep}"` (the notes' rule as the panel prints it) and the notes.
pub open spec fn table_panel_line(i: int) -> (TableLineKind, Seq<char>) {
    if i == 0 {
        (TableLineKind::Header, table_line("Typ"@, "Bajty"@, "Min"@, "Max"@))
    } else if i == 1 || i == 3 {
        (TableLineKind::Separator, rule_text())
    } else if i == 2 {
        (TableLineKind::Legend, "  ■ unsigned  ■ signed  ■ float  ■ iné"@)
    } else if 4 <= i < 16 {
        let r = type_row(i - 4);
        (TableLineKind::Row(r.4), table_line(r.0, r.1, r.2, r.3))
    } else if i == 16 {
        (TableLineKind::Blank, Seq::empty())
    } else if i == 17 {
        (TableLineKind::Separator, "  {sep}"@)
    } else if i == 18 {
        (TableLineKind::NotesTitle, "  C++ vs Rust:"@)
    } else if i == 19 {
        (TableLineKind::Note, "  int → i32 (vždy 32b, nie \"aspoň 16b\")"@)
    } else if i == 20 {
        (TableLineKind::Note, "  unsigned int → u32"@)
    } else if i == 21 {
        (TableLineKind::Note, "  long long → i64 / u64"@)
    } else {
        (TableLineKind::Note, "  char (4B Unicode) ≠ C char (1B ASCII)"@)
    }
}

fn rule_line() -> (t: TableLine)
    ensures
        t.kind == TableLineKind::Separator,
        t.text@ == rule_text(),
{
    let mut text = String::new();
    push_char(&mut text, ' ');
    push_char(&mut text, ' ');
    let mut k: usize = 0;
    while k < 50
        invariant
            k <= 50,
            text@ == seq![' ', ' '] + Seq::new(k as nat, |i: int| '─'),
        decreases 50 - k,
    {
        push_char(&mut text, '─');
        k = k + 1;
        assert(text@ =~= seq![' ', ' '] + Seq::new(k as nat, |i: int| '─'));
    }
    TableLine { kind: TableLineKind::Separator, text }
}

fn text_line(kind: TableLineKind, t: &str) -> (l: TableLine)
    ensures
        l.kind == kind,
        l.text@ == t@,
{
    TableLine { kind, text: String::from_str(t) }
}

/// The lines of the table panel, top to bottom.
pub fn type_table_lines() -> (lines: Vec<TableLine>)
    ensures
        lines@.len() == TABLE_PANEL_LINES,
        forall|i: int|
            0 <= i < TABLE_PANEL_LINES ==> (#[trigger] lines@[i]).kind == table_panel_line(i).0
                && lines@[i].text@ == table_panel_line(i).1,
{
    let mut lines: Vec<TableLine> = Vec::new();
    lines.push(
        TableLine { kind: TableLineKind::Header, text: format_table_line("Typ", "Bajty", "Min", "Max") },
    );
    lines.push(rule_line());
    lines.push(text_line(TableLineKind::Legend, "  ■ unsigned  ■ signed  ■ float  ■ iné"));
    lines.push(rule_line());
    let table = type_table();
    let mut k: usize = 0;
    while k < table.len()
        invariant
            table@.len() == 12,
            forall|i: int| 0 <= i < 12 ==> shows_row(#[trigger] table@[i], i),
            k <= 12,
            lines@.len() == 4 + k,
            forall|i: int|
                0 <= i < lines@.len() ==> (#[trigger] lines@[i]).kind == table_panel_line(i).0
                    && lines@[i].text@ == table_panel_line(i).1,
        decreases 12 - k,
    {
        let row = &table[k];
        assert(shows_row(table@[k as int], k as int));
        lines.push(
            TableLine {
                kind: TableLineKind::Row(row.group),
                text: format_table_line(row.name, row.bytes, row.min, row.max),
            },
        );
        k = k + 1;
    }
    lines.push(text_line(TableLineKind::Blank, ""));
    lines.push(text_line(TableLineKind::Separator, "  {sep}"));
    lines.push(text_line(TableLineKind::NotesTitle, "  C++ vs Rust:"));
    lines.push(text_line(TableLineKind::Note, "  int → i32 (vždy 32b, nie \"aspoň 16b\")"));
    lines.push(text_line(TableLineKind::Note, "  unsigned int → u32"));
    lines.push(text_line(TableLineKind::Note, "  long long → i64 / u64"));
    lines.push(text_line(TableLineKind::Note, "  char (4B Unicode) ≠ C char (1B ASCII)"));
    proof {
        reveal_strlit("");
    }
    lines
}

/// What a byte of the enum holds, which decides its colour.
#[derive(Clone, Copy, PartialEq, Eq, Structural, Debug)]
pub enum CellKind {
    /// The discriminant.
    Tag,
    /// Unused padding.
    Padding,
    /// One of the four address bytes of `V4`.
    Octet,
    /// A byte of the `String` pointer of `V6`.
    Ptr,
    /// A byte of the `String` length of `V6`.
    Len,
    /// A byte of the `String` capacity of `V6`.
    Cap,
}

/// One byte of the memory diagram.
pub struct DiagramCell {
    pub label: String,
    pub kind: CellKind,
}

/// Number of bytes of the enum in the diagram.
pub const ENUM_BYTES: usize = 32;

/// The label and kind of byte `i` of the enum holding variant `v`.
pub open spec fn diagram_cell(v: EnumVariant, i: int) -> (Seq<char>, CellKind) {
    if 1 <= i <= 7 {
        ("░░"@, CellKind::Padding)
    } else {
        match v {
            EnumVariant::V4 => if i == 0 {
                ("00"@, CellKind::Tag)
            } else if i == 8 {
                ("C0"@, CellKind::Octet)
            } else if i == 9 {
                ("A8"@, CellKind::Octet)
            } else if i == 10 || i == 11 {
                ("01"@, CellKind::Octet)
            } else {
                ("░░"@, CellKind::Padding)
            },
            EnumVariant::V6 => if i == 0 {
                ("01"@, CellKind::Tag)
            } else if 8 <= i <= 15 {
                (seq!['p'] + decimal((i - 8) as nat), CellKind::Ptr)
            } else if 16 <= i <= 23 {
                (seq!['l'] + decimal((i - 16) as nat), CellKind::Len)
            } else if 24 <= i <= 31 {
                (seq!['c'] + decimal((i - 24) as nat), CellKind::Cap)
            } else {
                ("░░"@, CellKind::Padding)
            },
        }
    }
}

fn cell_for(v: EnumVariant, i: usize) -> (c: DiagramCell)
    requires
        i < ENUM_BYTES,
    ensures
        c.label@ == diagram_cell(v, i as int).0,
        c.kind == diagram_cell(v, i as int).1,
{
    if 1 <= i && i <= 7 {
        return DiagramCell { label: String::from_str("░░"), kind: CellKind::Padding };
    }
    match v {
        EnumVariant::V4 => {
            if i == 0 {
                DiagramCell { label: String::from_str("00"), kind: CellKind::Tag }
            } else if i == 8 {
                DiagramCell { label: String::from_str("C0"), kind: CellKind::Octet }
            } else if i == 9 {
                DiagramCell { label: String::from_str("A8"), kind: CellKind::Octet }
            } else if i == 10 || i == 11 {
                DiagramCell { label: String::from_str("01"), kind: CellKind::Octet }
            } else {
                DiagramCell { label: String::from_str("░░"), kind: CellKind::Padding }
            }
        },
        EnumVariant::V6 => {
            if i == 0 {
                DiagramCell { label: String::from_str("01"), kind: CellKind::Tag }
            } else {
                let (c, base, kind) = if i <= 15 {
                    ('p', 8, CellKind::Ptr)
                } else if i <= 23 {
                    ('l', 16, CellKind::Len)
                } else {
                    ('c', 24, CellKind::Cap)
                };
                let mut label = String::new();
                push_char(&mut label, c);
                push_decimal(&mut label, (i - base) as u64);
                assert(label@ =~= seq![c] + decimal((i - base) as nat));
                DiagramCell { label, kind }
            }
        },
    }
}

/// The 32 bytes of the enum for the variant in view: the tag in byte 0, padding up to byte 8,
/// then the payload (four address bytes, or pointer, length and capacity of the `String`).
pub fn diagram_cells(v: EnumVariant) -> (cells: Vec<DiagramCell>)
    ensures
        cells@.len() == ENUM_BYTES,
        forall|i: int|
            0 <= i < ENUM_BYTES ==> (#[trigger] cells@[i]).label@ == diagram_cell(v, i).0
                && cells@[i].kind == diagram_cell(v, i).1,
{
    let mut cells: Vec<DiagramCell> = Vec::new();
    let mut i: usize = 0;
    while i < ENUM_BYTES
        invariant
            i <= ENUM_BYTES,
            cells@.len() == i,
            forall|k: int|
                0 <= k < i ==> (#[trigger] cells@[k]).label@ == diagram_cell(v, k).0
                    && cells@[k].kind == diagram_cell(v, k).1,
        decreases ENUM_BYTES - i,
    {
        cells.push(cell_for(v, i));
        i = i + 1;
    }
    cells
}

/// Both variants occupy the same 32 bytes with the tag in front: the largest variant decides
/// the size of the enum, and only the payload bytes differ.
pub proof fn lemma_same_layout_frame(i: int)
    requires
        0 <= i < 8,
    ensures
        diagram_cell(EnumVariant::V4, i).1 == diagram_cell(EnumVariant::V6, i).1,
        diagram_cell(EnumVariant::V4, 0).1 == CellKind::Tag,
{
}

/// How the header names the variant in view.
pub fn variant_title(v: EnumVariant) -> (s: &'static str)
    ensures
        s@ == match v {
            EnumVariant::V4 => "IpAddr::V4(192, 168, 1, 1)"@,
            EnumVariant::V6 => "IpAddr::V6(\"2001:db8::1\")"@,
        },
{
    match v {
        EnumVariant::V4 => "IpAddr::V4(192, 168, 1, 1)",
        EnumVariant::V6 => "IpAddr::V6(\"2001:db8::1\")",
    }
}

/// The value, layout and remark that the description panel shows for the variant in view.
pub fn variant_description(v: EnumVariant) -> (d: (&'static str, &'static str, &'static str))
    ensures
        v == EnumVariant::V4 ==> d.0@ == "V4(192, 168, 1, 1)"@ && d.1@
            == "tag(8B) + 4×u8(4B) + padding(20B) = 32 B"@ && d.2@
            == "C++ union + int tag — ale Rust to robí bezpečne!"@,
        v == EnumVariant::V6 ==> d.0@ == "V6(\"2001:db8::1\")"@ && d.1@
            == "tag(8B) + String{ptr,len,cap}(24B) = 32 B"@ && d.2@
            == "Najväčší variant určuje veľkosť celého enum!"@,
{
    match v {
        EnumVariant::V4 => (
            "V4(192, 168, 1, 1)",
            "tag(8B) + 4×u8(4B) + padding(20B) = 32 B",
            "C++ union + int tag — ale Rust to robí bezpečne!",
        ),
        EnumVariant::V6 => (
            "V6(\"2001:db8::1\")",
            "tag(8B) + String{ptr,len,cap}(24B) = 32 B",
            "Najväčší variant určuje veľkosť celého enum!",
        ),
    }
}

} // verus!
