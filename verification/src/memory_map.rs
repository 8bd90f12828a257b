//! The hex-dump screen: 192 bytes in 12 rows of 16, split into a stack region, a heap region
//! and unmapped memory, with a cursor that walks over the cells.
use vstd::prelude::*;
use vstd::string::*;
use crate::text::{is_white_space, push_char, white_space};

verus! {

/// Bytes per row.
pub const COLS: usize = 16;

/// Rows of the dump.
pub const ROWS: usize = 12;

/// First address of the heap region (rows 4 to 7).
pub const HEAP_START: usize = 0x40;

/// First address of the unmapped region (rows 8 to 11).
pub const UNMAPPED_START: usize = 0x80;

/// The region a byte belongs to.
#[derive(Clone, Copy, PartialEq, Eq, Structural, Debug)]
pub enum Region {
    Stack,
    Heap,
    Unmapped,
}

impl Region {
    /// The name shown in the legend and status bar.
    pub fn label(self) -> (s: &'static str)
        ensures
            s@ == match self {
                Region::Stack => "STACK"@,
                Region::Heap => "HEAP"@,
                Region::Unmapped => "UNMAPPED"@,
            },
    {
        match self {
            Region::Stack => "STACK",
            Region::Heap => "HEAP",
            Region::Unmapped => "UNMAPPED",
        }
    }

    /// Whether reading the region is allowed: everything but unmapped memory.
    pub fn is_safe(self) -> (b: bool)
        ensures
            b == (self != Region::Unmapped),
    {
        !matches!(self, Region::Unmapped)
    }
}

/// The three scenarios of the screen.
#[derive(Clone, Copy, PartialEq, Eq, Structural, Debug)]
pub enum Scene {
    Normal,
    RawPointer,
    UseAfterFree,
}

/// The scenario after `s`, wrapping around.
pub open spec fn next_scene(s: Scene) -> Scene {
    match s {
        Scene::Normal => Scene::RawPointer,
        Scene::RawPointer => Scene::UseAfterFree,
        Scene::UseAfterFree => Scene::Normal,
    }
}

impl Scene {
    /// The next scenario.
    pub fn next(self) -> (s: Scene)
        ensures
            s == next_scene(self),
    {
        match self {
            Scene::Normal => Scene::RawPointer,
            Scene::RawPointer => Scene::UseAfterFree,
            Scene::UseAfterFree => Scene::Normal,
        }
    }

    /// The title of the scenario.
    pub fn label(self) -> (s: &'static str)
        ensures
            s@ == match self {
                Scene::Normal => "1. Normálny prístup"@,
                Scene::RawPointer => "2. Raw pointer (*mut i32)"@,
                Scene::UseAfterFree => "3. Use-after-free!"@,
            },
    {
        match self {
            Scene::Normal => "1. Normálny prístup",
            Scene::RawPointer => "2. Raw pointer (*mut i32)",
            Scene::UseAfterFree => "3. Use-after-free!",
        }
    }
}

/// Three presses of TAB come back to the scenario they started from.
pub proof fn lemma_scenes_cycle(s: Scene)
    ensures
        next_scene(next_scene(next_scene(s))) == s,
{
}

/// One byte of the dump.
pub struct Cell {
    pub region: Region,
    pub value: u8,
    /// What lives at this address.
    pub description: &'static str,
}

/// The little-endian bytes of the `f64` value 3.14.
pub open spec fn pi_bytes(i: int) -> u8 {
    if i == 0 {
        0x1F
    } else if i == 1 {
        0x85
    } else if i == 2 {
        0xEB
    } else if i == 3 {
        0x51
    } else if i == 4 {
        0xB8
    } else if i == 5 {
        0x1E
    } else if i == 6 {
        0x09
    } else {
        0x40
    }
}

/// The text `"Hello, Rust!"` followed by four spaces, as bytes.
pub open spec fn hello_bytes(i: int) -> u8 {
    if i == 0 {
        0x48
    } else if i == 1 {
        0x65
    } else if i == 2 || i == 3 {
        0x6C
    } else if i == 4 {
        0x6F
    } else if i == 5 {
        0x2C
    } else if i == 7 {
        0x52
    } else if i == 8 {
        0x75
    } else if i == 9 {
        0x73
    } else if i == 10 {
        0x74
    } else if i == 11 {
        0x21
    } else {
        0x20
    }
}

/// Region, value and description of the byte at address `i`.
///
/// Stack: `let x: i32 = 42` little-endian at 0..4, `let y: f64 = 3.14` at 4..12, the raw
/// pointer with value 0x40 at 12..20, then padding, the saved frame and the guard bytes up
/// to the heap. Heap: the bytes of a `Vec<u8>` holding "Hello, Rust!", its length 12 and
/// capacity 16 as little-endian `u64`, then other allocations. Unmapped after 0x80.
pub open spec fn memory_cell(i: int) -> (Region, u8, Seq<char>) {
    if i < 4 {
        (Region::Stack, if i == 0 { 0x2Au8 } else { 0u8 }, "let x: i32 = 42 (little-endian)"@)
    } else if i < 8 {
        (Region::Stack, pi_bytes(i - 4), "let y: f64 = 3.14 (IEEE 754, byte 0-3)"@)
    } else if i < 12 {
        (Region::Stack, pi_bytes(i - 4), "let y: f64 = 3.14 (IEEE 754, byte 4-7)"@)
    } else if i < 16 {
        (
            Region::Stack,
            if i == 12 { 0x40u8 } else { 0u8 },
            "let ptr: *mut u8 → ukazuje na HEAP 0x0040"@,
        )
    } else if i < 20 {
        (Region::Stack, 0u8, "let ptr: *mut u8 → (horné bajty adresy)"@)
    } else if i < 28 {
        (Region::Stack, 0u8, "stack padding / alignment"@)
    } else if i < 36 {
        (Region::Stack, 0u8, "return address / saved regs"@)
    } else if i < 0x40 {
        (Region::Stack, 0u8, "stack guard"@)
    } else if i < 0x45 {
        (Region::Heap, hello_bytes(i - 0x40), "Vec<u8> data: \"Hello\""@)
    } else if i < 0x4C {
        (Region::Heap, hello_bytes(i - 0x40), "Vec<u8>: \", Rust!\""@)
    } else if i < 0x50 {
        (Region::Heap, hello_bytes(i - 0x40), "Vec<u8> capacity padding"@)
    } else if i < 0x58 {
        (Region::Heap, if i == 0x50 { 12u8 } else { 0u8 }, "Vec.len = 12 (little-endian u64)"@)
    } else if i < 0x60 {
        (Region::Heap, if i == 0x58 { 16u8 } else { 0u8 }, "Vec.capacity = 16 (little-endian u64)"@)
    } else if i < 0x80 {
        (Region::Heap, (((i - 0x60) * 17 + 0xAB) % 256) as u8, "heap dáta (iné alokácie)"@)
    } else {
        (Region::Unmapped, 0u8, "nemapovaná pamäť — prístup = crash"@)
    }
}

fn pi_byte(i: usize) -> (b: u8)
    requires
        i < 8,
    ensures
        b == pi_bytes(i as int),
{
    let bytes: [u8; 8] = [0x1F, 0x85, 0xEB, 0x51, 0xB8, 0x1E, 0x09, 0x40];
    bytes[i]
}

fn hello_byte(i: usize) -> (b: u8)
    requires
        i < 16,
    ensures
        b == hello_bytes(i as int),
{
    let bytes: [u8; 16] = [
        0x48, 0x65, 0x6C, 0x6C, 0x6F, 0x2C, 0x20, 0x52, 0x75, 0x73, 0x74, 0x21, 0x20, 0x20, 0x20, 0x20,
    ];
    bytes[i]
}

fn cell_at(i: usize) -> (c: Cell)
    ensures
        c.region == memory_cell(i as int).0,
        c.value == memory_cell(i as int).1,
        c.description@ == memory_cell(i as int).2,
{
    if i < 4 {
        Cell {
            region: Region::Stack,
            value: if i == 0 { 0x2A } else { 0 },
            description: "let x: i32 = 42 (little-endian)",
        }
    } else if i < 8 {
        Cell {
            region: Region::Stack,
            value: pi_byte(i - 4),
            description: "let y: f64 = 3.14 (IEEE 754, byte 0-3)",
        }
    } else if i < 12 {
        Cell {
            region: Region::Stack,
            value: pi_byte(i - 4),
            description: "let y: f64 = 3.14 (IEEE 754, byte 4-7)",
        }
    } else if i < 16 {
        Cell {
            region: Region::Stack,
            value: if i == 12 { 0x40 } else { 0 },
            description: "let ptr: *mut u8 → ukazuje na HEAP 0x0040",
        }
    } else if i < 20 {
        Cell { region: Region::Stack, value: 0, description: "let ptr: *mut u8 → (horné bajty adresy)" }
    } else if i < 28 {
        Cell { region: Region::Stack, value: 0, description: "stack padding / alignment" }
    } else if i < 36 {
        Cell { region: Region::Stack, value: 0, description: "return address / saved regs" }
    } else if i < HEAP_START {
        Cell { region: Region::Stack, value: 0, description: "stack guard" }
    } else if i < 0x45 {
        Cell {
            region: Region::Heap,
            value: hello_byte(i - HEAP_START),
            description: "Vec<u8> data: \"Hello\"",
        }
    } else if i < 0x4C {
        Cell {
            region: Region::Heap,
            value: hello_byte(i - HEAP_START),
            description: "Vec<u8>: \", Rust!\"",
        }
    } else if i < 0x50 {
        Cell {
            region: Region::Heap,
            value: hello_byte(i - HEAP_START),
            description: "Vec<u8> capacity padding",
        }
    } else if i < 0x58 {
        Cell {
            region: Region::Heap,
            value: if i == 0x50 { 12 } else { 0 },
            description: "Vec.len = 12 (little-endian u64)",
        }
    } else if i < 0x60 {
        Cell {
            region: Region::Heap,
            value: if i == 0x58 { 16 } else { 0 },
            description: "Vec.capacity = 16 (little-endian u64)",
        }
    } else if i < UNMAPPED_START {
        Cell {
            region: Region::Heap,
            value: (((i - 0x60) * 17 + 0xAB) % 256) as u8,
            description: "heap dáta (iné alokácie)",
        }
    } else {
        Cell {
            region: Region::Unmapped,
            value: 0,
            description: "nemapovaná pamäť — prístup = crash",
        }
    }
}

/// The 192 bytes of the dump, address by address.
pub fn build_memory_map() -> (cells: Vec<Cell>)
    ensures
        cells@.len() == COLS * ROWS,
        forall|i: int|
            0 <= i < COLS * ROWS ==> (#[trigger] cells@[i]).region == memory_cell(i).0
                && cells@[i].value == memory_cell(i).1 && cells@[i].description@ == memory_cell(
                i,
            ).2,
{
    let mut cells: Vec<Cell> = Vec::with_capacity(ROWS * COLS);
    let mut i: usize = 0;
    while i < ROWS * COLS
        invariant
            i <= ROWS * COLS,
            cells@.len() == i,
            forall|k: int|
                0 <= k < i ==> (#[trigger] cells@[k]).region == memory_cell(k).0
                    && cells@[k].value == memory_cell(k).1 && cells@[k].description@
                    == memory_cell(k).2,
        decreases ROWS * COLS - i,
    {
        cells.push(cell_at(i));
        i = i + 1;
    }
    cells
}

/// The raw pointer stored on the stack points at the first heap byte.
pub proof fn lemma_pointer_targets_heap()
    ensures
        memory_cell(12).1 as int + memory_cell(13).1 as int * 256 == HEAP_START,
        memory_cell(HEAP_START as int).0 == Region::Heap,
        memory_cell(HEAP_START as int - 1).0 == Region::Stack,
{
}

/// The address shown for cell `idx`: every cell is one byte, so the address is the index
/// (as a 16-bit number).
pub fn cell_addr(idx: usize) -> (a: u16)
    ensures
        a == idx % 0x1_0000,
{
    (idx % 0x1_0000) as u16
}

/// Where the cursor goes when the arrow keys of one frame are applied in the order right,
/// left, down, up; each moves it one cell unless that would leave the dump.
pub open spec fn moved_cursor(
    row: int,
    col: int,
    right: bool,
    left: bool,
    down: bool,
    up: bool,
) -> (int, int) {
    let c1 = if right && col + 1 < COLS { col + 1 } else { col };
    let c2 = if left && c1 > 0 { c1 - 1 } else { c1 };
    let r1 = if down && row + 1 < ROWS { row + 1 } else { row };
    let r2 = if up && r1 > 0 { r1 - 1 } else { r1 };
    (r2, c2)
}

/// Applies the arrow keys pressed in one frame to the cursor.
pub fn move_cursor(
    row: usize,
    col: usize,
    right: bool,
    left: bool,
    down: bool,
    up: bool,
) -> (rc: (usize, usize))
    requires
        row < ROWS,
        col < COLS,
    ensures
        (rc.0 as int, rc.1 as int) == moved_cursor(row as int, col as int, right, left, down, up),
        rc.0 < ROWS,
        rc.1 < COLS,
        !right && !left ==> rc.1 == col,
        !up && !down ==> rc.0 == row,
        up && !down && row > 0 ==> rc.0 == row - 1,
        down && !up && row + 1 < ROWS ==> rc.0 == row + 1,
        left && !right && col > 0 ==> rc.1 == col - 1,
        right && !left && col + 1 < COLS ==> rc.1 == col + 1,
{
    let mut r = row;
    let mut c = col;
    if right && c + 1 < COLS {
        c = c + 1;
    }
    if left && c > 0 {
        c = c - 1;
    }
    if down && r + 1 < ROWS {
        r = r + 1;
    }
    if up && r > 0 {
        r = r - 1;
    }
    (r, c)
}

/// The arrow keys move the cursor along their own axis only: Up and Down change the row by one
/// and never the column, Left and Right change the column by one and never the row, and a key
/// that would take the cursor off the dump leaves it where it is. Right is applied before
/// Left and Down before Up, so pressing both keys of an axis moves the cursor back one cell
/// from the last row or column and leaves it in place elsewhere.
pub proof fn lemma_arrow_keys(row: int, col: int, right: bool, left: bool, down: bool, up: bool)
    requires
        0 <= row < ROWS,
        0 <= col < COLS,
    ensures
        moved_cursor(row, col, right, left, down, up).1 == moved_cursor(
            row,
            col,
            right,
            left,
            false,
            false,
        ).1,
        moved_cursor(row, col, right, left, down, up).0 == moved_cursor(
            row,
            col,
            false,
            false,
            down,
            up,
        ).0,
        moved_cursor(row, col, false, false, false, true) == (if row > 0 {
            row - 1
        } else {
            row
        }, col),
        moved_cursor(row, col, false, false, true, false) == (if row + 1 < ROWS {
            row + 1
        } else {
            row
        }, col),
        moved_cursor(row, col, false, true, false, false) == (row, if col > 0 {
            col - 1
        } else {
            col
        }),
        moved_cursor(row, col, true, false, false, false) == (row, if col + 1 < COLS {
            col + 1
        } else {
            col
        }),
        moved_cursor(row, col, false, false, false, false) == (row, col),
        moved_cursor(row, col, true, true, false, false) == (row, if col + 1 < COLS {
            col
        } else {
            col - 1
        }),
        moved_cursor(row, col, false, false, true, true) == (if row + 1 < ROWS {
            row
        } else {
            row - 1
        }, col),
        0 <= moved_cursor(row, col, right, left, down, up).0 < ROWS,
        0 <= moved_cursor(row, col, right, left, down, up).1 < COLS,
{
}

/// The words of `s[0..k]` that are complete, and the word still being read, as
/// `split_whitespace` splits them: maximal runs of characters that are not white space.
pub open spec fn split_upto(s: Seq<char>, k: int) -> (Seq<Seq<char>>, Seq<char>)
    decreases k,
{
    if k <= 0 {
        (Seq::empty(), Seq::empty())
    } else {
        let prev = split_upto(s, k - 1);
        if is_white_space(s[k - 1]) {
            if prev.1.len() > 0 {
                (prev.0.push(prev.1), Seq::empty())
            } else {
                prev
            }
        } else {
            (prev.0, prev.1.push(s[k - 1]))
        }
    }
}

/// The words of `s`, in order.
pub open spec fn words(s: Seq<char>) -> Seq<Seq<char>> {
    let r = split_upto(s, s.len() as int);
    if r.1.len() > 0 {
        r.0.push(r.1)
    } else {
        r.0
    }
}

/// The lines finished and the line being filled after the first `k` words were laid out:
/// a word goes on the current line, after a space, unless the line's characters plus the
/// word's characters plus one would pass `max_w`; then the current line is finished (even
/// when empty) and the word starts the next one.
pub open spec fn wrap_upto(ws: Seq<Seq<char>>, max_w: int, k: int) -> (Seq<Seq<char>>, Seq<char>)
    decreases k,
{
    if k <= 0 {
        (Seq::empty(), Seq::empty())
    } else {
        let prev = wrap_upto(ws, max_w, k - 1);
        let w = ws[k - 1];
        if prev.1.len() + w.len() + 1 > max_w {
            (prev.0.push(prev.1), w)
        } else if prev.1.len() > 0 {
            (prev.0, prev.1.push(' ') + w)
        } else {
            (prev.0, w)
        }
    }
}

/// The lines that a description is broken into for the side panel.
pub open spec fn wrapped(s: Seq<char>, max_w: int) -> Seq<Seq<char>> {
    let ws = words(s);
    let r = wrap_upto(ws, max_w, ws.len() as int);
    if r.1.len() > 0 {
        r.0.push(r.1)
    } else {
        r.0
    }
}

/// Splits `text` into its words (runs of characters that are not white space).
fn split_words(text: &Vec<char>) -> (ws: Vec<Vec<char>>)
    ensures
        ws@.len() == words(text@).len(),
        forall|i: int| 0 <= i < ws@.len() ==> (#[trigger] ws@[i])@ == words(text@)[i],
{
    let mut ws: Vec<Vec<char>> = Vec::new();
    let mut cur: Vec<char> = Vec::new();
    let mut i: usize = 0;
    while i < text.len()
        invariant
            i <= text@.len(),
            ws@.len() == split_upto(text@, i as int).0.len(),
            forall|j: int|
                0 <= j < ws@.len() ==> (#[trigger] ws@[j])@ == split_upto(text@, i as int).0[j],
            cur@ == split_upto(text@, i as int).1,
        decreases text@.len() - i,
    {
        let c = text[i];
        if white_space(c) {
            if cur.len() > 0 {
                ws.push(cur);
                cur = Vec::new();
            }
        } else {
            cur.push(c);
        }
        i = i + 1;
    }
    if cur.len() > 0 {
        ws.push(cur);
    }
    ws
}

/// Appends the characters of `w` to `s`.
fn append_chars(s: &mut String, w: &Vec<char>)
    ensures
        final(s)@ == old(s)@ + w@,
{
    let mut j: usize = 0;
    while j < w.len()
        invariant
            j <= w@.len(),
            s@ == old(s)@ + w@.take(j as int),
        decreases w@.len() - j,
    {
        push_char(s, w[j]);
        j = j + 1;
        proof {
            assert(s@ =~= old(s)@ + w@.take(j as int));
        }
    }
    proof {
        assert(w@.take(w@.len() as int) =~= w@);
    }
}

/// Breaks a cell description into lines for the side panel: words are laid out in order,
/// and a line is finished when the next word, after a space, would take it past `max_w`
/// characters.
pub fn wrap_description(text: &str, max_w: usize) -> (lines: Vec<String>)
    ensures
        lines@.len() == wrapped(text@, max_w as int).len(),
        forall|i: int|
            0 <= i < lines@.len() ==> (#[trigger] lines@[i])@ == wrapped(text@, max_w as int)[i],
{
    let n = text.unicode_len();
    let mut chars: Vec<char> = Vec::new();
    let mut k: usize = 0;
    while k < n
        invariant
            n == text@.len(),
            k <= n,
            chars@ == text@.take(k as int),
        decreases n - k,
    {
        chars.push(text.get_char(k));
        k = k + 1;
        proof {
            assert(chars@ =~= text@.take(k as int));
        }
    }
    assert(chars@ =~= text@);
    let ws = split_words(&chars);
    let ghost wsv = words(text@);
    let mut lines: Vec<String> = Vec::new();
    let mut current = String::new();
    let mut current_len: usize = 0;
    let mut i: usize = 0;
    while i < ws.len()
        invariant
            ws@.len() == wsv.len(),
            forall|j: int| 0 <= j < ws@.len() ==> (#[trigger] ws@[j])@ == wsv[j],
            i <= ws@.len(),
            lines@.len() == wrap_upto(wsv, max_w as int, i as int).0.len(),
            forall|j: int|
                0 <= j < lines@.len() ==> (#[trigger] lines@[j])@ == wrap_upto(
                    wsv,
                    max_w as int,
                    i as int,
                ).0[j],
            current@ == wrap_upto(wsv, max_w as int, i as int).1,
            current_len == current@.len(),
        decreases ws@.len() - i,
    {
        let w = &ws[i];
        let wl = w.len();
        let ghost prev = wrap_upto(wsv, max_w as int, i as int);
        assert(w@ == wsv[i as int]);
        let too_long = if current_len >= max_w {
            true
        } else {
            wl >= max_w - current_len
        };
        assert(too_long == (prev.1.len() + w@.len() + 1 > max_w));
        if too_long {
            let mut next = String::new();
            append_chars(&mut next, w);
            lines.push(current);
            current = next;
            current_len = wl;
            proof {
                assert(Seq::<char>::empty() + w@ =~= w@);
            }
        } else if !current.as_str().is_empty() {
            push_char(&mut current, ' ');
            append_chars(&mut current, w);
            current_len = current_len + 1 + wl;
        } else {
            append_chars(&mut current, w);
            proof {
                assert(prev.1 + w@ =~= w@);
            }
            current_len = wl;
        }
        i = i + 1;
        proof {
            let next = wrap_upto(wsv, max_w as int, i as int);
            assert(lines@.len() == next.0.len());
        }
    }
    if !current.as_str().is_empty() {
        lines.push(current);
    }
    lines
}

} // verus!
