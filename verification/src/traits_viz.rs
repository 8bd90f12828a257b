//! The traits screen: a monomorphisation walkthrough on the left, a vtable lookup on the
//! right; the focused column advances one step per key press and wraps around.
use vstd::prelude::*;

verus! {

/// The column that key presses drive.
#[derive(Clone, Copy, PartialEq, Eq, Structural, Debug)]
pub enum Focus {
    Left,
    Right,
}

/// Steps of the monomorphisation walkthrough.
#[derive(Clone, Copy, PartialEq, Eq, Structural, Debug)]
pub enum MonoStep {
    Idle,
    Circle,
    Square,
    Triangle,
    Done,
}

/// Steps of the vtable lookup.
#[derive(Clone, Copy, PartialEq, Eq, Structural, Debug)]
pub enum VtableStep {
    Idle,
    DataPtr,
    VtablePtr,
    AreaLookup,
    PerimeterLookup,
    Done,
}

/// The screen state (the timers of the blinking cursor stay with the caller).
pub struct App {
    pub focus: Focus,
    pub mono_step: MonoStep,
    pub vtable_step: VtableStep,
    pub blink: bool,
}

/// The monomorphisation step after `s`.
pub open spec fn next_mono(s: MonoStep) -> MonoStep {
    match s {
        MonoStep::Idle => MonoStep::Circle,
        MonoStep::Circle => MonoStep::Square,
        MonoStep::Square => MonoStep::Triangle,
        MonoStep::Triangle => MonoStep::Done,
        MonoStep::Done => MonoStep::Idle,
    }
}

/// The vtable step after `s`.
pub open spec fn next_vtable(s: VtableStep) -> VtableStep {
    match s {
        VtableStep::Idle => VtableStep::DataPtr,
        VtableStep::DataPtr => VtableStep::VtablePtr,
        VtableStep::VtablePtr => VtableStep::AreaLookup,
        VtableStep::AreaLookup => VtableStep::PerimeterLookup,
        VtableStep::PerimeterLookup => VtableStep::Done,
        VtableStep::Done => VtableStep::Idle,
    }
}

impl App {
    /// Left column focused, both walkthroughs idle, cursor shown.
    pub fn new() -> (app: App)
        ensures
            app.focus == Focus::Left,
            app.mono_step == MonoStep::Idle,
            app.vtable_step == VtableStep::Idle,
            app.blink,
    {
        App {
            focus: Focus::Left,
            mono_step: MonoStep::Idle,
            vtable_step: VtableStep::Idle,
            blink: true,
        }
    }

    /// Advances the walkthrough of the focused column; the other column does not move.
    pub fn advance_animation(&mut self)
        ensures
            final(self).focus == old(self).focus,
            final(self).blink == old(self).blink,
            old(self).focus == Focus::Left ==> final(self).mono_step == next_mono(
                old(self).mono_step,
            ) && final(self).vtable_step == old(self).vtable_step,
            old(self).focus == Focus::Right ==> final(self).vtable_step == next_vtable(
                old(self).vtable_step,
            ) && final(self).mono_step == old(self).mono_step,
    {
        match self.focus {
            Focus::Left => {
                self.mono_step = match self.mono_step {
                    MonoStep::Idle => MonoStep::Circle,
                    MonoStep::Circle => MonoStep::Square,
                    MonoStep::Square => MonoStep::Triangle,
                    MonoStep::Triangle => MonoStep::Done,
                    MonoStep::Done => MonoStep::Idle,
                };
            },
            Focus::Right => {
                self.vtable_step = match self.vtable_step {
                    VtableStep::Idle => VtableStep::DataPtr,
                    VtableStep::DataPtr => VtableStep::VtablePtr,
                    VtableStep::VtablePtr => VtableStep::AreaLookup,
                    VtableStep::AreaLookup => VtableStep::PerimeterLookup,
                    VtableStep::PerimeterLookup => VtableStep::Done,
                    VtableStep::Done => VtableStep::Idle,
                };
            },
        }
    }

    /// Moves the focus to the other column and restarts both walkthroughs.
    pub fn switch_focus(&mut self)
        ensures
            final(self).focus == if old(self).focus == Focus::Left {
                Focus::Right
            } else {
                Focus::Left
            },
            final(self).mono_step == MonoStep::Idle,
            final(self).vtable_step == VtableStep::Idle,
            final(self).blink == old(self).blink,
    {
        self.focus = match self.focus {
            Focus::Left => Focus::Right,
            Focus::Right => Focus::Left,
        };
        self.mono_step = MonoStep::Idle;
        self.vtable_step = VtableStep::Idle;
    }
}

/// The walkthroughs are cycles: five presses bring the monomorphisation column back to where
/// it was, six the vtable column.
pub proof fn lemma_walkthroughs_cycle(m: MonoStep, v: VtableStep)
    ensures
        next_mono(next_mono(next_mono(next_mono(next_mono(m))))) == m,
        next_vtable(next_vtable(next_vtable(next_vtable(next_vtable(next_vtable(v)))))) == v,
{
}

/// How a generated function line of the monomorphisation column is shown.
#[derive(Clone, Copy, PartialEq, Eq, Structural, Debug)]
pub enum LineRole {
    /// The compiler is generating this function now.
    Active,
    /// All functions have been generated.
    Finished,
    /// Not reached yet.
    Plain,
}

/// The role of the line for `line` when the walkthrough is at `step`.
pub fn mono_line_role(step: MonoStep, line: MonoStep) -> (r: LineRole)
    ensures
        r == if step == line {
            LineRole::Active
        } else if step == MonoStep::Done {
            LineRole::Finished
        } else {
            LineRole::Plain
        },
{
    if step == line {
        LineRole::Active
    } else if step == MonoStep::Done {
        LineRole::Finished
    } else {
        LineRole::Plain
    }
}

/// A row of the fat-pointer and vtable diagram.
#[derive(Clone, Copy, PartialEq, Eq, Structural, Debug)]
pub enum VtableRow {
    /// The data pointer of the fat pointer.
    DataPtr,
    /// The vtable pointer of the fat pointer.
    VtablePtr,
    /// The `area()` entry of the vtable.
    Area,
    /// The `perimeter()` entry of the vtable.
    Perimeter,
}

/// The row of the diagram that the lookup is reading at `step`, if any.
pub fn vtable_active_row(step: VtableStep) -> (r: Option<VtableRow>)
    ensures
        r == match step {
            VtableStep::DataPtr => Some(VtableRow::DataPtr),
            VtableStep::VtablePtr => Some(VtableRow::VtablePtr),
            VtableStep::AreaLookup => Some(VtableRow::Area),
            VtableStep::PerimeterLookup => Some(VtableRow::Perimeter),
            _ => None::<VtableRow>,
        },
{
    match step {
        VtableStep::DataPtr => Some(VtableRow::DataPtr),
        VtableStep::VtablePtr => Some(VtableRow::VtablePtr),
        VtableStep::AreaLookup => Some(VtableRow::Area),
        VtableStep::PerimeterLookup => Some(VtableRow::Perimeter),
        _ => None,
    }
}

/// The status message of the monomorphisation column.
pub fn mono_status(step: MonoStep) -> (s: &'static str)
    ensures
        s@ == match step {
            MonoStep::Idle => "  [SPACE] spusti animáciu kompilácie"@,
            MonoStep::Circle => "Kompilujem pre Circle..."@,
            MonoStep::Square => "Kompilujem pre Square..."@,
            MonoStep::Triangle => "Kompilujem pre Triangle..."@,
            MonoStep::Done => "  Kompilácia hotová — 3 špecializované funkcie"@,
        },
{
    match step {
        MonoStep::Idle => "  [SPACE] spusti animáciu kompilácie",
        MonoStep::Circle => "Kompilujem pre Circle...",
        MonoStep::Square => "Kompilujem pre Square...",
        MonoStep::Triangle => "Kompilujem pre Triangle...",
        MonoStep::Done => "  Kompilácia hotová — 3 špecializované funkcie",
    }
}

/// The status message of the vtable column.
pub fn vtable_status(step: VtableStep) -> (s: &'static str)
    ensures
        s@ == match step {
            VtableStep::Idle => "  [SPACE] animuj runtime lookup"@,
            VtableStep::DataPtr => "Runtime: čítam data pointer..."@,
            VtableStep::VtablePtr => "Runtime: nasledujem vtable pointer..."@,
            VtableStep::AreaLookup => "Runtime: hľadám area() vo vtable..."@,
            VtableStep::PerimeterLookup => "Runtime: hľadám perimeter() vo vtable..."@,
            VtableStep::Done => "  Lookup hotový — 2 indirect cally vykonané"@,
        },
{
    match step {
        VtableStep::Idle => "  [SPACE] animuj runtime lookup",
        VtableStep::DataPtr => "Runtime: čítam data pointer...",
        VtableStep::VtablePtr => "Runtime: nasledujem vtable pointer...",
        VtableStep::AreaLookup => "Runtime: hľadám area() vo vtable...",
        VtableStep::PerimeterLookup => "Runtime: hľadám perimeter() vo vtable...",
        VtableStep::Done => "  Lookup hotový — 2 indirect cally vykonané",
    }
}

/// How the footer names the focused column.
pub fn focus_label(focus: Focus) -> (s: &'static str)
    ensures
        s@ == match focus {
            Focus::Left => "ľavá (Mono)"@,
            Focus::Right => "pravá (vtable)"@,
        },
{
    match focus {
        Focus::Left => "ľavá (Mono)",
        Focus::Right => "pravá (vtable)",
    }
}

} // verus!
