//! The mutex animation: threads circle a room that only one of them may hold at a time.
//! Each frame every thread, in order, may change its state; the timing conditions are
//! measured by the caller and handed in as flags.
use vstd::prelude::*;
use vstd::string::*;
use crate::text::{decimal, push_char, push_decimal};

verus! {

/// What a simulated thread is doing.
#[derive(Clone, Copy, PartialEq, Eq, Structural, Debug)]
pub enum ThreadState {
    /// Circling, not interested in the lock.
    Waiting,
    /// Trying to take the lock.
    Acquiring,
    /// Holding the lock.
    Locked,
    /// Just released the lock, moving away.
    Done,
}

/// The timing conditions of one thread in one frame.
#[derive(Clone, Copy)]
pub struct ThreadTiming {
    /// A waiting thread wants the lock now.
    pub wants_lock: bool,
    /// The thread has held the lock long enough to release it.
    pub hold_over: bool,
    /// The thread has been leaving long enough to wait again.
    pub leave_over: bool,
}

/// The lock is free and the pause after the last release is over.
pub open spec fn may_take(locked_by: Option<usize>, cooled: bool) -> bool {
    locked_by is None && cooled
}

/// One thread's move: its new state, the new holder of the lock, and whether the pause after
/// the last release is still over.
pub open spec fn thread_move(
    st: ThreadState,
    id: usize,
    locked_by: Option<usize>,
    cooled: bool,
    t: ThreadTiming,
) -> (ThreadState, Option<usize>, bool) {
    match st {
        ThreadState::Waiting => if t.wants_lock && may_take(locked_by, cooled) {
            (ThreadState::Acquiring, locked_by, cooled)
        } else {
            (ThreadState::Waiting, locked_by, cooled)
        },
        ThreadState::Acquiring => if may_take(locked_by, cooled) {
            (ThreadState::Locked, Some(id), cooled)
        } else {
            (ThreadState::Acquiring, locked_by, cooled)
        },
        ThreadState::Locked => if t.hold_over {
            (ThreadState::Done, None, false)
        } else {
            (ThreadState::Locked, locked_by, cooled)
        },
        ThreadState::Done => if t.leave_over {
            (ThreadState::Waiting, locked_by, cooled)
        } else {
            (ThreadState::Done, locked_by, cooled)
        },
    }
}

/// The states, lock holder and pause flag after threads `0..k` have moved, in order.
pub open spec fn frame_upto(
    states: Seq<ThreadState>,
    locked_by: Option<usize>,
    cooled: bool,
    timing: Seq<ThreadTiming>,
    k: int,
) -> (Seq<ThreadState>, Option<usize>, bool)
    decreases k,
{
    if k <= 0 {
        (states, locked_by, cooled)
    } else {
        let prev = frame_upto(states, locked_by, cooled, timing, k - 1);
        let m = thread_move(prev.0[k - 1], (k - 1) as usize, prev.1, prev.2, timing[k - 1]);
        (prev.0.update(k - 1, m.0), m.1, m.2)
    }
}

/// The lock is held by thread `i` exactly when thread `i` is in the `Locked` state, so at
/// most one thread holds it.
pub open spec fn exclusive(states: Seq<ThreadState>, locked_by: Option<usize>) -> bool {
    &&& forall|i: int|
        0 <= i < states.len() ==> (#[trigger] states[i] == ThreadState::Locked <==> locked_by
            == Some(i as usize))
    &&& (locked_by matches Some(j) ==> j < states.len())
}

/// Moves every thread once, in order. `cooled` tells whether the pause after the last
/// release was over at the start of the frame; a release during the frame starts a new one.
/// Returns whether a thread released the lock.
pub fn mutex_step(
    states: &mut Vec<ThreadState>,
    locked_by: &mut Option<usize>,
    cooled: bool,
    timing: &Vec<ThreadTiming>,
) -> (released: bool)
    requires
        timing@.len() == old(states)@.len(),
    ensures
        ({
            let r = frame_upto(old(states)@, *old(locked_by), cooled, timing@, old(states)@.len() as int);
            &&& final(states)@ == r.0
            &&& *final(locked_by) == r.1
        }),
        released <==> exists|i: int|
            0 <= i < old(states)@.len() && #[trigger] old(states)@[i] == ThreadState::Locked
                && final(states)@[i] == ThreadState::Done,
        exclusive(old(states)@, *old(locked_by)) ==> exclusive(final(states)@, *final(locked_by)),
        forall|i: int|
            0 <= i < old(states)@.len() && #[trigger] old(states)@[i] == ThreadState::Locked
                && !timing@[i].hold_over ==> final(states)@[i] == ThreadState::Locked,
        exclusive(old(states)@, *old(locked_by)) && (*old(locked_by) matches Some(h)
            && !timing@[h as int].hold_over) ==> *final(locked_by) == *old(locked_by) && !released,
        forall|i: int|
            0 <= i < old(states)@.len() ==> allowed_change(
                #[trigger] old(states)@[i],
                final(states)@[i],
                *old(locked_by),
                cooled,
                timing@[i],
            ),
{
    let ghost s0 = states@;
    let ghost l0 = *locked_by;
    let mut cool = cooled;
    let mut released = false;
    let n = states.len();
    let mut i: usize = 0;
    while i < n
        invariant
            n == states@.len() == s0.len() == timing@.len(),
            i <= n,
            (states@, *locked_by, cool) == frame_upto(s0, l0, cooled, timing@, i as int),
            forall|k: int| i <= k < n ==> #[trigger] states@[k] == s0[k],
            released <==> exists|k: int|
                0 <= k < i && #[trigger] s0[k] == ThreadState::Locked && states@[k]
                    == ThreadState::Done,
            exclusive(s0, l0) ==> exclusive(states@, *locked_by),
        decreases n - i,
    {
        let t = timing[i];
        let st = states[i];
        proof {
            assert(states@[i as int] == frame_upto(s0, l0, cooled, timing@, i as int).0[i as int]);
        }
        match st {
            ThreadState::Waiting => {
                if t.wants_lock && locked_by.is_none() && cool {
                    states.set(i, ThreadState::Acquiring);
                }
            },
            ThreadState::Acquiring => {
                if locked_by.is_none() && cool {
                    *locked_by = Some(i);
                    states.set(i, ThreadState::Locked);
                }
            },
            ThreadState::Locked => {
                if t.hold_over {
                    states.set(i, ThreadState::Done);
                    *locked_by = None;
                    cool = false;
                    released = true;
                }
            },
            ThreadState::Done => {
                if t.leave_over {
                    states.set(i, ThreadState::Waiting);
                }
            },
        }
        proof {
            assert(states@ =~= frame_upto(s0, l0, cooled, timing@, i + 1).0);
        }
        i = i + 1;
    }
    proof {
        assert forall|k: int|
            0 <= k < s0.len() && #[trigger] s0[k] == ThreadState::Locked && !timing@[k].hold_over
                implies states@[k] == ThreadState::Locked by {
            lemma_no_early_release(s0, l0, cooled, timing@, k);
        }
        if exclusive(s0, l0) && (l0 matches Some(h) && !timing@[h as int].hold_over) {
            lemma_holder_keeps_lock(s0, l0, cooled, timing@);
        }
        lemma_frame_moves_are_allowed(s0, l0, cooled, timing@);
        assert forall|k: int| 0 <= k < s0.len() implies allowed_change(
            #[trigger] s0[k],
            states@[k],
            l0,
            cooled,
            timing@[k],
        ) by {
            assert(states@[k] == frame_upto(s0, l0, cooled, timing@, s0.len() as int).0[k]);
        }
    }
    released
}

/// Puts every thread back to waiting with the lock free.
pub fn reset(states: &mut Vec<ThreadState>, locked_by: &mut Option<usize>)
    ensures
        final(states)@.len() == old(states)@.len(),
        forall|i: int|
            0 <= i < final(states)@.len() ==> #[trigger] final(states)@[i] == ThreadState::Waiting,
        *final(locked_by) is None,
        exclusive(final(states)@, *final(locked_by)),
{
    let n = states.len();
    let mut i: usize = 0;
    while i < n
        invariant
            n == states@.len() == old(states)@.len(),
            i <= n,
            forall|k: int| 0 <= k < i ==> #[trigger] states@[k] == ThreadState::Waiting,
        decreases n - i,
    {
        states.set(i, ThreadState::Waiting);
        i = i + 1;
    }
    *locked_by = None;
}

/// The label of thread `id`: `T` and its number.
pub open spec fn label_text(id: usize) -> Seq<char> {
    seq!['T'] + decimal(id as nat)
}

/// The label shown on thread `id`.
pub fn thread_label(id: usize) -> (s: String)
    ensures
        s@ == label_text(id),
{
    let mut s = String::new();
    push_char(&mut s, 'T');
    push_decimal(&mut s, id as u64);
    s
}

/// Who holds the lock, as the status bar names it.
pub open spec fn holder_text(locked_by: Option<usize>) -> Seq<char> {
    match locked_by {
        Some(i) => label_text(i),
        None => "nikto"@,
    }
}

/// The holder of the lock for the status bar.
pub fn holder_label(locked_by: Option<usize>) -> (s: String)
    ensures
        s@ == holder_text(locked_by),
{
    match locked_by {
        Some(i) => thread_label(i),
        None => String::from_str("nikto"),
    }
}

/// Labels of the threads among `states[0..k]` that are trying to take the lock, joined by
/// `", "`.
pub open spec fn acquiring_labels(states: Seq<ThreadState>, k: int) -> Seq<char>
    decreases k,
{
    if k <= 0 {
        Seq::empty()
    } else {
        let prev = acquiring_labels(states, k - 1);
        if states[k - 1] == ThreadState::Acquiring {
            if prev.len() == 0 {
                label_text((k - 1) as usize)
            } else {
                prev + ", "@ + label_text((k - 1) as usize)
            }
        } else {
            prev
        }
    }
}

/// The waiting list of the status bar: the threads trying to take the lock, or a dash.
pub open spec fn waiting_text(states: Seq<ThreadState>) -> Seq<char> {
    let l = acquiring_labels(states, states.len() as int);
    if l.len() == 0 {
        "—"@
    } else {
        l
    }
}

/// The list of threads trying to take the lock, for the status bar.
pub fn waiting_label(states: &Vec<ThreadState>) -> (s: String)
    ensures
        s@ == waiting_text(states@),
{
    let mut s = String::new();
    let mut i: usize = 0;
    while i < states.len()
        invariant
            i <= states@.len(),
            s@ == acquiring_labels(states@, i as int),
        decreases states@.len() - i,
    {
        if states[i] == ThreadState::Acquiring {
            if !s.as_str().is_empty() {
                s.append(", ");
            }
            let l = thread_label(i);
            s.append(l.as_str());
        }
        i = i + 1;
    }
    if s.as_str().is_empty() {
        String::from_str("—")
    } else {
        s
    }
}

/// After threads `0..k` moved, while thread `h` holds the lock and its hold time is not over:
/// the threads that moved kept their lock-free states, `h` is still locked, the holder and
/// pause flag are unchanged, and the threads yet to move are untouched.
proof fn lemma_holder_frame(
    states: Seq<ThreadState>,
    h: int,
    cooled: bool,
    timing: Seq<ThreadTiming>,
    k: int,
)
    requires
        timing.len() == states.len(),
        states.len() <= usize::MAX,
        0 <= h < states.len(),
        0 <= k <= states.len(),
        exclusive(states, Some(h as usize)),
        !timing[h].hold_over,
    ensures
        frame_upto(states, Some(h as usize), cooled, timing, k).0.len() == states.len(),
        frame_upto(states, Some(h as usize), cooled, timing, k).1 == Some(h as usize),
        frame_upto(states, Some(h as usize), cooled, timing, k).2 == cooled,
        forall|j: int|
            0 <= j < states.len() ==> (#[trigger] frame_upto(
                states,
                Some(h as usize),
                cooled,
                timing,
                k,
            ).0[j] == ThreadState::Locked <==> j == h),
        forall|j: int|
            k <= j < states.len() ==> #[trigger] frame_upto(states, Some(h as usize), cooled, timing, k).0[j]
                == states[j],
    decreases k,
{
    if k > 0 {
        lemma_holder_frame(states, h, cooled, timing, k - 1);
        let prev = frame_upto(states, Some(h as usize), cooled, timing, k - 1);
        assert(prev.0[k - 1] == states[k - 1]);
        assert(states[k - 1] == ThreadState::Locked <==> Some(h as usize) == Some((k - 1) as usize));
        let m = thread_move(prev.0[k - 1], (k - 1) as usize, prev.1, prev.2, timing[k - 1]);
        assert(m.1 == Some(h as usize) && m.2 == cooled);
        assert(m.0 == ThreadState::Locked <==> k - 1 == h);
        let f = frame_upto(states, Some(h as usize), cooled, timing, k);
        assert(f.0 == prev.0.update(k - 1, m.0));
        assert forall|j: int| 0 <= j < states.len() implies (#[trigger] f.0[j]
            == ThreadState::Locked <==> j == h) by {
            if j != k - 1 {
                assert(f.0[j] == prev.0[j]);
            }
        }
    }
}

/// A thread that holds the lock keeps it until its hold time is over: in a frame where the
/// holder's hold time is not over, it is still locked afterwards, no other thread takes the
/// lock, the holder is unchanged and no release happens.
pub proof fn lemma_holder_keeps_lock(
    states: Seq<ThreadState>,
    locked_by: Option<usize>,
    cooled: bool,
    timing: Seq<ThreadTiming>,
)
    requires
        timing.len() == states.len(),
        states.len() <= usize::MAX,
        exclusive(states, locked_by),
        locked_by matches Some(h) && !timing[h as int].hold_over,
    ensures
        ({
            let f = frame_upto(states, locked_by, cooled, timing, states.len() as int);
            &&& f.1 == locked_by
            &&& f.0[locked_by.unwrap() as int] == ThreadState::Locked
            &&& forall|i: int|
                0 <= i < states.len() ==> !(#[trigger] states[i] == ThreadState::Locked
                    && f.0[i] == ThreadState::Done)
            &&& forall|i: int|
                0 <= i < states.len() && i != locked_by.unwrap() ==> #[trigger] f.0[i]
                    != ThreadState::Locked
        }),
{
    let h = locked_by.unwrap() as int;
    lemma_holder_frame(states, h, cooled, timing, states.len() as int);
}

/// A thread whose hold time is not over is still locked after the frame, whatever the other
/// threads do.
pub proof fn lemma_no_early_release(
    states: Seq<ThreadState>,
    locked_by: Option<usize>,
    cooled: bool,
    timing: Seq<ThreadTiming>,
    i: int,
)
    requires
        timing.len() == states.len(),
        0 <= i < states.len(),
        states[i] == ThreadState::Locked,
        !timing[i].hold_over,
    ensures
        frame_upto(states, locked_by, cooled, timing, states.len() as int).0[i]
            == ThreadState::Locked,
{
    lemma_frame_untouched(states, locked_by, cooled, timing, i);
    lemma_frame_keeps(states, locked_by, cooled, timing, i, i + 1, states.len() as int);
}

proof fn lemma_frame_untouched(
    states: Seq<ThreadState>,
    locked_by: Option<usize>,
    cooled: bool,
    timing: Seq<ThreadTiming>,
    k: int,
)
    requires
        timing.len() == states.len(),
        0 <= k <= states.len(),
    ensures
        frame_upto(states, locked_by, cooled, timing, k).0.len() == states.len(),
        forall|j: int|
            k <= j < states.len() ==> #[trigger] frame_upto(states, locked_by, cooled, timing, k).0[j]
                == states[j],
    decreases k,
{
    if k > 0 {
        lemma_frame_untouched(states, locked_by, cooled, timing, k - 1);
    }
}

proof fn lemma_frame_keeps(
    states: Seq<ThreadState>,
    locked_by: Option<usize>,
    cooled: bool,
    timing: Seq<ThreadTiming>,
    i: int,
    a: int,
    k: int,
)
    requires
        timing.len() == states.len(),
        0 <= i < a <= k <= states.len(),
        a == i + 1,
        states[i] == ThreadState::Locked,
        !timing[i].hold_over,
    ensures
        frame_upto(states, locked_by, cooled, timing, k).0[i] == ThreadState::Locked,
    decreases k,
{
    lemma_frame_untouched(states, locked_by, cooled, timing, i);
    if k > a {
        lemma_frame_keeps(states, locked_by, cooled, timing, i, a, k - 1);
        lemma_frame_untouched(states, locked_by, cooled, timing, k - 1);
        let prev = frame_upto(states, locked_by, cooled, timing, k - 1);
        let m = thread_move(prev.0[k - 1], (k - 1) as usize, prev.1, prev.2, timing[k - 1]);
        assert(frame_upto(states, locked_by, cooled, timing, k).0 == prev.0.update(k - 1, m.0));
    } else {
        let prev = frame_upto(states, locked_by, cooled, timing, i);
        assert(prev.0[i] == states[i]);
        let m = thread_move(prev.0[i], i as usize, prev.1, prev.2, timing[i]);
        assert(m.0 == ThreadState::Locked);
        assert(frame_upto(states, locked_by, cooled, timing, k).0 == prev.0.update(i, m.0));
    }
}

/// What one frame may do to thread `i`, given its state before the frame: a waiting thread
/// starts acquiring, and an acquiring thread takes the lock, only if the lock was free and the
/// pause after the last release was over when the frame began (and the waiting thread wants
/// the lock); a
/// holder releases exactly when its hold time is over; a leaving thread waits again exactly
/// when its leaving time is over; no other change happens.
pub open spec fn allowed_change(
    before: ThreadState,
    after: ThreadState,
    locked_by: Option<usize>,
    cooled: bool,
    t: ThreadTiming,
) -> bool {
    match before {
        ThreadState::Waiting => after == ThreadState::Waiting || (after == ThreadState::Acquiring
            && t.wants_lock && locked_by is None && cooled),
        ThreadState::Acquiring => after == ThreadState::Acquiring || (after == ThreadState::Locked
            && locked_by is None && cooled),
        ThreadState::Locked => if t.hold_over {
            after == ThreadState::Done
        } else {
            after == ThreadState::Locked
        },
        ThreadState::Done => if t.leave_over {
            after == ThreadState::Waiting
        } else {
            after == ThreadState::Done
        },
    }
}

proof fn lemma_frame_changes(
    states: Seq<ThreadState>,
    locked_by: Option<usize>,
    cooled: bool,
    timing: Seq<ThreadTiming>,
    k: int,
)
    requires
        timing.len() == states.len(),
        0 <= k <= states.len(),
    ensures
        frame_upto(states, locked_by, cooled, timing, k).0.len() == states.len(),
        forall|i: int|
            0 <= i < k ==> allowed_change(
                states[i],
                #[trigger] frame_upto(states, locked_by, cooled, timing, k).0[i],
                locked_by,
                cooled,
                timing[i],
            ),
        frame_upto(states, locked_by, cooled, timing, k).2 ==> cooled,
        frame_upto(states, locked_by, cooled, timing, k).1 is None ==> locked_by is None
            || !frame_upto(states, locked_by, cooled, timing, k).2,
    decreases k,
{
    lemma_frame_untouched(states, locked_by, cooled, timing, k);
    if k > 0 {
        lemma_frame_changes(states, locked_by, cooled, timing, k - 1);
        lemma_frame_untouched(states, locked_by, cooled, timing, k - 1);
        let prev = frame_upto(states, locked_by, cooled, timing, k - 1);
        let m = thread_move(prev.0[k - 1], (k - 1) as usize, prev.1, prev.2, timing[k - 1]);
        let f = frame_upto(states, locked_by, cooled, timing, k);
        assert(prev.0[k - 1] == states[k - 1]);
        assert(f.0 == prev.0.update(k - 1, m.0));
        assert forall|i: int| 0 <= i < k implies allowed_change(
            states[i],
            #[trigger] f.0[i],
            locked_by,
            cooled,
            timing[i],
        ) by {
            if i < k - 1 {
                assert(f.0[i] == prev.0[i]);
            }
        }
    }
}

/// Every thread changes state in a frame only as `allowed_change` says: no thread skips a
/// state, takes the lock while it is held or during the pause after a release, or releases or
/// stops leaving before its time.
pub proof fn lemma_frame_moves_are_allowed(
    states: Seq<ThreadState>,
    locked_by: Option<usize>,
    cooled: bool,
    timing: Seq<ThreadTiming>,
)
    requires
        timing.len() == states.len(),
    ensures
        forall|i: int|
            0 <= i < states.len() ==> allowed_change(
                states[i],
                #[trigger] frame_upto(states, locked_by, cooled, timing, states.len() as int).0[i],
                locked_by,
                cooled,
                timing[i],
            ),
{
    lemma_frame_changes(states, locked_by, cooled, timing, states.len() as int);
}

proof fn lemma_acquire_frame(
    states: Seq<ThreadState>,
    cooled: bool,
    timing: Seq<ThreadTiming>,
    j: int,
    k: int,
)
    requires
        timing.len() == states.len(),
        states.len() <= usize::MAX,
        0 <= j < states.len(),
        0 <= k <= states.len(),
        cooled,
        exclusive(states, None),
        states[j] == ThreadState::Acquiring,
        forall|m: int| 0 <= m < j ==> #[trigger] states[m] != ThreadState::Acquiring,
    ensures
        frame_upto(states, None, cooled, timing, k).0.len() == states.len(),
        frame_upto(states, None, cooled, timing, k).2 == cooled,
        k <= j ==> frame_upto(states, None, cooled, timing, k).1 is None,
        k > j ==> frame_upto(states, None, cooled, timing, k).1 == Some(j as usize),
        forall|m: int|
            0 <= m < states.len() ==> (#[trigger] frame_upto(states, None, cooled, timing, k).0[m]
                == ThreadState::Locked <==> (k > j && m == j)),
        forall|m: int|
            k <= m < states.len() ==> #[trigger] frame_upto(states, None, cooled, timing, k).0[m]
                == states[m],
    decreases k,
{
    if k > 0 {
        lemma_acquire_frame(states, cooled, timing, j, k - 1);
        let prev = frame_upto(states, None, cooled, timing, k - 1);
        assert(prev.0[k - 1] == states[k - 1]);
        assert(states[k - 1] != ThreadState::Locked);
        let m = thread_move(prev.0[k - 1], (k - 1) as usize, prev.1, prev.2, timing[k - 1]);
        let f = frame_upto(states, None, cooled, timing, k);
        assert(f.0 == prev.0.update(k - 1, m.0));
        assert forall|x: int| 0 <= x < states.len() implies (#[trigger] f.0[x]
            == ThreadState::Locked <==> (k > j && x == j)) by {
            if x != k - 1 {
                assert(f.0[x] == prev.0[x]);
            }
        }
    }
}

/// When the lock is free and the pause after the last release is over, the first thread, by
/// number, that is acquiring takes the lock in this frame, and it alone holds it afterwards.
pub proof fn lemma_first_acquirer_takes_lock(
    states: Seq<ThreadState>,
    timing: Seq<ThreadTiming>,
    j: int,
)
    requires
        timing.len() == states.len(),
        states.len() <= usize::MAX,
        exclusive(states, None),
        0 <= j < states.len(),
        states[j] == ThreadState::Acquiring,
        forall|m: int| 0 <= m < j ==> #[trigger] states[m] != ThreadState::Acquiring,
    ensures
        frame_upto(states, None, true, timing, states.len() as int).1 == Some(j as usize),
        frame_upto(states, None, true, timing, states.len() as int).0[j] == ThreadState::Locked,
        forall|m: int|
            0 <= m < states.len() && m != j ==> #[trigger] frame_upto(
                states,
                None,
                true,
                timing,
                states.len() as int,
            ).0[m] != ThreadState::Locked,
{
    lemma_acquire_frame(states, true, timing, j, states.len() as int);
}

} // verus!
