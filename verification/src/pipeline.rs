//! The iterator-pipeline animation `(0..20).filter(|x| x % 2 == 0).map(|x| x * x).take(5)`:
//! numbers travel through the stages SOURCE, filter, map, take and RESULT, and each stage
//! decides what happens to a number that reaches it.
use vstd::prelude::*;

verus! {

/// Numbers the source produces: `0..SOURCE_END`.
pub const SOURCE_END: i32 = 20;

/// How many numbers the `take` stage lets through.
pub const TAKE_LIMIT: i32 = 5;

/// What happened to a number that reached a stage.
#[derive(Clone, Copy, PartialEq, Eq, Structural, Debug)]
pub enum Arrival {
    /// It goes on to the next stage.
    Passed,
    /// The filter rejected it (odd).
    FilteredOut,
    /// `take` already let five numbers through and rejected it.
    TakenOut,
    /// It reached the result.
    Collected,
}

/// Where a number travelling through the stages is.
#[derive(Clone, Copy, PartialEq, Eq, Structural, Debug)]
pub enum DotPhase {
    /// On its way to the next stage.
    Moving,
    /// Rejected by the filter; shown in red for a moment.
    FilterFlash,
    /// Rejected by `take`; shown in grey for a moment.
    TakeFlash,
    /// In the result.
    Collected,
    /// Rejected, and no longer shown.
    Gone,
}

/// A number on screen: its current value (squared once it went through the map), the last
/// stage it reached (0 source, 1 filter, 2 map, 3 take, 4 result) and its phase. The dot of
/// source number `i` is `dots[i]`.
#[derive(Clone, Copy, PartialEq, Eq, Structural, Debug)]
pub struct Dot {
    pub value: i32,
    pub stage: usize,
    pub phase: DotPhase,
}

/// Counters and result of the animation.
pub struct Sim {
    /// Every number emitted so far, in the order the source emitted them.
    pub dots: Vec<Dot>,
    /// Next number the source emits.
    pub next_spawn_val: i32,
    /// Numbers the filter let through.
    pub filter_passed: i32,
    /// Numbers that reached the filter.
    pub filter_total: i32,
    /// Numbers the map squared.
    pub map_count: i32,
    /// Numbers `take` let through.
    pub take_count: i32,
    /// Numbers collected, in order.
    pub result: Vec<i32>,
    /// Five numbers have been collected.
    pub done: bool,
}

/// Whether `s` is the state at the start of the animation.
pub open spec fn is_initial(s: &Sim) -> bool {
    &&& s.next_spawn_val == 0
    &&& s.filter_passed == 0
    &&& s.filter_total == 0
    &&& s.map_count == 0
    &&& s.take_count == 0
    &&& s.result@.len() == 0
    &&& !s.done
    &&& s.dots@.len() == 0
}

/// The bookkeeping of the animation is consistent: the filter lets through at most what
/// reaches it, `take` never lets through more than five, the source never passes its end,
/// and the animation is done exactly when five numbers have been collected.
pub open spec fn consistent(s: &Sim) -> bool {
    &&& 0 <= s.filter_passed <= s.filter_total
    &&& 0 <= s.map_count
    &&& 0 <= s.take_count <= TAKE_LIMIT
    &&& 0 <= s.next_spawn_val <= SOURCE_END
    &&& s.done == (s.result@.len() >= 5)
}

/// What stage `stage` does to `value` when `take` has let `taken` numbers through: the
/// outcome and the value that travels on.
pub open spec fn stage_outcome(stage: int, value: i32, taken: int) -> (Arrival, i32) {
    if stage == 1 {
        if value % 2 != 0 {
            (Arrival::FilteredOut, value)
        } else {
            (Arrival::Passed, value)
        }
    } else if stage == 2 {
        (Arrival::Passed, (value * value) as i32)
    } else if stage == 3 {
        if taken >= TAKE_LIMIT {
            (Arrival::TakenOut, value)
        } else {
            (Arrival::Passed, value)
        }
    } else if stage == 4 {
        (Arrival::Collected, value)
    } else {
        (Arrival::Passed, value)
    }
}

/// A value whose square fits in an `i32`.
pub open spec fn squarable(v: i32) -> bool {
    -46340 <= v <= 46340
}

/// The phase a number takes on after reaching a stage with outcome `a`.
pub open spec fn phase_after(a: Arrival) -> DotPhase {
    match a {
        Arrival::Passed => DotPhase::Moving,
        Arrival::FilteredOut => DotPhase::FilterFlash,
        Arrival::TakenOut => DotPhase::TakeFlash,
        Arrival::Collected => DotPhase::Collected,
    }
}

/// A number still in the line of travel: moving, or resting in the result.
pub open spec fn in_line(d: Dot) -> bool {
    d.phase == DotPhase::Moving || d.phase == DotPhase::Collected
}

/// A number that `take` let through.
pub open spec fn passed_take(d: Dot) -> bool {
    (d.phase == DotPhase::Moving && d.stage == 3) || d.phase == DotPhase::Collected
}

/// A number that `take` rejected.
pub open spec fn rejected_by_take(d: Dot) -> bool {
    d.stage == 3 && (d.phase == DotPhase::TakeFlash || d.phase == DotPhase::Gone)
}

/// The dot of source number `i` is where the stages can have put it: even once past the
/// filter, squared once past the map.
pub open spec fn dot_fits(d: Dot, i: int) -> bool {
    match d.phase {
        DotPhase::Moving => d.stage <= 3 && (d.stage >= 1 ==> i % 2 == 0) && d.value == if d.stage
            >= 2 {
            i * i
        } else {
            i
        },
        DotPhase::FilterFlash => d.stage == 1 && i % 2 != 0 && d.value == i,
        DotPhase::TakeFlash => d.stage == 3 && i % 2 == 0 && d.value == i * i,
        DotPhase::Collected => d.stage == 4 && i % 2 == 0 && d.value == i * i,
        DotPhase::Gone => (d.stage == 1 && i % 2 != 0 && d.value == i) || (d.stage == 3 && i % 2
            == 0 && d.value == i * i),
    }
}

/// The state of a running animation: the counters are consistent; the dots are the numbers
/// the source emitted, each where the stages put it; no number in the line of travel is behind
/// a later one; `take` let through exactly the first `take_count` even numbers and rejected
/// numbers only once it was full; and the result holds the squares of the first even numbers,
/// in order.
pub open spec fn running(s: &Sim) -> bool {
    let d = s.dots@;
    &&& consistent(s)
    &&& d.len() == s.next_spawn_val
    &&& forall|i: int| 0 <= i < d.len() ==> dot_fits(#[trigger] d[i], i)
    &&& forall|i: int, j: int|
        0 <= i < j < d.len() && in_line(#[trigger] d[i]) && in_line(#[trigger] d[j]) ==> d[i].stage
            >= d[j].stage
    &&& forall|i: int| 0 <= i < d.len() && rejected_by_take(#[trigger] d[i]) ==> s.take_count
        == TAKE_LIMIT
    &&& forall|i: int|
        0 <= i < d.len() && i % 2 == 0 ==> (passed_take(#[trigger] d[i]) <==> i < 2 * s.take_count)
    &&& 2 * s.take_count <= s.next_spawn_val + 1
    &&& forall|i: int|
        0 <= i < d.len() ==> ((#[trigger] d[i]).phase == DotPhase::Collected <==> (i % 2 == 0 && i
            < 2 * s.result@.len()))
    &&& s.result@.len() <= s.take_count
    &&& forall|k: int| 0 <= k < s.result@.len() ==> #[trigger] s.result@[k] == (2 * k) * (2 * k)
}

/// No number in the line of travel ahead of number `idx` is at or before the stage `idx`
/// last reached: the numbers move at one speed and cannot overtake each other.
pub open spec fn no_overtake(s: &Sim, idx: int) -> bool {
    forall|j: int|
        0 <= j < idx && in_line(#[trigger] s.dots@[j]) ==> s.dots@[j].stage > s.dots@[idx].stage
}

/// Whether number `idx` is moving towards a next stage.
pub open spec fn can_advance(s: &Sim, idx: int) -> bool {
    0 <= idx < s.dots@.len() && s.dots@[idx].phase == DotPhase::Moving && s.dots@[idx].stage < 4
}

/// The result the pipeline gives: the squares of the first five even numbers.
pub open spec fn pipeline_result() -> Seq<i32> {
    seq![0i32, 4, 16, 36, 64]
}

impl Sim {
    /// Nothing emitted, nothing counted, nothing collected.
    pub fn new() -> (s: Sim)
        ensures
            is_initial(&s),
            consistent(&s),
            running(&s),
    {
        Sim {
            dots: Vec::new(),
            next_spawn_val: 0,
            filter_passed: 0,
            filter_total: 0,
            map_count: 0,
            take_count: 0,
            result: Vec::new(),
            done: false,
        }
    }

    /// Starts the animation over.
    pub fn restart(&mut self)
        ensures
            is_initial(final(self)),
            consistent(final(self)),
            running(final(self)),
    {
        *self = Sim::new();
    }

    /// The next number of the source, while the source has numbers left and the result is not
    /// complete; the caller decides when it is time to emit.
    pub fn spawn(&mut self) -> (v: Option<i32>)
        ensures
            old(self).next_spawn_val < SOURCE_END && !old(self).done ==> v == Some(
                old(self).next_spawn_val,
            ) && final(self).next_spawn_val == old(self).next_spawn_val + 1 && final(self).dots@
                == old(self).dots@.push(
                Dot { value: old(self).next_spawn_val, stage: 0, phase: DotPhase::Moving },
            ),
            !(old(self).next_spawn_val < SOURCE_END && !old(self).done) ==> v is None
                && final(self).next_spawn_val == old(self).next_spawn_val && final(self).dots@
                == old(self).dots@,
            final(self).filter_passed == old(self).filter_passed,
            final(self).filter_total == old(self).filter_total,
            final(self).map_count == old(self).map_count,
            final(self).take_count == old(self).take_count,
            final(self).result@ == old(self).result@,
            final(self).done == old(self).done,
            consistent(old(self)) ==> consistent(final(self)),
            running(old(self)) ==> running(final(self)),
    {
        if self.next_spawn_val < SOURCE_END && !self.done {
            let v = self.next_spawn_val;
            self.dots.push(Dot { value: v, stage: 0, phase: DotPhase::Moving });
            self.next_spawn_val = v + 1;
            proof {
                lemma_spawn_keeps_running(*old(self), *self);
            }
            Some(v)
        } else {
            None
        }
    }

    /// A number reaches stage `stage` (1 filter, 2 map, 3 take, 4 result): the stage counts it
    /// and decides its fate; returns the outcome and the value that travels on.
    pub fn arrive(&mut self, stage: usize, value: i32) -> (r: (Arrival, i32))
        requires
            stage == 1 ==> old(self).filter_total < i32::MAX && old(self).filter_passed < i32::MAX,
            stage == 2 ==> squarable(value) && old(self).map_count < i32::MAX,
        ensures
            r == stage_outcome(stage as int, value, old(self).take_count as int),
            final(self).filter_total == old(self).filter_total + if stage == 1 {
                1int
            } else {
                0
            },
            final(self).filter_passed == old(self).filter_passed + if stage == 1 && r.0
                == Arrival::Passed {
                1int
            } else {
                0
            },
            final(self).map_count == old(self).map_count + if stage == 2 {
                1int
            } else {
                0
            },
            final(self).take_count == old(self).take_count + if stage == 3 && r.0
                == Arrival::Passed {
                1int
            } else {
                0
            },
            final(self).result@ == if stage == 4 {
                old(self).result@.push(value)
            } else {
                old(self).result@
            },
            final(self).done == (old(self).done || (stage == 4 && final(self).result@.len() >= 5)),
            final(self).next_spawn_val == old(self).next_spawn_val,
            final(self).dots@ == old(self).dots@,
            consistent(old(self)) ==> consistent(final(self)),
    {
        if stage == 1 {
            self.filter_total = self.filter_total + 1;
            if value % 2 != 0 {
                (Arrival::FilteredOut, value)
            } else {
                self.filter_passed = self.filter_passed + 1;
                (Arrival::Passed, value)
            }
        } else if stage == 2 {
            assert(-46340 * 46340 <= value * value <= 46340 * 46340) by (nonlinear_arith)
                requires
                    -46340 <= value <= 46340,
            ;
            self.map_count = self.map_count + 1;
            (Arrival::Passed, value * value)
        } else if stage == 3 {
            if self.take_count >= TAKE_LIMIT {
                (Arrival::TakenOut, value)
            } else {
                self.take_count = self.take_count + 1;
                (Arrival::Passed, value)
            }
        } else if stage == 4 {
            self.result.push(value);
            if self.result.len() >= 5 {
                self.done = true;
            }
            (Arrival::Collected, value)
        } else {
            (Arrival::Passed, value)
        }
    }

    /// Number `idx` reaches the next stage: the stage counts it and decides its fate, as
    /// `arrive` does, and the number takes the value and phase that follow. Nothing happens
    /// for a number that is not moving, is already in the result, or does not exist.
    pub fn advance_dot(&mut self, idx: usize) -> (r: Option<Arrival>)
        requires
            can_advance(old(self), idx as int) && old(self).dots@[idx as int].stage == 0
                ==> old(self).filter_total < i32::MAX && old(self).filter_passed < i32::MAX,
            can_advance(old(self), idx as int) && old(self).dots@[idx as int].stage == 1
                ==> squarable(old(self).dots@[idx as int].value) && old(self).map_count
                < i32::MAX,
        ensures
            !can_advance(old(self), idx as int) ==> r is None && final(self).dots@ == old(
                self,
            ).dots@ && final(self).result@ == old(self).result@ && final(self).take_count == old(
                self,
            ).take_count && final(self).filter_total == old(self).filter_total
                && final(self).filter_passed == old(self).filter_passed && final(self).map_count
                == old(self).map_count && final(self).done == old(self).done
                && final(self).next_spawn_val == old(self).next_spawn_val,
            can_advance(old(self), idx as int) ==> {
                let d = old(self).dots@[idx as int];
                let o = stage_outcome(d.stage + 1, d.value, old(self).take_count as int);
                &&& r == Some(o.0)
                &&& final(self).dots@ == old(self).dots@.update(
                    idx as int,
                    Dot { value: o.1, stage: (d.stage + 1) as usize, phase: phase_after(o.0) },
                )
                &&& final(self).filter_total == old(self).filter_total + if d.stage == 0 {
                    1int
                } else {
                    0
                }
                &&& final(self).filter_passed == old(self).filter_passed + if d.stage == 0
                    && o.0 == Arrival::Passed {
                    1int
                } else {
                    0
                }
                &&& final(self).map_count == old(self).map_count + if d.stage == 1 {
                    1int
                } else {
                    0
                }
                &&& final(self).take_count == old(self).take_count + if d.stage == 2 && o.0
                    == Arrival::Passed {
                    1int
                } else {
                    0
                }
                &&& final(self).result@ == if d.stage == 3 {
                    old(self).result@.push(o.1)
                } else {
                    old(self).result@
                }
                &&& final(self).done == (old(self).done || (d.stage == 3
                    && final(self).result@.len() >= 5))
                &&& final(self).next_spawn_val == old(self).next_spawn_val
            },
            consistent(old(self)) ==> consistent(final(self)),
            running(old(self)) && no_overtake(old(self), idx as int) ==> running(final(self)),
    {
        if idx >= self.dots.len() {
            return None;
        }
        let d = self.dots[idx];
        if d.phase != DotPhase::Moving || d.stage >= 4 {
            return None;
        }
        let ghost before = *self;
        let (a, v) = self.arrive(d.stage + 1, d.value);
        let phase = match a {
            Arrival::Passed => DotPhase::Moving,
            Arrival::FilteredOut => DotPhase::FilterFlash,
            Arrival::TakenOut => DotPhase::TakeFlash,
            Arrival::Collected => DotPhase::Collected,
        };
        self.dots.set(idx, Dot { value: v, stage: d.stage + 1, phase });
        proof {
            if running(&before) && no_overtake(&before, idx as int) {
                lemma_advance_keeps_running(before, *self, idx as int);
            }
        }
        Some(a)
    }

    /// The flash of a rejected number `idx` is over: it is no longer shown. Nothing happens
    /// for a number that is not flashing.
    pub fn retire(&mut self, idx: usize)
        ensures
            idx < old(self).dots@.len() && (old(self).dots@[idx as int].phase
                == DotPhase::FilterFlash || old(self).dots@[idx as int].phase
                == DotPhase::TakeFlash) ==> final(self).dots@ == old(self).dots@.update(
                idx as int,
                Dot { phase: DotPhase::Gone, ..old(self).dots@[idx as int] },
            ),
            !(idx < old(self).dots@.len() && (old(self).dots@[idx as int].phase
                == DotPhase::FilterFlash || old(self).dots@[idx as int].phase
                == DotPhase::TakeFlash)) ==> final(self).dots@ == old(self).dots@,
            final(self).result@ == old(self).result@,
            final(self).take_count == old(self).take_count,
            final(self).filter_total == old(self).filter_total,
            final(self).filter_passed == old(self).filter_passed,
            final(self).map_count == old(self).map_count,
            final(self).done == old(self).done,
            final(self).next_spawn_val == old(self).next_spawn_val,
            consistent(old(self)) ==> consistent(final(self)),
            running(old(self)) ==> running(final(self)),
    {
        if idx < self.dots.len() {
            let d = self.dots[idx];
            if d.phase == DotPhase::FilterFlash || d.phase == DotPhase::TakeFlash {
                self.dots.set(idx, Dot { value: d.value, stage: d.stage, phase: DotPhase::Gone });
                proof {
                    let o = *old(self);
                    let n = *self;
                    if running(&o) {
                        assert forall|i: int, j: int|
                            0 <= i < j < n.dots@.len() && in_line(#[trigger] n.dots@[i]) && in_line(
                                #[trigger] n.dots@[j],
                            ) implies n.dots@[i].stage >= n.dots@[j].stage by {
                            assert(in_line(o.dots@[i]) && in_line(o.dots@[j]));
                        }
                        assert forall|i: int| 0 <= i < n.dots@.len() implies dot_fits(
                            #[trigger] n.dots@[i],
                            i,
                        ) by {
                            assert(dot_fits(o.dots@[i], i));
                        }
                        assert forall|i: int|
                            0 <= i < n.dots@.len() && rejected_by_take(#[trigger] n.dots@[i])
                                implies n.take_count == TAKE_LIMIT by {
                            assert(dot_fits(o.dots@[i], i));
                            if i != idx {
                                assert(rejected_by_take(o.dots@[i]));
                            } else {
                                assert(rejected_by_take(o.dots@[i]));
                            }
                        }
                        assert forall|i: int|
                            0 <= i < n.dots@.len() && i % 2 == 0 implies (passed_take(
                                #[trigger] n.dots@[i],
                            ) <==> i < 2 * n.take_count) by {
                            assert(passed_take(o.dots@[i]) == passed_take(n.dots@[i]));
                        }
                        assert forall|i: int| 0 <= i < n.dots@.len() implies ((
                        #[trigger] n.dots@[i]).phase == DotPhase::Collected <==> (i % 2 == 0 && i
                            < 2 * n.result@.len())) by {
                            assert(o.dots@[i].phase == DotPhase::Collected <==> (i % 2 == 0 && i
                                < 2 * o.result@.len()));
                        }
                    }
                }
            }
        }
    }
}

/// The `take` count and the result after one number has gone through the stages in order,
/// stopping at the first stage that rejects it.
pub open spec fn through_stages(taken: int, result: Seq<i32>, v: i32) -> (int, Seq<i32>) {
    let (a1, v1) = stage_outcome(1, v, taken);
    let (a2, v2) = stage_outcome(2, v1, taken);
    let (a3, v3) = stage_outcome(3, v2, taken);
    if a1 != Arrival::Passed || a3 != Arrival::Passed {
        (taken, result)
    } else {
        (taken + 1, result.push(stage_outcome(4, v3, taken + 1).1))
    }
}

/// The `take` count and the result after `vals[0..k]` have gone through, one at a time.
pub open spec fn through_all(vals: Seq<i32>, k: int) -> (int, Seq<i32>)
    decreases k,
{
    if k <= 0 {
        (0, Seq::empty())
    } else {
        let prev = through_all(vals, k - 1);
        through_stages(prev.0, prev.1, vals[k - 1])
    }
}

/// Squares of the even numbers among `vals[0..k]`, in order.
pub open spec fn even_squares(vals: Seq<i32>, k: int) -> Seq<i32>
    decreases k,
{
    if k <= 0 {
        Seq::empty()
    } else if vals[k - 1] % 2 == 0 {
        even_squares(vals, k - 1).push((vals[k - 1] * vals[k - 1]) as i32)
    } else {
        even_squares(vals, k - 1)
    }
}

/// At most the first five entries of `s`.
pub open spec fn first_five(s: Seq<i32>) -> Seq<i32> {
    if s.len() <= 5 {
        s
    } else {
        s.take(5)
    }
}

/// Whether `v` is even.
pub open spec fn is_even(v: i32) -> bool {
    v % 2 == 0
}

/// The square of `v`, as the `i32` the map stage produces.
pub open spec fn square(v: i32) -> i32 {
    (v * v) as i32
}

/// `even_squares` is the filter of the even numbers followed by the map to their squares.
pub proof fn lemma_even_squares_is_filter_map(vals: Seq<i32>, k: int)
    requires
        0 <= k <= vals.len(),
    ensures
        even_squares(vals, k) == vals.take(k).filter(|v: i32| is_even(v)).map_values(
            |v: i32| square(v),
        ),
    decreases k,
{
    let p = |v: i32| is_even(v);
    let f = |v: i32| square(v);
    if k == 0 {
        assert(vals.take(0).filter(p) =~= Seq::<i32>::empty()) by {
            reveal(Seq::filter);
        }
        assert(vals.take(0).filter(p).map_values(f) =~= Seq::<i32>::empty());
    } else {
        lemma_even_squares_is_filter_map(vals, k - 1);
        let prefix = vals.take(k - 1);
        assert(vals.take(k) =~= prefix.push(vals[k - 1]));
        prefix.lemma_filter_push(vals[k - 1], p);
        if p(vals[k - 1]) {
            prefix.filter(p).lemma_push_map_commute(f, vals[k - 1]);
        }
    }
}

/// The stages compute the pipeline they picture: numbers sent through them one at a time
/// give the first five squares of the even numbers, in order, as
/// `iter.filter(|x| x % 2 == 0).map(|x| x * x).take(5)` does.
pub proof fn lemma_stages_compute_pipeline(vals: Seq<i32>, k: int)
    requires
        0 <= k <= vals.len(),
        forall|i: int| 0 <= i < vals.len() ==> squarable(#[trigger] vals[i]),
    ensures
        through_all(vals, k).1 == first_five(even_squares(vals, k)),
        through_all(vals, k).0 == through_all(vals, k).1.len(),
    decreases k,
{
    if k > 0 {
        lemma_stages_compute_pipeline(vals, k - 1);
        let prev = through_all(vals, k - 1);
        let ev = even_squares(vals, k - 1);
        let v = vals[k - 1];
        if v % 2 == 0 {
            assert(even_squares(vals, k) == ev.push((v * v) as i32));
            if ev.len() < 5 {
                assert(first_five(ev.push((v * v) as i32)) =~= ev.push((v * v) as i32));
            } else {
                assert(first_five(ev.push((v * v) as i32)) =~= first_five(ev));
            }
        }
    }
}


proof fn lemma_spawn_keeps_running(o: Sim, n: Sim)
    requires
        o.next_spawn_val < SOURCE_END,
        !o.done,
        n.dots@ == o.dots@.push(Dot { value: o.next_spawn_val, stage: 0, phase: DotPhase::Moving }),
        n.next_spawn_val == o.next_spawn_val + 1,
        n.filter_passed == o.filter_passed,
        n.filter_total == o.filter_total,
        n.map_count == o.map_count,
        n.take_count == o.take_count,
        n.result@ == o.result@,
        n.done == o.done,
    ensures
        running(&o) ==> running(&n),
{
    if running(&o) {
        let last = o.dots@.len() as int;
        assert(dot_fits(n.dots@[last], last));
        assert forall|i: int| 0 <= i < n.dots@.len() implies dot_fits(#[trigger] n.dots@[i], i) by {
            if i < last {
                assert(n.dots@[i] == o.dots@[i]);
            }
        }
        assert forall|i: int, j: int|
            0 <= i < j < n.dots@.len() && in_line(#[trigger] n.dots@[i]) && in_line(
                #[trigger] n.dots@[j],
            ) implies n.dots@[i].stage >= n.dots@[j].stage by {
            assert(n.dots@[i] == o.dots@[i]);
            if j < last {
                assert(n.dots@[j] == o.dots@[j]);
            }
        }
        assert forall|i: int|
            0 <= i < n.dots@.len() && rejected_by_take(#[trigger] n.dots@[i]) implies n.take_count
                == TAKE_LIMIT by {
            if i < last {
                assert(n.dots@[i] == o.dots@[i]);
            }
        }
        assert forall|i: int|
            0 <= i < n.dots@.len() && i % 2 == 0 implies (passed_take(#[trigger] n.dots@[i]) <==> i
                < 2 * n.take_count) by {
            if i < last {
                assert(n.dots@[i] == o.dots@[i]);
            }
        }
        assert forall|i: int| 0 <= i < n.dots@.len() implies ((#[trigger] n.dots@[i]).phase
            == DotPhase::Collected <==> (i % 2 == 0 && i < 2 * n.result@.len())) by {
            if i < last {
                assert(n.dots@[i] == o.dots@[i]);
            }
        }
    }
}

proof fn lemma_advance_keeps_running(o: Sim, n: Sim, idx: int)
    requires
        running(&o),
        no_overtake(&o, idx),
        can_advance(&o, idx),
        ({
            let d = o.dots@[idx];
            let out = stage_outcome(d.stage + 1, d.value, o.take_count as int);
            &&& n.dots@ == o.dots@.update(
                idx,
                Dot { value: out.1, stage: (d.stage + 1) as usize, phase: phase_after(out.0) },
            )
            &&& n.take_count == o.take_count + if d.stage == 2 && out.0 == Arrival::Passed {
                1int
            } else {
                0
            }
            &&& n.result@ == if d.stage == 3 {
                o.result@.push(out.1)
            } else {
                o.result@
            }
            &&& n.next_spawn_val == o.next_spawn_val
            &&& consistent(&n)
        }),
    ensures
        running(&n),
{
    let d = o.dots@[idx];
    let out = stage_outcome(d.stage + 1, d.value, o.take_count as int);
    let nd = n.dots@[idx];
    assert(dot_fits(d, idx));
    if d.stage == 2 && o.take_count < TAKE_LIMIT {
        // The number entering `take` is the next even number not yet let through.
        let e = 2 * o.take_count;
        if e < idx {
            assert(e % 2 == 0);
            assert(dot_fits(o.dots@[e as int], e as int));
            assert(!passed_take(o.dots@[e as int]));
            if rejected_by_take(o.dots@[e as int]) {
                assert(false);
            }
            assert(in_line(o.dots@[e as int]));
            assert(false);
        }
        assert(idx >= e) by {
            assert(!passed_take(d));
        }
    }
    if d.stage == 3 {
        // The number entering the result is the next even number not yet collected.
        let e = 2 * o.result@.len();
        assert(passed_take(d));
        assert(idx < 2 * o.take_count);
        assert(idx >= e);
        if e < idx {
            assert(e % 2 == 0);
            assert(dot_fits(o.dots@[e as int], e as int));
            assert(passed_take(o.dots@[e as int]));
            assert(o.dots@[e as int].phase != DotPhase::Collected);
            assert(in_line(o.dots@[e as int]));
            assert(false);
        }
        assert(idx == e);
        assert(d.value == idx * idx);
        assert forall|k: int| 0 <= k < n.result@.len() implies #[trigger] n.result@[k] == (2 * k)
            * (2 * k) by {
            if k < o.result@.len() {
                assert(n.result@[k] == o.result@[k]);
            }
        }
    }
    assert forall|i: int| 0 <= i < n.dots@.len() implies dot_fits(#[trigger] n.dots@[i], i) by {
        if i != idx {
            assert(n.dots@[i] == o.dots@[i]);
            assert(dot_fits(o.dots@[i], i));
        } else {
            if d.stage == 1 {
                assert(0 <= idx * idx <= 400) by (nonlinear_arith)
                    requires
                        0 <= idx < 20,
                ;
                assert(d.value * d.value == idx * idx);
            }
        }
    }
    assert forall|i: int, j: int|
        0 <= i < j < n.dots@.len() && in_line(#[trigger] n.dots@[i]) && in_line(
            #[trigger] n.dots@[j],
        ) implies n.dots@[i].stage >= n.dots@[j].stage by {
        if i == idx {
            assert(n.dots@[j] == o.dots@[j]);
            assert(in_line(o.dots@[i]) && in_line(o.dots@[j]));
        } else if j == idx {
            assert(n.dots@[i] == o.dots@[i]);
            assert(in_line(o.dots@[i]));
        } else {
            assert(n.dots@[i] == o.dots@[i]);
            assert(n.dots@[j] == o.dots@[j]);
        }
    }
    assert forall|i: int|
        0 <= i < n.dots@.len() && rejected_by_take(#[trigger] n.dots@[i]) implies n.take_count
            == TAKE_LIMIT by {
        if i != idx {
            assert(n.dots@[i] == o.dots@[i]);
        }
    }
    assert forall|i: int|
        0 <= i < n.dots@.len() && i % 2 == 0 implies (passed_take(#[trigger] n.dots@[i]) <==> i < 2
            * n.take_count) by {
        if i != idx {
            assert(n.dots@[i] == o.dots@[i]);
            assert(passed_take(o.dots@[i]) <==> i < 2 * o.take_count);
            if d.stage == 2 && out.0 == Arrival::Passed {
                assert(idx == 2 * o.take_count);
            }
        } else {
            assert(passed_take(d) <==> idx < 2 * o.take_count);
            if d.stage == 2 && out.0 == Arrival::Passed {
                assert(idx == 2 * o.take_count);
            }
        }
    }
    assert forall|i: int| 0 <= i < n.dots@.len() implies ((#[trigger] n.dots@[i]).phase
        == DotPhase::Collected <==> (i % 2 == 0 && i < 2 * n.result@.len())) by {
        if i != idx {
            assert(n.dots@[i] == o.dots@[i]);
            assert(o.dots@[i].phase == DotPhase::Collected <==> (i % 2 == 0 && i < 2
                * o.result@.len()));
        }
    }
}

/// While the numbers do not overtake one another, the result is always a beginning of
/// `[0, 4, 16, 36, 64]` and holds at most five numbers, and no number is emitted once the
/// animation is done.
pub proof fn lemma_running_result(s: &Sim)
    requires
        running(s),
    ensures
        s.result@.len() <= 5,
        s.result@ == pipeline_result().take(s.result@.len() as int),
        s.take_count <= TAKE_LIMIT,
{
    assert forall|k: int| 0 <= k < s.result@.len() implies s.result@[k] == pipeline_result()[k] by {
        assert(s.result@[k] == (2 * k) * (2 * k));
        assert(k < 5);
        let p = pipeline_result();
        assert(p.len() == 5 && p[0] == 0 && p[1] == 4 && p[2] == 16 && p[3] == 36 && p[4] == 64);
        assert(s.result@[k] == p[k]) by (nonlinear_arith)
            requires
                0 <= k < 5,
                s.result@[k] == (2 * k) * (2 * k),
                p[0] == 0 && p[1] == 4 && p[2] == 16 && p[3] == 36 && p[4] == 64,
        ;
    }
    assert(s.result@ =~= pipeline_result().take(s.result@.len() as int));
}

} // verus!
