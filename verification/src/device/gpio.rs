//! The GPIO task indicator: pins are driven active while at least one task runs.
use vstd::prelude::*;

verus! {

/// How many tasks are running and whether the indicator pins are driven active.
#[derive(Debug, Clone, Copy, PartialEq, Eq)]
pub struct GpioActivity {
    pub active_count: usize,
    pub active: bool,
}

/// The indicator is active exactly while a task runs.
pub open spec fn activity_consistent(a: GpioActivity) -> bool {
    a.active == (a.active_count > 0)
}

/// The state after a task starts (the count wraps like the atomic counter it models).
pub open spec fn after_begin(a: GpioActivity) -> GpioActivity {
    GpioActivity {
        active_count: a.active_count.wrapping_add(1),
        active: if a.active_count == 0 { true } else { a.active },
    }
}

/// The level change written when a task starts.
pub open spec fn begin_write(a: GpioActivity) -> Option<bool> {
    if a.active_count == 0 { Some(true) } else { None }
}

/// The state after a task ends; with no task running the count stays zero.
pub open spec fn after_end(a: GpioActivity) -> GpioActivity {
    GpioActivity {
        active_count: if a.active_count > 0 { (a.active_count - 1) as usize } else { 0 },
        active: if a.active_count == 1 { false } else { a.active },
    }
}

/// The level change written when a task ends.
pub open spec fn end_write(a: GpioActivity) -> Option<bool> {
    if a.active_count == 1 { Some(false) } else { None }
}

impl GpioActivity {
    /// No task running, pins inactive.
    pub fn new() -> (r: Self)
        ensures
            r.active_count == 0,
            !r.active,
    {
        GpioActivity { active_count: 0, active: false }
    }

    /// A task starts. When it is the first one, the pins are switched active:
    /// the result is then `Some(true)`, the level change to write.
    pub fn begin(&mut self) -> (r: Option<bool>)
        ensures
            *final(self) == after_begin(*old(self)),
            r == begin_write(*old(self)),
    {
        let previous = self.active_count;
        self.active_count = self.active_count.wrapping_add(1);
        if previous == 0 {
            self.active = true;
            Some(true)
        } else {
            None
        }
    }

    /// A task ends. When it was the last one, the pins are switched inactive:
    /// the result is then `Some(false)`. With no task running nothing changes.
    pub fn end(&mut self) -> (r: Option<bool>)
        ensures
            *final(self) == after_end(*old(self)),
            r == end_write(*old(self)),
    {
        let previous = self.active_count;
        if previous > 0 {
            self.active_count = previous - 1;
        }
        if previous == 1 {
            self.active = false;
            Some(false)
        } else {
            None
        }
    }

    /// When the indicator goes away while active, its pins are switched inactive.
    pub fn on_drop(&self) -> (r: Option<bool>)
        ensures
            r == (if self.active { Some(false) } else { None }),
    {
        if self.active {
            Some(false)
        } else {
            None
        }
    }
}

/// The electrical level of the pins: high when active, unless the pins are active-low.
pub fn pin_level(active: bool, active_low: bool) -> (high: bool)
    ensures
        high == (active != active_low),
{
    active != active_low
}

/// Starting and ending tasks keeps the indicator active exactly while a task
/// runs, and a start followed by an end restores the previous state. (The one
/// exception is a start at `usize::MAX` running tasks, where the counter wraps.)
pub proof fn lemma_activity_round_trip(a: GpioActivity)
    requires
        activity_consistent(a),
        a.active_count < usize::MAX,
    ensures
        activity_consistent(after_begin(a)),
        activity_consistent(after_end(a)),
        after_end(after_begin(a)) == a,
{
}

/// Whether `s` is strictly increasing.
pub open spec fn strictly_increasing(s: Seq<u32>) -> bool {
    forall|i: int, j: int| 0 <= i < j < s.len() ==> s[i] < s[j]
}

/// The pins that a signal value names: values that fit in `u32`.
pub open spec fn is_pin_of(run_pin: u32, signals: Seq<u64>, p: u32) -> bool {
    p == run_pin || exists|i: int| 0 <= i < signals.len() && signals[i] == p as u64
}

/// Inserts `p` into the strictly increasing `pins`, unless it is already there.
fn insert_sorted(pins: &mut Vec<u32>, p: u32)
    requires
        strictly_increasing(old(pins)@),
    ensures
        strictly_increasing(final(pins)@),
        forall|q: u32| final(pins)@.contains(q) <==> (old(pins)@.contains(q) || q == p),
{
    let mut i: usize = 0;
    while i < pins.len() && pins[i] < p
        invariant
            i <= pins.len(),
            pins@ == old(pins)@,
            strictly_increasing(pins@),
            forall|k: int| 0 <= k < i ==> pins@[k] < p,
        decreases pins.len() - i,
    {
        i += 1;
    }
    if i < pins.len() && pins[i] == p {
        assert(pins@[i as int] == p);
        return;
    }
    let ghost before = pins@;
    assert(before == old(pins)@);
    pins.insert(i, p);
    assert(pins@ =~= before.take(i as int).push(p) + before.skip(i as int));
    assert(strictly_increasing(pins@)) by {
        assert forall|a: int, b: int| 0 <= a < b < pins@.len() implies pins@[a] < pins@[b] by {
            if b < i {
            } else if b == i {
            } else if a < i {
                assert(pins@[b] == before[b - 1]);
                assert(before[i as int] >= p);
                if b - 1 > i {
                    assert(before[i as int] < before[b - 1]);
                }
            } else if a == i {
                assert(pins@[b] == before[b - 1]);
                assert(before[i as int] > p);
                if b - 1 > i {
                    assert(before[i as int] < before[b - 1]);
                }
            } else {
                assert(pins@[a] == before[a - 1]);
                assert(pins@[b] == before[b - 1]);
            }
        }
    }
    assert forall|q: u32| #[trigger] pins@.contains(q) <==> (before.contains(q) || q == p) by {
        if before.contains(q) {
            let k = choose|k: int| 0 <= k < before.len() && before[k] == q;
            if k < i {
                assert(pins@[k] == q);
            } else {
                assert(pins@[k + 1] == q);
            }
        }
        if q == p {
            assert(pins@[i as int] == p);
        }
        if pins@.contains(q) {
            let k = choose|k: int| 0 <= k < pins@.len() && pins@[k] == q;
            if k < i {
                assert(before[k] == q);
            } else if k > i {
                assert(before[k - 1] == q);
            }
        }
    }
}

/// The pins an indicator drives: the run pin and every signal value that fits
/// in `u32`, in increasing order and without repetition.
pub fn gpio_pins(run_pin: u32, signal_values: &Vec<u64>) -> (r: Vec<u32>)
    ensures
        strictly_increasing(r@),
        forall|p: u32| r@.contains(p) <==> is_pin_of(run_pin, signal_values@, p),
{
    let mut pins: Vec<u32> = Vec::new();
    pins.push(run_pin);
    assert(pins@ =~= seq![run_pin]);
    assert forall|p: u32| pins@.contains(p) <==> p == run_pin by {
        if p == run_pin {
            assert(pins@[0] == run_pin);
        }
    }
    let mut i: usize = 0;
    while i < signal_values.len()
        invariant
            i <= signal_values.len(),
            strictly_increasing(pins@),
            forall|p: u32| pins@.contains(p) <==> (p == run_pin || exists|k: int| 0 <= k < i && signal_values@[k] == p as u64),
        decreases signal_values.len() - i,
    {
        let v = signal_values[i];
        if v <= 0xffff_ffffu64 {
            insert_sorted(&mut pins, v as u32);
            assert forall|p: u32| pins@.contains(p) <==> (p == run_pin || exists|k: int| 0 <= k < i + 1 && signal_values@[k] == p as u64) by {
                if exists|k: int| 0 <= k < i + 1 && signal_values@[k] == p as u64 {
                    let k = choose|k: int| 0 <= k < i + 1 && signal_values@[k] == p as u64;
                    if k == i {
                        assert(p == v as u32);
                    }
                }
            }
        } else {
            assert forall|p: u32| pins@.contains(p) <==> (p == run_pin || exists|k: int| 0 <= k < i + 1 && signal_values@[k] == p as u64) by {
                if exists|k: int| 0 <= k < i + 1 && signal_values@[k] == p as u64 {
                    let k = choose|k: int| 0 <= k < i + 1 && signal_values@[k] == p as u64;
                    if k == i {
                        assert(false);
                    }
                }
            }
        }
        i += 1;
    }
    pins
}

/// The indicator is written only when it changes: a start writes "active"
/// exactly when no task was running (the indicator was off), an end writes
/// "inactive" exactly when the last running task ends (the indicator goes
/// off), and nothing else is ever written.
pub proof fn lemma_indicator_written_on_change(a: GpioActivity)
    requires
        activity_consistent(a),
        a.active_count < usize::MAX,
    ensures
        begin_write(a) is Some ==> begin_write(a) == Some(true),
        end_write(a) is Some ==> end_write(a) == Some(false),
        begin_write(a) is Some <==> (!a.active && after_begin(a).active),
        end_write(a) is Some <==> (a.active && !after_end(a).active),
        after_begin(a).active_count == a.active_count + 1,
        a.active_count > 0 ==> after_end(a).active_count == a.active_count - 1,
{
}

} // verus!
