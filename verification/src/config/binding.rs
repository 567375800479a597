//! Bindings from input sources to tasks (a device and a function).
use vstd::prelude::*;

verus! {

/// A UART command byte bound to a task.
#[derive(Debug, Clone)]
pub struct UartBinding {
    pub task_id: String,
    pub source_key: u8,
    pub device_id: String,
    pub function_id: String,
}

/// A timer key bound to a task.
#[derive(Debug, Clone)]
pub struct TimerBinding {
    pub task_id: String,
    pub source_key: String,
    pub device_id: String,
    pub function_id: String,
}

/// A loop key bound to a task.
#[derive(Debug, Clone)]
pub struct LoopBinding {
    pub task_id: String,
    pub source_key: String,
    pub device_id: String,
    pub function_id: String,
}

/// A web debug key bound to a task.
#[derive(Debug, Clone)]
pub struct DebugBinding {
    pub task_id: String,
    pub source_key: String,
    pub device_id: String,
    pub function_id: String,
}

/// All bindings, grouped by the kind of source they listen to.
#[derive(Debug, Clone)]
pub struct BindingsConfig {
    pub uart_source: Vec<UartBinding>,
    pub timer_source: Vec<TimerBinding>,
    pub loop_source: Vec<LoopBinding>,
    pub debug_source: Vec<DebugBinding>,
}

/// The task part of a binding, whatever its source.
#[derive(Debug, Clone)]
pub struct TaskBindingRef {
    pub task_id: String,
    pub device_id: String,
    pub function_id: String,
}

/// The task part of a binding as text.
pub struct TaskBindingView {
    pub task_id: Seq<char>,
    pub device_id: Seq<char>,
    pub function_id: Seq<char>,
}

impl View for TaskBindingRef {
    type V = TaskBindingView;

    open spec fn view(&self) -> TaskBindingView {
        TaskBindingView { task_id: self.task_id@, device_id: self.device_id@, function_id: self.function_id@ }
    }
}

pub open spec fn uart_task(b: UartBinding) -> TaskBindingView {
    TaskBindingView { task_id: b.task_id@, device_id: b.device_id@, function_id: b.function_id@ }
}

pub open spec fn timer_task(b: TimerBinding) -> TaskBindingView {
    TaskBindingView { task_id: b.task_id@, device_id: b.device_id@, function_id: b.function_id@ }
}

pub open spec fn loop_task(b: LoopBinding) -> TaskBindingView {
    TaskBindingView { task_id: b.task_id@, device_id: b.device_id@, function_id: b.function_id@ }
}

pub open spec fn debug_task(b: DebugBinding) -> TaskBindingView {
    TaskBindingView { task_id: b.task_id@, device_id: b.device_id@, function_id: b.function_id@ }
}

/// The task views of a list of task bindings.
pub open spec fn task_views(v: Seq<TaskBindingRef>) -> Seq<TaskBindingView> {
    v.map_values(|t: TaskBindingRef| t@)
}

impl BindingsConfig {
    /// The tasks of all bindings: UART ones first, then timer, loop and debug ones,
    /// each group in its listed order.
    pub open spec fn task_bindings(&self) -> Seq<TaskBindingView> {
        self.uart_source@.map_values(|b: UartBinding| uart_task(b))
            + self.timer_source@.map_values(|b: TimerBinding| timer_task(b))
            + self.loop_source@.map_values(|b: LoopBinding| loop_task(b))
            + self.debug_source@.map_values(|b: DebugBinding| debug_task(b))
    }

    /// The tasks of all bindings, in the order of `task_bindings`.
    pub fn iter_task_bindings(&self) -> (r: Vec<TaskBindingRef>)
        ensures
            task_views(r@) == self.task_bindings(),
    {
        let mut out: Vec<TaskBindingRef> = Vec::new();
        let ghost a = self.uart_source@.map_values(|b: UartBinding| uart_task(b));
        let ghost b = self.timer_source@.map_values(|b: TimerBinding| timer_task(b));
        let ghost c = self.loop_source@.map_values(|b: LoopBinding| loop_task(b));
        let ghost d = self.debug_source@.map_values(|b: DebugBinding| debug_task(b));
        let ghost all = a + b + c + d;
        assert(all == self.task_bindings());
        let mut i: usize = 0;
        while i < self.uart_source.len()
            invariant
                i <= self.uart_source.len(),
                a == self.uart_source@.map_values(|b: UartBinding| uart_task(b)),
                all == a + b + c + d,
                out@.len() == i,
                task_views(out@) =~= all.take(out@.len() as int),
            decreases self.uart_source.len() - i,
        {
            let x = &self.uart_source[i];
            let t = TaskBindingRef {
                task_id: x.task_id.clone(),
                device_id: x.device_id.clone(),
                function_id: x.function_id.clone(),
            };
            assert(t@ == uart_task(*x));
            assert(all[i as int] == a[i as int]);
            out.push(t);
            assert(task_views(out@) =~= all.take(out@.len() as int));
            i += 1;
        }
        let mut i: usize = 0;
        while i < self.timer_source.len()
            invariant
                i <= self.timer_source.len(),
                b == self.timer_source@.map_values(|b: TimerBinding| timer_task(b)),
                all == a + b + c + d,
                out@.len() == a.len() + i,
                task_views(out@) =~= all.take(out@.len() as int),
            decreases self.timer_source.len() - i,
        {
            let x = &self.timer_source[i];
            let t = TaskBindingRef {
                task_id: x.task_id.clone(),
                device_id: x.device_id.clone(),
                function_id: x.function_id.clone(),
            };
            assert(t@ == timer_task(*x));
            assert(all[a.len() + i] == b[i as int]);
            out.push(t);
            assert(task_views(out@) =~= all.take(out@.len() as int));
            i += 1;
        }
        let mut i: usize = 0;
        while i < self.loop_source.len()
            invariant
                i <= self.loop_source.len(),
                c == self.loop_source@.map_values(|b: LoopBinding| loop_task(b)),
                all == a + b + c + d,
                out@.len() == a.len() + b.len() + i,
                task_views(out@) =~= all.take(out@.len() as int),
            decreases self.loop_source.len() - i,
        {
            let x = &self.loop_source[i];
            let t = TaskBindingRef {
                task_id: x.task_id.clone(),
                device_id: x.device_id.clone(),
                function_id: x.function_id.clone(),
            };
            assert(t@ == loop_task(*x));
            assert(all[a.len() + b.len() + i] == c[i as int]);
            out.push(t);
            assert(task_views(out@) =~= all.take(out@.len() as int));
            i += 1;
        }
        let mut i: usize = 0;
        while i < self.debug_source.len()
            invariant
                i <= self.debug_source.len(),
                d == self.debug_source@.map_values(|b: DebugBinding| debug_task(b)),
                all == a + b + c + d,
                out@.len() == a.len() + b.len() + c.len() + i,
                task_views(out@) =~= all.take(out@.len() as int),
            decreases self.debug_source.len() - i,
        {
            let x = &self.debug_source[i];
            let t = TaskBindingRef {
                task_id: x.task_id.clone(),
                device_id: x.device_id.clone(),
                function_id: x.function_id.clone(),
            };
            assert(t@ == debug_task(*x));
            assert(all[a.len() + b.len() + c.len() + i] == d[i as int]);
            out.push(t);
            assert(task_views(out@) =~= all.take(out@.len() as int));
            i += 1;
        }
        assert(all.take(all.len() as int) =~= all);
        out
    }
}

} // verus!
