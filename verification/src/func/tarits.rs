//! The function registry: definitions, the workers built from them, and the
//! device a function accepts.
use vstd::prelude::*;
use vstd::string::*;

use crate::config::runtime::{ReturnTargets, ReturnTargetsView};
use crate::device::{CameraDevice, Device, DeviceView};
use crate::func::output::{TaskError, TaskOutput};
use crate::keyed::{filled_in_turn, lemma_filled_contains, lemma_filled_last, lemma_steps_fill};

verus! {

/// A device a function can be given: it is taken from the task's device and
/// refused when the task's device is of another kind.
pub trait FromDevice: Sized {
    /// Whether the function accepts a task with this device.
    spec fn accepts(device: DeviceView) -> bool;

    fn from_device(device: &Device) -> (r: Result<Self, TaskError>)
        ensures
            r is Ok <==> Self::accepts(device@),
            r matches Err(e) ==> Self::refusal(e),
    ;

    /// The error reported when the device is refused.
    spec fn refusal(e: TaskError) -> bool;
}

impl FromDevice for CameraDevice {
    open spec fn accepts(device: DeviceView) -> bool {
        device is Camera
    }

    open spec fn refusal(e: TaskError) -> bool {
        e is CameraRequired
    }

    /// The task's camera: the one the device holds.
    fn from_device(device: &Device) -> (r: Result<Self, TaskError>)
        ensures
            r matches Ok(c) ==> device@ == DeviceView::Camera(c.path@),
    {
        match device {
            Device::Camera(camera) => Ok(CameraDevice { path: camera.path.clone() }),
            Device::Absent => Err(TaskError::CameraRequired),
        }
    }
}

/// The device of a function that runs without one.
#[derive(Debug, Clone, Copy)]
pub struct NoDevice;

impl FromDevice for NoDevice {
    open spec fn accepts(device: DeviceView) -> bool {
        device is Absent
    }

    open spec fn refusal(e: TaskError) -> bool {
        e is DeviceNotAccepted
    }

    fn from_device(device: &Device) -> (r: Result<Self, TaskError>) {
        match device {
            Device::Absent => Ok(NoDevice),
            Device::Camera(_) => Err(TaskError::DeviceNotAccepted),
        }
    }
}

/// Typed parameters that can be checked once, when the function is registered.
pub trait ValidateParams {
    /// Whether the parameters are acceptable.
    spec fn params_valid(&self) -> bool;

    fn validate(&self) -> (r: Result<(), crate::params::ParamError>)
        ensures
            r is Ok <==> self.params_valid(),
    ;
}

/// A registered function: its id, the channels its result goes to, and the
/// runner that executes it for a runtime parameter on a device.
pub struct FunctionDef<R> {
    pub func_id: String,
    pub returns: ReturnTargets,
    pub runner: R,
}

/// A function ready to run for one task.
pub struct FunctionWorker<R> {
    pub func_id: String,
    pub returns: ReturnTargets,
    pub runner: R,
}

impl<R: Clone> FunctionDef<R> {
    /// A definition of `func_id`.
    pub fn new(func_id: &str, targets: ReturnTargets, runner: R) -> (r: Self)
        ensures
            r.func_id@ == func_id@,
            r.returns@ == targets@,
            r.runner == runner,
    {
        FunctionDef { func_id: String::from_str(func_id), returns: targets, runner }
    }

    /// A worker for one task of this function.
    pub fn build_worker(&self) -> (r: FunctionWorker<R>)
        ensures
            r.func_id@ == self.func_id@,
            r.returns@ == self.returns@,
            cloned(self.runner, r.runner),
    {
        FunctionWorker::new(self.func_id.as_str(), self.returns.duplicate(), self.runner.clone())
    }
}

impl<R> FunctionWorker<R> {
    /// A worker of `func_id`.
    pub fn new(func_id: &str, targets: ReturnTargets, runner: R) -> (r: Self)
        ensures
            r.func_id@ == func_id@,
            r.returns@ == targets@,
            r.runner == runner,
    {
        FunctionWorker { func_id: String::from_str(func_id), returns: targets, runner }
    }
}

impl<R: Fn(u8, &Device) -> Result<TaskOutput, TaskError>> FunctionWorker<R> {
    /// Runs the function for `runtime_param` on `device`; the result is the runner's.
    pub fn run(&self, runtime_param: u8, device: &Device) -> (r: Result<TaskOutput, TaskError>)
        requires
            call_requires(self.runner, (runtime_param, device)),
        ensures
            call_ensures(self.runner, (runtime_param, device), r),
    {
        (self.runner)(runtime_param, device)
    }
}

/// `j` is the last position of `entries` registered under `k`.
pub open spec fn last_def<R>(entries: Seq<(String, FunctionDef<R>)>, k: Seq<char>, j: int) -> bool {
    &&& 0 <= j < entries.len()
    &&& entries[j].0@ == k
    &&& forall|m: int| j < m < entries.len() ==> entries[m].0@ != k
}

proof fn lemma_last_def_unique<R>(entries: Seq<(String, FunctionDef<R>)>, k: Seq<char>, a: int, b: int)
    requires
        last_def(entries, k, a),
        last_def(entries, k, b),
    ensures
        a == b,
{
}

/// The definition registered last under `k`, if any.
pub open spec fn lookup_def<R>(entries: Seq<(String, FunctionDef<R>)>, k: Seq<char>) -> Option<FunctionDef<R>> {
    if exists|j: int| last_def(entries, k, j) {
        Some(entries[choose|j: int| last_def(entries, k, j)].1)
    } else {
        None
    }
}

proof fn lemma_lookup_def_at<R>(entries: Seq<(String, FunctionDef<R>)>, k: Seq<char>, j: int)
    requires
        last_def(entries, k, j),
    ensures
        lookup_def(entries, k) == Some(entries[j].1),
{
    let c = choose|i: int| last_def(entries, k, i);
    lemma_last_def_unique(entries, k, j, c);
}

/// The definitions of the registered functions, by id. Adding under an id that is
/// already present replaces its definition.
pub struct FuncWorkerMap<R> {
    entries: Vec<(String, FunctionDef<R>)>,
}

impl<R> View for FuncWorkerMap<R> {
    type V = Map<Seq<char>, FunctionDef<R>>;

    closed spec fn view(&self) -> Map<Seq<char>, FunctionDef<R>> {
        Map::new(|k: Seq<char>| lookup_def(self.entries@, k) is Some, |k: Seq<char>| lookup_def(self.entries@, k)->0)
    }
}

impl<R: Clone> FuncWorkerMap<R> {
    /// An empty registry.
    pub fn new() -> (r: Self)
        ensures
            r@ == Map::<Seq<char>, FunctionDef<R>>::empty(),
    {
        let r = FuncWorkerMap { entries: Vec::new() };
        assert(r@ =~= Map::<Seq<char>, FunctionDef<R>>::empty());
        r
    }

    fn find_last(&self, key: &String) -> (r: Option<usize>)
        ensures
            r matches Some(j) ==> last_def(self.entries@, key@, j as int),
            r is None ==> forall|m: int| 0 <= m < self.entries@.len() ==> self.entries@[m].0@ != key@,
    {
        let mut j = self.entries.len();
        while j > 0
            invariant
                j <= self.entries.len(),
                forall|m: int| j <= m < self.entries@.len() ==> self.entries@[m].0@ != key@,
            decreases j,
        {
            if self.entries[j - 1].0 == *key {
                return Some(j - 1);
            }
            j -= 1;
        }
        None
    }

    /// Registers `def` under `func_id`.
    pub fn add(&mut self, func_id: &str, def: FunctionDef<R>)
        ensures
            final(self)@ == old(self)@.insert(func_id@, def),
    {
        let ghost before = self.entries@;
        let key = String::from_str(func_id);
        let ghost d = def;
        match self.find_last(&key) {
            Some(idx) => {
                self.entries.set(idx, (key, def));
                let ghost after = self.entries@;
                assert(last_def(after, func_id@, idx as int));
                assert forall|k: Seq<char>, i: int| k != func_id@ implies (last_def(after, k, i) <==> last_def(before, k, i)) by {
                    if last_def(after, k, i) {
                        assert forall|m: int| i < m < before.len() implies before[m].0@ != k by {
                            if m != idx {
                                assert(after[m] == before[m]);
                            }
                        }
                    }
                    if last_def(before, k, i) {
                        assert forall|m: int| i < m < after.len() implies after[m].0@ != k by {
                            if m != idx {
                                assert(after[m] == before[m]);
                            }
                        }
                    }
                }
                assert forall|k: Seq<char>| k != func_id@ implies lookup_def(after, k) == lookup_def(before, k) by {
                    if exists|i: int| last_def(before, k, i) {
                        let i = choose|i: int| last_def(before, k, i);
                        lemma_lookup_def_at(after, k, i);
                        lemma_lookup_def_at(before, k, i);
                    }
                }
                proof {
                    lemma_lookup_def_at(after, func_id@, idx as int);
                }

                assert(self@ =~= old(self)@.insert(func_id@, d));
            },
            None => {
                self.entries.push((key, def));
                let ghost after = self.entries@;
                assert(last_def(after, func_id@, before.len() as int));
                assert forall|k: Seq<char>, i: int| k != func_id@ implies (last_def(after, k, i) <==> last_def(before, k, i)) by {
                    if last_def(after, k, i) {
                        assert(i != before.len());
                        assert forall|m: int| i < m < before.len() implies before[m].0@ != k by {
                            assert(after[m] == before[m]);
                        }
                    }
                    if last_def(before, k, i) {
                        assert forall|m: int| i < m < after.len() implies after[m].0@ != k by {
                            if m < before.len() {
                                assert(after[m] == before[m]);
                            }
                        }
                    }
                }
                assert forall|k: Seq<char>| k != func_id@ implies lookup_def(after, k) == lookup_def(before, k) by {
                    if exists|i: int| last_def(before, k, i) {
                        let i = choose|i: int| last_def(before, k, i);
                        lemma_lookup_def_at(after, k, i);
                        lemma_lookup_def_at(before, k, i);
                    }
                }
                proof {
                    lemma_lookup_def_at(after, func_id@, before.len() as int);
                }

                assert(self@ =~= old(self)@.insert(func_id@, d));
            },
        }
    }

    /// A worker for the function registered under `func_id`.
    pub fn get_func(&self, func_id: &str) -> (r: Result<FunctionWorker<R>, TaskError>)
        ensures
            match r {
                Ok(w) => self@.contains_key(func_id@) && w.func_id@ == self@[func_id@].func_id@
                    && w.returns@ == self@[func_id@].returns@ && cloned(self@[func_id@].runner, w.runner),
                Err(e) => !self@.contains_key(func_id@) && (e matches TaskError::UnknownFunction { function_id }
                    && function_id@ == func_id@),
            },
    {
        let key = String::from_str(func_id);
        match self.find_last(&key) {
            Some(j) => {
                proof {
                    lemma_lookup_def_at(self.entries@, func_id@, j as int);
                }
                Ok(self.entries[j].1.build_worker())
            },
            None => {
                assert(!(exists|i: int| last_def(self.entries@, func_id@, i)));
                Err(TaskError::UnknownFunction { function_id: key })
            },
        }
    }
}

/// A function reads back as it was registered: after `add(id, def)` the
/// registry holds `def` under `id` (so `get_func(id)` builds a worker of it),
/// and every other id holds what it held before (or stays absent).
pub proof fn lemma_function_read_after_add<R>(
    before: FuncWorkerMap<R>,
    after: FuncWorkerMap<R>,
    id: Seq<char>,
    def: FunctionDef<R>,
    other: Seq<char>,
)
    requires
        after@ == before@.insert(id, def),
    ensures
        after@.contains_key(id),
        after@[id] == def,
        other != id ==> (after@.contains_key(other) <==> before@.contains_key(other)),
        other != id && before@.contains_key(other) ==> after@[other] == before@[other],
{
}

/// A registry filled by a sequence of adds: when `states[0]` is empty and each
/// `states[k + 1]` is `states[k]` after `add(adds[k].0, adds[k].1)`, the last
/// state holds an id exactly when some add used it, and then holds the
/// definition of the last add under that id (so `get_func` builds a worker of
/// that definition, and reports an unknown id for every other).
pub proof fn lemma_registry_after_adds<R>(
    states: Seq<FuncWorkerMap<R>>,
    adds: Seq<(Seq<char>, FunctionDef<R>)>,
    f: Seq<char>,
)
    requires
        states.len() == adds.len() + 1,
        states[0]@ == Map::<Seq<char>, FunctionDef<R>>::empty(),
        forall|k: int| 0 <= k < adds.len() ==> states[k + 1]@ == states[k]@.insert(adds[k].0, adds[k].1),
    ensures
        states.last()@ == filled_in_turn(adds),
        states.last()@.contains_key(f) <==> exists|i: int| 0 <= i < adds.len() && adds[i].0 == f,
        forall|i: int| 0 <= i < adds.len() && adds[i].0 == f
            && (forall|m: int| i < m < adds.len() ==> adds[m].0 != f) ==> states.last()@[f] == adds[i].1,
{
    let maps = Seq::new(states.len(), |j: int| states[j]@);
    lemma_steps_fill(maps, adds, adds.len() as int);
    assert(adds.take(adds.len() as int) =~= adds);
    lemma_filled_contains(adds, f);
    assert forall|i: int| 0 <= i < adds.len() && adds[i].0 == f
        && (forall|m: int| i < m < adds.len() ==> adds[m].0 != f) implies states.last()@[f] == adds[i].1 by {
        lemma_filled_last(adds, f, i);
    }
}

/// A worker built from a definition made by `FunctionDef::new(id, targets,
/// runner)` carries that id and those targets, and a clone of that runner;
/// where cloning the runner type gives back the same value, it carries that
/// very runner.
pub proof fn lemma_worker_of_new_def<R: Clone>(
    id: Seq<char>,
    targets: ReturnTargetsView,
    runner: R,
    def: FunctionDef<R>,
    w: FunctionWorker<R>,
)
    requires
        def.func_id@ == id,
        def.returns@ == targets,
        def.runner == runner,
        w.func_id@ == def.func_id@,
        w.returns@ == def.returns@,
        cloned(def.runner, w.runner),
    ensures
        w.func_id@ == id,
        w.returns@ == targets,
        cloned(runner, w.runner),
        (forall|a: R, b: R| cloned(a, b) ==> a == b) ==> w.runner == runner,
{
}

/// A definition whose runner is shared by reference gives workers that run
/// that very runner: cloning a reference copies it, so the worker built from
/// `FunctionDef::new(id, targets, runner)` holds `runner` itself.
pub proof fn lemma_worker_shares_runner<F: ?Sized>(
    id: Seq<char>,
    targets: ReturnTargetsView,
    runner: &F,
    def: FunctionDef<&F>,
    w: FunctionWorker<&F>,
)
    requires
        def.func_id@ == id,
        def.returns@ == targets,
        def.runner == runner,
        w.func_id@ == def.func_id@,
        w.returns@ == def.returns@,
        cloned(def.runner, w.runner),
    ensures
        w.func_id@ == id,
        w.returns@ == targets,
        w.runner == runner,
{
}

} // verus!
