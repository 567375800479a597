//! The device values and the id-to-device map.
use vstd::prelude::*;
use vstd::string::*;

use crate::keyed::{filled_in_turn, lemma_filled_contains, lemma_filled_last, lemma_steps_fill};

verus! {

/// A camera, known by the path of its video device.
#[derive(Debug, Clone)]
pub struct CameraDevice {
    pub path: String,
}

impl CameraDevice {
    /// A camera at `path`.
    pub fn new(path: &str) -> (r: Self)
        ensures
            r.path@ == path@,
    {
        CameraDevice { path: String::from_str(path) }
    }

    /// The path of the camera's video device.
    pub fn path(&self) -> (r: &str)
        ensures
            r@ == self.path@,
    {
        self.path.as_str()
    }
}

/// The device a task runs on.
#[derive(Debug, Clone)]
pub enum Device {
    Camera(CameraDevice),
    Absent,
}

/// A device as text: the camera path, or no device.
pub enum DeviceView {
    Camera(Seq<char>),
    Absent,
}

impl View for Device {
    type V = DeviceView;

    open spec fn view(&self) -> DeviceView {
        match self {
            Device::Camera(c) => DeviceView::Camera(c.path@),
            Device::Absent => DeviceView::Absent,
        }
    }
}

impl Device {
    /// A copy of the device.
    pub fn duplicate(&self) -> (r: Device)
        ensures
            r@ == self@,
    {
        match self {
            Device::Camera(c) => Device::Camera(CameraDevice { path: c.path.clone() }),
            Device::Absent => Device::Absent,
        }
    }

    /// The device as text: `Camera(<path>)` or `None`.
    pub fn describe(&self) -> (r: String)
        ensures
            r@ == match self@ {
                DeviceView::Camera(p) => "Camera("@ + p + ")"@,
                DeviceView::Absent => "None"@,
            },
    {
        match self {
            Device::Camera(c) => {
                let mut s = String::from_str("Camera(");
                s.append(c.path.as_str());
                s.append(")");
                s
            },
            Device::Absent => String::from_str("None"),
        }
    }
}

/// `j` is the last position of `entries` whose id is `k`.
pub open spec fn last_index(entries: Seq<(String, Device)>, k: Seq<char>, j: int) -> bool {
    &&& 0 <= j < entries.len()
    &&& entries[j].0@ == k
    &&& forall|m: int| j < m < entries.len() ==> entries[m].0@ != k
}

/// The device registered last under `k`, if any.
pub open spec fn lookup(entries: Seq<(String, Device)>, k: Seq<char>) -> Option<DeviceView> {
    if exists|j: int| last_index(entries, k, j) {
        Some(entries[choose|j: int| last_index(entries, k, j)].1@)
    } else {
        None
    }
}

proof fn lemma_last_index_unique(entries: Seq<(String, Device)>, k: Seq<char>, a: int, b: int)
    requires
        last_index(entries, k, a),
        last_index(entries, k, b),
    ensures
        a == b,
{
}

proof fn lemma_lookup_at(entries: Seq<(String, Device)>, k: Seq<char>, j: int)
    requires
        last_index(entries, k, j),
    ensures
        lookup(entries, k) == Some(entries[j].1@),
{
    let c = choose|i: int| last_index(entries, k, i);
    lemma_last_index_unique(entries, k, j, c);
}

/// Devices by id. Adding under an id that is already present replaces its device.
pub struct DeviceMap {
    entries: Vec<(String, Device)>,
}

impl View for DeviceMap {
    type V = Map<Seq<char>, DeviceView>;

    closed spec fn view(&self) -> Map<Seq<char>, DeviceView> {
        Map::new(|k: Seq<char>| lookup(self.entries@, k) is Some, |k: Seq<char>| lookup(self.entries@, k)->0)
    }
}

impl DeviceMap {
    /// An empty map.
    pub fn new() -> (r: DeviceMap)
        ensures
            r@ == Map::<Seq<char>, DeviceView>::empty(),
    {
        let r = DeviceMap { entries: Vec::new() };
        assert(r@ =~= Map::<Seq<char>, DeviceView>::empty());
        r
    }

    /// The last position registered under `key`, if any.
    fn find_last(&self, key: &String) -> (r: Option<usize>)
        ensures
            r matches Some(j) ==> last_index(self.entries@, key@, j as int),
            r is None ==> forall|m: int| 0 <= m < self.entries@.len() ==> self.entries@[m].0@ != key@,
    {
        let mut j = self.entries.len();
        while j > 0
            invariant
                j <= self.entries.len(),
                forall|m: int| j <= m < self.entries@.len() ==> self.entries@[m].0@ != key@,
            decreases j,
        {
            if self.entries[j - 1].0 == *key {
                return Some(j - 1);
            }
            j -= 1;
        }
        None
    }

    /// Registers `device` under `device_id`.
    pub fn add(&mut self, device_id: &str, device: Device)
        ensures
            final(self)@ == old(self)@.insert(device_id@, device@),
    {
        let ghost before = self.entries@;
        let key = String::from_str(device_id);
        let ghost dv = device@;
        match self.find_last(&key) {
            Some(idx) => {
                self.entries.set(idx, (key, device));
                let ghost after = self.entries@;
                assert(after == before.update(idx as int, after[idx as int]));
                assert(last_index(after, device_id@, idx as int));
                assert forall|k: Seq<char>| k != device_id@ implies lookup(after, k) == lookup(before, k) by {
                    assert forall|i: int| last_index(after, k, i) <==> last_index(before, k, i) by {
                        if last_index(after, k, i) {
                            assert(i != idx);
                            assert forall|m: int| i < m < before.len() implies before[m].0@ != k by {
                                if m != idx {
                                    assert(after[m] == before[m]);
                                }
                            }
                        }
                        if last_index(before, k, i) {
                            assert(i != idx);
                            assert forall|m: int| i < m < after.len() implies after[m].0@ != k by {
                                if m != idx {
                                    assert(after[m] == before[m]);
                                }
                            }
                        }
                    }
                    if exists|i: int| last_index(before, k, i) {
                        let i = choose|i: int| last_index(before, k, i);
                        lemma_lookup_at(after, k, i);
                        lemma_lookup_at(before, k, i);
                    }
                }
                proof {
                    lemma_lookup_at(after, device_id@, idx as int);
                }
                assert(self@ =~= old(self)@.insert(device_id@, dv));
            },
            None => {
                self.entries.push((key, device));
                let ghost after = self.entries@;
                assert(last_index(after, device_id@, before.len() as int));
                assert forall|k: Seq<char>| k != device_id@ implies lookup(after, k) == lookup(before, k) by {
                    assert forall|i: int| last_index(after, k, i) <==> last_index(before, k, i) by {
                        if last_index(after, k, i) {
                            assert(i != before.len());
                            assert forall|m: int| i < m < before.len() implies before[m].0@ != k by {
                                assert(after[m] == before[m]);
                            }
                        }
                        if last_index(before, k, i) {
                            assert forall|m: int| i < m < after.len() implies after[m].0@ != k by {
                                if m < before.len() {
                                    assert(after[m] == before[m]);
                                }
                            }
                        }
                    }
                    if exists|i: int| last_index(before, k, i) {
                        let i = choose|i: int| last_index(before, k, i);
                        lemma_lookup_at(after, k, i);
                        lemma_lookup_at(before, k, i);
                    }
                }
                proof {
                    lemma_lookup_at(after, device_id@, before.len() as int);
                }
                assert(self@ =~= old(self)@.insert(device_id@, dv));
            },
        }
    }

    /// A copy of the device registered under `device_id`, if any.
    pub fn get_device(&self, device_id: &str) -> (r: Option<Device>)
        ensures
            match r {
                Some(d) => self@.contains_key(device_id@) && self@[device_id@] == d@,
                None => !self@.contains_key(device_id@),
            },
    {
        let key = String::from_str(device_id);
        let mut j = self.entries.len();
        while j > 0
            invariant
                j <= self.entries.len(),
                key@ == device_id@,
                forall|m: int| j <= m < self.entries@.len() ==> self.entries@[m].0@ != device_id@,
            decreases j,
        {
            if self.entries[j - 1].0 == key {
                proof {
                    lemma_lookup_at(self.entries@, device_id@, j - 1);
                }
                return Some(self.entries[j - 1].1.duplicate());
            }
            j -= 1;
        }
        assert(!(exists|i: int| last_index(self.entries@, device_id@, i)));
        None
    }
}

/// A device reads back as it was added: after `add(id, d)` the map holds `d`
/// under `id`, and every other id holds what it held before (or stays absent).
pub proof fn lemma_device_read_after_add(before: DeviceMap, after: DeviceMap, id: Seq<char>, d: DeviceView, other: Seq<char>)
    requires
        after@ == before@.insert(id, d),
    ensures
        after@.contains_key(id),
        after@[id] == d,
        other != id ==> (after@.contains_key(other) <==> before@.contains_key(other)),
        other != id && before@.contains_key(other) ==> after@[other] == before@[other],
{
}

/// A device map filled by a sequence of adds: when `states[0]` is empty and
/// each `states[k + 1]` is `states[k]` after `add(adds[k].0, adds[k].1)`, the
/// last state holds an id exactly when some add used it, and then holds the
/// device of the last add under that id.
pub proof fn lemma_devices_after_adds(states: Seq<DeviceMap>, adds: Seq<(Seq<char>, DeviceView)>, f: Seq<char>)
    requires
        states.len() == adds.len() + 1,
        states[0]@ == Map::<Seq<char>, DeviceView>::empty(),
        forall|k: int| 0 <= k < adds.len() ==> states[k + 1]@ == states[k]@.insert(adds[k].0, adds[k].1),
    ensures
        states.last()@ == filled_in_turn(adds),
        states.last()@.contains_key(f) <==> exists|i: int| 0 <= i < adds.len() && adds[i].0 == f,
        forall|i: int| 0 <= i < adds.len() && adds[i].0 == f
            && (forall|m: int| i < m < adds.len() ==> adds[m].0 != f) ==> states.last()@[f] == adds[i].1,
{
    let maps = Seq::new(states.len(), |j: int| states[j]@);
    lemma_steps_fill(maps, adds, adds.len() as int);
    assert(adds.take(adds.len() as int) =~= adds);
    lemma_filled_contains(adds, f);
    assert forall|i: int| 0 <= i < adds.len() && adds[i].0 == f
        && (forall|m: int| i < m < adds.len() ==> adds[m].0 != f) implies states.last()@[f] == adds[i].1 by {
        lemma_filled_last(adds, f, i);
    }
}

} // verus!
