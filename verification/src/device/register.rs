//! Building the device map from the configuration.
use vstd::prelude::*;

use crate::config::{DeviceKind, DeviceParam, DevicesConfig};
use crate::device::traits::{CameraDevice, Device, DeviceMap, DeviceView};
use crate::keyed::{filled_in_turn, lemma_filled_contains, lemma_filled_last};

verus! {

/// The device a configured entry stands for.
pub open spec fn param_device(p: DeviceParam) -> DeviceView {
    match p.kind {
        DeviceKind::Camera => DeviceView::Camera(p.path@),
    }
}

/// The map of the first `n` configured devices, later entries replacing earlier ones.
pub open spec fn devices_map(list: Seq<DeviceParam>, n: int) -> Map<Seq<char>, DeviceView>
    decreases n,
{
    if n <= 0 {
        Map::empty()
    } else {
        devices_map(list, n - 1).insert(list[n - 1].device_id@, param_device(list[n - 1]))
    }
}

/// A camera device at `path`.
pub fn register_camera(path: &str) -> (r: Device)
    ensures
        r@ == DeviceView::Camera(path@),
{
    Device::Camera(CameraDevice::new(path))
}

/// The device of a configured kind at `path`.
pub fn device_factory(kind: DeviceKind, path: &str) -> (r: Device)
    ensures
        r@ == match kind {
            DeviceKind::Camera => DeviceView::Camera(path@),
        },
{
    match kind {
        DeviceKind::Camera => register_camera(path),
    }
}

/// The map of all configured devices by id.
pub fn register_device(config: DevicesConfig) -> (r: DeviceMap)
    ensures
        r@ == devices_map(config.list@, config.list@.len() as int),
{
    let mut map = DeviceMap::new();
    let mut i: usize = 0;
    while i < config.list.len()
        invariant
            i <= config.list.len(),
            map@ == devices_map(config.list@, i as int),
        decreases config.list.len() - i,
    {
        let p = &config.list[i];
        map.add(p.device_id.as_str(), device_factory(p.kind, p.path.as_str()));
        i += 1;
    }
    map
}

/// The `(id, device)` pairs of the configured entries, in order.
pub open spec fn device_adds(list: Seq<DeviceParam>) -> Seq<(Seq<char>, DeviceView)> {
    list.map_values(|p: DeviceParam| (p.device_id@, param_device(p)))
}

proof fn lemma_devices_map_filled(list: Seq<DeviceParam>, n: int)
    requires
        0 <= n <= list.len(),
    ensures
        devices_map(list, n) == filled_in_turn(device_adds(list).take(n)),
    decreases n,
{
    if n > 0 {
        lemma_devices_map_filled(list, n - 1);
        assert(device_adds(list).take(n).drop_last() =~= device_adds(list).take(n - 1));
    } else {
        assert(device_adds(list).take(0) =~= Seq::<(Seq<char>, DeviceView)>::empty());
    }
}

/// The registered devices are exactly the configured ones: an id is present
/// exactly when some entry carries it, and it holds the camera at the path of
/// the last entry that carries it.
pub proof fn lemma_registered_devices(list: Seq<DeviceParam>, id: Seq<char>)
    ensures
        devices_map(list, list.len() as int).contains_key(id) <==> exists|i: int| 0 <= i < list.len() && list[i].device_id@ == id,
        forall|i: int| 0 <= i < list.len() && (#[trigger] list[i]).device_id@ == id
            && (forall|m: int| i < m < list.len() ==> list[m].device_id@ != id)
            ==> devices_map(list, list.len() as int)[id] == DeviceView::Camera(list[i].path@),
{
    let adds = device_adds(list);
    lemma_devices_map_filled(list, list.len() as int);
    assert(adds.take(list.len() as int) =~= adds);
    lemma_filled_contains(adds, id);
    if exists|i: int| 0 <= i < adds.len() && adds[i].0 == id {
        let i = choose|i: int| 0 <= i < adds.len() && adds[i].0 == id;
        assert(list[i].device_id@ == id);
    }
    if exists|i: int| 0 <= i < list.len() && list[i].device_id@ == id {
        let i = choose|i: int| 0 <= i < list.len() && list[i].device_id@ == id;
        assert(adds[i].0 == id);
    }
    assert forall|i: int| 0 <= i < list.len() && (#[trigger] list[i]).device_id@ == id
        && (forall|m: int| i < m < list.len() ==> list[m].device_id@ != id)
        implies devices_map(list, list.len() as int)[id] == DeviceView::Camera(list[i].path@) by {
        assert forall|m: int| i < m < adds.len() implies #[trigger] adds[m].0 != id by {
            assert(adds[m].0 == list[m].device_id@);
        }
        lemma_filled_last(adds, id, i);
        assert(adds[i].1 == param_device(list[i]));
    }
}

} // verus!
