//! Resolving an event to the device, function and runtime parameter of its task.
use vstd::prelude::*;
use vstd::string::*;

use crate::device::{Device, DeviceMap, DeviceView};
use crate::func::output::{Resolving, TaskError, TaskOutput};
use crate::func::tarits::{FuncWorkerMap, FunctionWorker};

verus! {

/// An input event.
#[derive(Debug, Clone)]
pub enum Event {
    /// A bound source fired: run `function_id` on `device_id` with `runtime_param`.
    UsualEvent { task_id: String, function_id: String, device_id: String, runtime_param: u8 },
    /// A debug request: run the debug function without a device.
    DebugEvent(String),
    /// Anything else: it cannot be turned into a task.
    OtherEvent(String),
}

/// The id of the function that debug events run.
pub open spec fn debug_function_id() -> Seq<char> {
    "debug_fun"@
}

/// Looks up the device and function of events.
pub struct TaskDispatcher<R> {
    pub func_worker_map: FuncWorkerMap<R>,
    pub device_map: DeviceMap,
}

impl<R: Clone> TaskDispatcher<R> {
    /// A dispatcher over the registered functions and devices.
    pub fn new(func_worker_map: FuncWorkerMap<R>, device_map: DeviceMap) -> (r: Self)
        ensures
            r.func_worker_map@ == func_worker_map@,
            r.device_map@ == device_map@,
    {
        TaskDispatcher { func_worker_map, device_map }
    }

    /// The device of the event's task: none for debug events and for the
    /// device id `none`, otherwise the registered device.
    pub fn find_device(&self, event: &Event) -> (r: Result<Device, TaskError>)
        ensures
            match event {
                Event::UsualEvent { device_id, .. } => if device_id@ == "none"@ {
                    r matches Ok(d) && d@ == DeviceView::Absent
                } else if self.device_map@.contains_key(device_id@) {
                    r matches Ok(d) && d@ == self.device_map@[device_id@]
                } else {
                    r matches Err(TaskError::UnknownDevice { device_id: id }) && id@ == device_id@
                },
                Event::DebugEvent(_) => r matches Ok(d) && d@ == DeviceView::Absent,
                Event::OtherEvent(message) => r matches Err(TaskError::UnsupportedEvent { message: m, resolving })
                    && m@ == message@ && resolving == Resolving::Device,
            },
    {
        match event {
            Event::UsualEvent { device_id, .. } => {
                if *device_id == String::from_str("none") {
                    Ok(Device::Absent)
                } else {
                    match self.device_map.get_device(device_id.as_str()) {
                        Some(d) => Ok(d),
                        None => Err(TaskError::UnknownDevice { device_id: device_id.clone() }),
                    }
                }
            },
            Event::DebugEvent(_) => Ok(Device::Absent),
            Event::OtherEvent(message) => Err(
                TaskError::UnsupportedEvent { message: message.clone(), resolving: Resolving::Device },
            ),
        }
    }

    /// A worker for the event's function: the debug function for debug events.
    pub fn find_func(&self, event: &Event) -> (r: Result<FunctionWorker<R>, TaskError>)
        ensures
            match event {
                Event::UsualEvent { function_id, .. } => if self.func_worker_map@.contains_key(function_id@) {
                    r matches Ok(w) && w.func_id@ == self.func_worker_map@[function_id@].func_id@
                        && w.returns@ == self.func_worker_map@[function_id@].returns@
                        && cloned(self.func_worker_map@[function_id@].runner, w.runner)
                } else {
                    r matches Err(TaskError::UnknownFunction { function_id: id }) && id@ == function_id@
                },
                Event::DebugEvent(_) => if self.func_worker_map@.contains_key(debug_function_id()) {
                    r matches Ok(w) && w.func_id@ == self.func_worker_map@[debug_function_id()].func_id@
                        && w.returns@ == self.func_worker_map@[debug_function_id()].returns@
                        && cloned(self.func_worker_map@[debug_function_id()].runner, w.runner)
                } else {
                    r matches Err(TaskError::UnknownFunction { function_id: id }) && id@ == debug_function_id()
                },
                Event::OtherEvent(message) => r matches Err(TaskError::UnsupportedEvent { message: m, resolving })
                    && m@ == message@ && resolving == Resolving::Function,
            },
    {
        match event {
            Event::UsualEvent { function_id, .. } => self.func_worker_map.get_func(function_id.as_str()),
            Event::DebugEvent(_) => self.func_worker_map.get_func("debug_fun"),
            Event::OtherEvent(message) => Err(
                TaskError::UnsupportedEvent { message: message.clone(), resolving: Resolving::Function },
            ),
        }
    }

    /// The runtime parameter of the event: zero unless it is a usual event.
    pub fn runtime_param(&self, event: &Event) -> (r: u8)
        ensures
            r == match event {
                Event::UsualEvent { runtime_param, .. } => *runtime_param,
                _ => 0u8,
            },
    {
        match event {
            Event::UsualEvent { runtime_param, .. } => *runtime_param,
            Event::DebugEvent(_) | Event::OtherEvent(_) => 0,
        }
    }
}

} // verus!
