//! What the task listener does with each incoming event: run its task, or
//! report why it cannot.
use vstd::prelude::*;
use vstd::string::*;

use crate::device::{Device, DeviceView};
use crate::func::output::{task_error_text, TaskError, TaskOutputView, CODE_ERROR};
use crate::func::tarits::{FunctionDef, FunctionWorker};
use crate::init::task_dispatch::{debug_function_id, Event, TaskDispatcher};
use crate::message::{message_views, MessageRouter, SinkMessage, SinkMessageView};

verus! {

/// The next thing to do for an event.
pub enum ListenStep<R> {
    /// Run the function on the device with the runtime parameter.
    Run { device: Device, worker: FunctionWorker<R>, runtime_param: u8 },
    /// The event could not be dispatched: send these messages.
    Report(Vec<SinkMessage>),
}

/// Why the device of an event cannot be found, as text, if it cannot.
pub open spec fn device_error(devices: Map<Seq<char>, DeviceView>, event: Event) -> Option<Seq<char>> {
    match event {
        Event::UsualEvent { device_id, .. } => if device_id@ == "none"@ || devices.contains_key(device_id@) {
            None
        } else {
            Some("unknown device_id `"@ + device_id@ + "`"@)
        },
        Event::DebugEvent(_) => None,
        Event::OtherEvent(message) => Some("unsupported event `"@ + message@ + "` while resolving device"@),
    }
}

/// Why the function of an event cannot be found, as text, if it cannot.
pub open spec fn func_error<R>(funcs: Map<Seq<char>, FunctionDef<R>>, event: Event) -> Option<Seq<char>> {
    match event {
        Event::UsualEvent { function_id, .. } => if funcs.contains_key(function_id@) {
            None
        } else {
            Some("unknown function_id `"@ + function_id@ + "`"@)
        },
        Event::DebugEvent(_) => if funcs.contains_key(debug_function_id()) {
            None
        } else {
            Some("unknown function_id `"@ + debug_function_id() + "`"@)
        },
        Event::OtherEvent(message) => Some("unsupported event `"@ + message@ + "` while resolving function"@),
    }
}

/// The messages that report a dispatch failure with `reason`.
pub open spec fn dispatch_report(router: MessageRouter, reason: Seq<char>) -> Seq<SinkMessageView> {
    if router.web {
        seq![SinkMessageView::Web(TaskOutputView {
            code: CODE_ERROR,
            text: "task dispatch failed: "@ + reason,
            value: None,
            image: None,
        })]
    } else {
        seq![]
    }
}

/// The id of the function an event runs.
pub open spec fn event_function_id(event: Event) -> Seq<char> {
    match event {
        Event::UsualEvent { function_id, .. } => function_id@,
        _ => debug_function_id(),
    }
}

/// The device an event runs on, when it can be found.
pub open spec fn event_device(devices: Map<Seq<char>, DeviceView>, event: Event) -> DeviceView {
    match event {
        Event::UsualEvent { device_id, .. } => if device_id@ == "none"@ {
            DeviceView::Absent
        } else {
            devices[device_id@]
        },
        _ => DeviceView::Absent,
    }
}

fn dispatch_failure(router: &MessageRouter, error: &TaskError) -> (r: Vec<SinkMessage>)
    ensures
        message_views(r@) == dispatch_report(*router, task_error_text(*error)),
{
    let mut text = String::from_str("task dispatch failed: ");
    let reason = error.message();
    text.append(reason.as_str());
    router.report_error(text)
}

/// Handles one event: the device is looked up first, then the function; the
/// first lookup that fails is reported (`task dispatch failed: <reason>`),
/// otherwise the task is run with the event's runtime parameter.
pub fn handle_event<R: Clone>(dispatcher: &TaskDispatcher<R>, router: &MessageRouter, event: &Event) -> (r: ListenStep<R>)
    ensures
        match device_error(dispatcher.device_map@, *event) {
            Some(reason) => r matches ListenStep::Report(ms) && message_views(ms@) == dispatch_report(*router, reason),
            None => match func_error(dispatcher.func_worker_map@, *event) {
                Some(reason) => r matches ListenStep::Report(ms) && message_views(ms@) == dispatch_report(*router, reason),
                None => r matches ListenStep::Run { device, worker, runtime_param } && device@ == event_device(
                    dispatcher.device_map@,
                    *event,
                ) && worker.func_id@ == dispatcher.func_worker_map@[event_function_id(*event)].func_id@
                    && worker.returns@ == dispatcher.func_worker_map@[event_function_id(*event)].returns@
                    && cloned(dispatcher.func_worker_map@[event_function_id(*event)].runner, worker.runner)
                    && runtime_param == match *event {
                    Event::UsualEvent { runtime_param, .. } => runtime_param,
                    _ => 0u8,
                },
            },
        },
{
    let device = match dispatcher.find_device(event) {
        Ok(d) => d,
        Err(e) => {
            return ListenStep::Report(dispatch_failure(router, &e));
        },
    };
    let worker = match dispatcher.find_func(event) {
        Ok(w) => w,
        Err(e) => {
            return ListenStep::Report(dispatch_failure(router, &e));
        },
    };
    let runtime_param = dispatcher.runtime_param(event);
    ListenStep::Run { device, worker, runtime_param }
}

/// An event is run exactly when what it names is registered: a usual event
/// when its function is registered and its device is "none" or registered, a
/// web debug event when the debug function is registered, any other event
/// never; a usual event runs on the device registered under its id (no device
/// for "none"), and a debug event on no device.
pub proof fn lemma_event_runs_when_resolved<R>(
    devices: Map<Seq<char>, DeviceView>,
    funcs: Map<Seq<char>, FunctionDef<R>>,
    event: Event,
)
    ensures
        (device_error(devices, event) is None && func_error(funcs, event) is None) <==> match event {
            Event::UsualEvent { device_id, function_id, .. } => (device_id@ == "none"@ || devices.contains_key(device_id@))
                && funcs.contains_key(function_id@),
            Event::DebugEvent(_) => funcs.contains_key("debug_fun"@),
            Event::OtherEvent(_) => false,
        },
        match event {
            Event::UsualEvent { device_id, .. } => device_id@ != "none"@ && devices.contains_key(device_id@) ==> event_device(
                devices,
                event,
            ) == devices[device_id@],
            _ => event_device(devices, event) == DeviceView::Absent,
        },
        event_function_id(event) == match event {
            Event::UsualEvent { function_id, .. } => function_id@,
            _ => "debug_fun"@,
        },
{
}

/// A dispatch failure is reported only on the web channel, as an error output
/// whose text is `task dispatch failed: ` and the reason; without the web
/// channel nothing is sent.
pub proof fn lemma_dispatch_failure_reported(router: MessageRouter, reason: Seq<char>)
    ensures
        dispatch_report(router, reason).len() == (if router.web { 1int } else { 0 }),
        router.web ==> (dispatch_report(router, reason)[0] matches SinkMessageView::Web(o) && o.code == CODE_ERROR
            && o.text == "task dispatch failed: "@ + reason && o.value is None),
{
}

} // verus!
