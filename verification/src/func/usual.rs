//! The argument-driven vision tasks: each reads its configuration from the
//! task arguments and the camera, may light the task lamp, runs the detection,
//! sends the value over the serial line and reports to the web console. The
//! camera, lamp and serial line are driven by the steps handed in; the order
//! of the steps and the messages are decided here.
use vstd::prelude::*;
use vstd::string::*;

use crate::config::runtime::ReturnTargets;
use crate::device::{CameraDevice, Device, DeviceView};
use crate::func::output::{task_error_text, TaskError, TaskOutput, TaskOutputView, CODE_ERROR, CODE_OK};
use crate::config::legacy::{join_comma, texts};
use crate::text::{decimal_string, int_decimal};

verus! {

/// The message shown on the web console for a task.
pub type WebMessage = TaskOutput;

/// A successful report with `text`.
pub open spec fn ok_report(text: Seq<char>) -> TaskOutputView {
    TaskOutputView { code: CODE_OK, text, value: None, image: None }
}

/// The report of a task that failed with `error`.
pub open spec fn failed_report(task: Seq<char>, error: Seq<char>) -> TaskOutputView {
    TaskOutputView { code: CODE_ERROR, text: task + " failed: "@ + error, value: None, image: None }
}

/// What the report says of the serial line.
pub open spec fn serial_status(sent: Result<(), String>) -> Seq<char> {
    match sent {
        Ok(()) => "serial=sent"@,
        Err(e) => "serial=failed("@ + e@ + ")"@,
    }
}

/// The report of a task: its message, or its failure.
pub fn into_web_message(task_name: &str, result: Result<WebMessage, String>) -> (r: WebMessage)
    ensures
        match result {
            Ok(m) => r@ == m@,
            Err(e) => r@ == failed_report(task_name@, e@),
        },
{
    match result {
        Ok(message) => message,
        Err(e) => {
            let mut text = String::from_str(task_name);
            text.append(" failed: ");
            text.append(e.as_str());
            TaskOutput::error(text)
        },
    }
}

/// Sends `value` over the serial line with `send` and says how that went;
/// a failed send does not fail the task.
fn send_result_to_serial<G, S: Fn(&G, &String) -> Result<(), String>>(send: &S, config: &G, value: &String) -> (r: String)
    requires
        call_requires(*send, (config, value)),
    ensures
        exists|sent: Result<(), String>| call_ensures(*send, (config, value), sent) && r@ == serial_status(sent),
{
    let sent = send(config, value);
    let ghost outcome = sent;
    assert(call_ensures(*send, (config, value), outcome));
    let r = match sent {
        Ok(()) => String::from_str("serial=sent"),
        Err(e) => {
            let mut s = String::from_str("serial=failed(");
            s.append(e.as_str());
            s.append(")");
            s
        },
    };
    assert(r@ == serial_status(outcome));
    r
}

/// After the lamp step: the detection, the serial send and the report of a
/// colour or QR task named `task`, whose detected value reads as `text_of(value)`.
pub open spec fn detect_then_send<G, V, D: Fn(&G) -> Result<V, String>, S: Fn(&G, &String) -> Result<(), String>>(
    task: Seq<char>,
    detect: D,
    send: S,
    config: G,
    text_of: spec_fn(V) -> Seq<char>,
    r: TaskOutputView,
) -> bool {
    exists|det: Result<V, String>| #[trigger] call_ensures(detect, (&config,), det) && match det {
        Err(e) => r == failed_report(task, e@),
        Ok(v) => exists|value: String, sent: Result<(), String>| value@ == text_of(v) && #[trigger] call_ensures(send, (&config, &value), sent)
            && r == ok_report(task + " finished: "@ + text_of(v) + "; "@ + serial_status(sent)),
    }
}

/// A colour or QR task after its configuration was read: the lamp (only when
/// the function reports on GPIO), then detection, send and report.
pub open spec fn light_then_detect<G, V, L: Fn(&G) -> Result<(), String>, D: Fn(&G) -> Result<V, String>, S: Fn(&G, &String) -> Result<(), String>>(
    task: Seq<char>,
    lamp: bool,
    light: L,
    detect: D,
    send: S,
    config: G,
    text_of: spec_fn(V) -> Seq<char>,
    r: TaskOutputView,
) -> bool {
    if lamp {
        exists|lit: Result<(), String>| #[trigger] call_ensures(light, (&config,), lit) && match lit {
            Err(e) => r == failed_report(task, e@),
            Ok(()) => detect_then_send(task, detect, send, config, text_of, r),
        }
    } else {
        detect_then_send(task, detect, send, config, text_of, r)
    }
}

/// The whole colour or QR task on `camera`.
pub open spec fn vision_task<G, V, C: Fn(&Vec<String>, &CameraDevice) -> Result<G, String>, L: Fn(&G) -> Result<(), String>, D: Fn(&G) -> Result<V, String>, S: Fn(&G, &String) -> Result<(), String>>(
    task: Seq<char>,
    args: Vec<String>,
    camera: CameraDevice,
    lamp: bool,
    configure: C,
    light: L,
    detect: D,
    send: S,
    text_of: spec_fn(V) -> Seq<char>,
    r: TaskOutputView,
) -> bool {
    exists|cfg: Result<G, String>| #[trigger] call_ensures(configure, (&args, &camera), cfg) && match cfg {
        Err(e) => r == failed_report(task, e@),
        Ok(g) => light_then_detect(task, lamp, light, detect, send, g, text_of, r),
    }
}

/// How a detected colour name reads.
pub open spec fn name_text() -> spec_fn(String) -> Seq<char> {
    |v: String| v@
}

/// How a detected task number reads.
pub open spec fn number_text() -> spec_fn(i32) -> Seq<char> {
    |v: i32| int_decimal(v as int)
}

/// Why a task that needs a camera cannot run without one.
pub open spec fn camera_required() -> Seq<char> {
    task_error_text(TaskError::CameraRequired)
}

/// The camera of a task that needs one.
pub open spec fn camera_of(device: Device) -> CameraDevice {
    match device {
        Device::Camera(c) => c,
        Device::Absent => arbitrary(),
    }
}

fn color_detect_impl<G, C, L, D, S>(
    args: &Vec<String>,
    camera: &CameraDevice,
    targets: &ReturnTargets,
    configure: &C,
    light: &L,
    detect: &D,
    send: &S,
) -> (r: Result<WebMessage, String>)
    where
        C: Fn(&Vec<String>, &CameraDevice) -> Result<G, String>,
        L: Fn(&G) -> Result<(), String>,
        D: Fn(&G) -> Result<String, String>,
        S: Fn(&G, &String) -> Result<(), String>,
    requires
        forall|a: &Vec<String>, c: &CameraDevice| call_requires(*configure, (a, c)),
        forall|g: &G| call_requires(*light, (g,)),
        forall|g: &G| call_requires(*detect, (g,)),
        forall|g: &G, v: &String| call_requires(*send, (g, v)),
    ensures
        vision_task("color_detect"@, *args, *camera, targets.gpio is Some, *configure, *light, *detect, *send,
            name_text(), into_web_message_view("color_detect"@, r)),
{
    let config = match configure(args, camera) {
        Ok(c) => c,
        Err(e) => {
            return Err(e);
        },
    };
    if targets.gpio.is_some() {
        match light(&config) {
            Ok(()) => {},
            Err(e) => {
                return Err(e);
            },
        }
    }
    let color_name = match detect(&config) {
        Ok(c) => c,
        Err(e) => {
            return Err(e);
        },
    };
    let ghost detected = Ok::<String, String>(color_name);
    assert(call_ensures(*detect, (&config,), detected));
    let status = send_result_to_serial(send, &config, &color_name);
    let mut text = String::from_str("color_detect");
    text.append(" finished: ");
    text.append(color_name.as_str());
    text.append("; ");
    text.append(status.as_str());
    let out = TaskOutput::ok(text);
    proof {
        let sent = choose|sent: Result<(), String>| call_ensures(*send, (&config, &color_name), sent) && status@ == serial_status(sent);
        assert(name_text()(color_name) == color_name@);
        assert(out@ == ok_report("color_detect"@ + " finished: "@ + name_text()(color_name) + "; "@ + serial_status(sent)));
        assert(detect_then_send("color_detect"@, *detect, *send, config, name_text(), out@));
    }
    Ok(out)
}

/// The report of a task's result: the message, or the failure under the task's name.
pub open spec fn into_web_message_view(task: Seq<char>, result: Result<WebMessage, String>) -> TaskOutputView {
    match result {
        Ok(m) => m@,
        Err(e) => failed_report(task, e@),
    }
}

/// The colour task: reads its configuration (`configure`), lights the colour
/// lamp when the function reports on GPIO (`light`), detects the colour
/// (`detect`), sends it over the serial line (`send`) and reports
/// `color_detect finished: <colour>; serial=...`; the first step that fails
/// ends the task with `color_detect failed: <error>`.
/// Without a camera the task reports that it requires one.
pub fn fn_color_detect<G, C, L, D, S>(
    args: &Vec<String>,
    device: &Device,
    targets: &ReturnTargets,
    configure: C,
    light: L,
    detect: D,
    send: S,
) -> (r: WebMessage)
    where
        C: Fn(&Vec<String>, &CameraDevice) -> Result<G, String>,
        L: Fn(&G) -> Result<(), String>,
        D: Fn(&G) -> Result<String, String>,
        S: Fn(&G, &String) -> Result<(), String>,
    requires
        forall|a: &Vec<String>, c: &CameraDevice| call_requires(configure, (a, c)),
        forall|g: &G| call_requires(light, (g,)),
        forall|g: &G| call_requires(detect, (g,)),
        forall|g: &G, v: &String| call_requires(send, (g, v)),
    ensures
        match device@ {
            DeviceView::Absent => r@ == failed_report("color_detect"@, camera_required()),
            DeviceView::Camera(_) => vision_task("color_detect"@, *args, camera_of(*device), targets.gpio is Some, configure, light, detect, send,
            name_text(), r@),
        },
{
    let camera = match device {
        Device::Camera(c) => c,
        Device::Absent => {
            return into_web_message("color_detect", Err(TaskError::CameraRequired.message()));
        },
    };
    let result = color_detect_impl(args, camera, targets, &configure, &light, &detect, &send);
    into_web_message("color_detect", result)
}

fn qr_detect_impl<G, C, L, D, S>(
    args: &Vec<String>,
    camera: &CameraDevice,
    targets: &ReturnTargets,
    configure: &C,
    light: &L,
    detect: &D,
    send: &S,
) -> (r: Result<WebMessage, String>)
    where
        C: Fn(&Vec<String>, &CameraDevice) -> Result<G, String>,
        L: Fn(&G) -> Result<(), String>,
        D: Fn(&G) -> Result<i32, String>,
        S: Fn(&G, &String) -> Result<(), String>,
    requires
        forall|a: &Vec<String>, c: &CameraDevice| call_requires(*configure, (a, c)),
        forall|g: &G| call_requires(*light, (g,)),
        forall|g: &G| call_requires(*detect, (g,)),
        forall|g: &G, v: &String| call_requires(*send, (g, v)),
    ensures
        vision_task("qr_detect"@, *args, *camera, targets.gpio is Some, *configure, *light, *detect, *send,
            number_text(), into_web_message_view("qr_detect"@, r)),
{
    let config = match configure(args, camera) {
        Ok(c) => c,
        Err(e) => {
            return Err(e);
        },
    };
    if targets.gpio.is_some() {
        match light(&config) {
            Ok(()) => {},
            Err(e) => {
                return Err(e);
            },
        }
    }
    let task_num = match detect(&config) {
        Ok(n) => n,
        Err(e) => {
            return Err(e);
        },
    };
    let ghost detected = Ok::<i32, String>(task_num);
    assert(call_ensures(*detect, (&config,), detected));
    let task_num_text = decimal_string(task_num as i64);
    let status = send_result_to_serial(send, &config, &task_num_text);
    let mut text = String::from_str("qr_detect");
    text.append(" finished: ");
    text.append(task_num_text.as_str());
    text.append("; ");
    text.append(status.as_str());
    let out = TaskOutput::ok(text);
    proof {
        let sent = choose|sent: Result<(), String>| call_ensures(*send, (&config, &task_num_text), sent) && status@ == serial_status(sent);
        assert(number_text()(task_num) == task_num_text@);
        assert(out@ == ok_report("qr_detect"@ + " finished: "@ + number_text()(task_num) + "; "@ + serial_status(sent)));
        assert(detect_then_send("qr_detect"@, *detect, *send, config, number_text(), out@));
    }
    Ok(out)
}

/// The QR task: reads its configuration (`configure`), lights the QR lamp when
/// the function reports on GPIO (`light`), reads the task number from a QR
/// code (`detect`), sends it over the serial line (`send`) and reports
/// `qr_detect finished: <number>; serial=...`; the first step that fails ends
/// the task with `qr_detect failed: <error>`.
/// Without a camera the task reports that it requires one.
pub fn fn_qr_detect<G, C, L, D, S>(
    args: &Vec<String>,
    device: &Device,
    targets: &ReturnTargets,
    configure: C,
    light: L,
    detect: D,
    send: S,
) -> (r: WebMessage)
    where
        C: Fn(&Vec<String>, &CameraDevice) -> Result<G, String>,
        L: Fn(&G) -> Result<(), String>,
        D: Fn(&G) -> Result<i32, String>,
        S: Fn(&G, &String) -> Result<(), String>,
    requires
        forall|a: &Vec<String>, c: &CameraDevice| call_requires(configure, (a, c)),
        forall|g: &G| call_requires(light, (g,)),
        forall|g: &G| call_requires(detect, (g,)),
        forall|g: &G, v: &String| call_requires(send, (g, v)),
    ensures
        match device@ {
            DeviceView::Absent => r@ == failed_report("qr_detect"@, camera_required()),
            DeviceView::Camera(_) => vision_task("qr_detect"@, *args, camera_of(*device), targets.gpio is Some, configure, light, detect, send,
            number_text(), r@),
        },
{
    let camera = match device {
        Device::Camera(c) => c,
        Device::Absent => {
            return into_web_message("qr_detect", Err(TaskError::CameraRequired.message()));
        },
    };
    let result = qr_detect_impl(args, camera, targets, &configure, &light, &detect, &send);
    into_web_message("qr_detect", result)
}

/// The cross task on `camera`: configuration, then detection, then the report.
pub open spec fn cross_task<G, C: Fn(&Vec<String>, &CameraDevice) -> Result<G, String>, D: Fn(&G) -> Result<String, String>>(
    args: Vec<String>,
    camera: CameraDevice,
    configure: C,
    detect: D,
    r: TaskOutputView,
) -> bool {
    exists|cfg: Result<G, String>| #[trigger] call_ensures(configure, (&args, &camera), cfg) && match cfg {
        Err(e) => r == failed_report("cross_detect"@, e@),
        Ok(g) => exists|det: Result<String, String>| #[trigger] call_ensures(detect, (&g,), det) && match det {
            Err(e) => r == failed_report("cross_detect"@, e@),
            Ok(v) => r == ok_report("cross_detect"@ + " finished: "@ + v@),
        },
    }
}

fn cross_detect_impl<G, C, D>(args: &Vec<String>, camera: &CameraDevice, configure: &C, detect: &D) -> (r: Result<WebMessage, String>)
    where
        C: Fn(&Vec<String>, &CameraDevice) -> Result<G, String>,
        D: Fn(&G) -> Result<String, String>,
    requires
        forall|a: &Vec<String>, c: &CameraDevice| call_requires(*configure, (a, c)),
        forall|g: &G| call_requires(*detect, (g,)),
    ensures
        cross_task(*args, *camera, *configure, *detect, into_web_message_view("cross_detect"@, r)),
{
    let config = match configure(args, camera) {
        Ok(c) => c,
        Err(e) => {
            return Err(e);
        },
    };
    let result = match detect(&config) {
        Ok(v) => v,
        Err(e) => {
            return Err(e);
        },
    };
    let mut text = String::from_str("cross_detect");
    text.append(" finished: ");
    text.append(result.as_str());
    Ok(TaskOutput::ok(text))
}

/// The cross task: reads its configuration (`configure`), detects the cross
/// (`detect`) and reports `cross_detect finished: <result>`; the first step
/// that fails ends the task with `cross_detect failed: <error>`.
/// Without a camera the task reports that it requires one.
pub fn fn_cross_detect<G, C, D>(args: &Vec<String>, device: &Device, targets: &ReturnTargets, configure: C, detect: D) -> (r: WebMessage)
    where
        C: Fn(&Vec<String>, &CameraDevice) -> Result<G, String>,
        D: Fn(&G) -> Result<String, String>,
    requires
        forall|a: &Vec<String>, c: &CameraDevice| call_requires(configure, (a, c)),
        forall|g: &G| call_requires(detect, (g,)),
    ensures
        match device@ {
            DeviceView::Absent => r@ == failed_report("cross_detect"@, camera_required()),
            DeviceView::Camera(_) => cross_task(*args, camera_of(*device), configure, detect, r@),
        },
{
    let camera = match device {
        Device::Camera(c) => c,
        Device::Absent => {
            return into_web_message("cross_detect", Err(TaskError::CameraRequired.message()));
        },
    };
    let result = cross_detect_impl(args, camera, &configure, &detect);
    into_web_message("cross_detect", result)
}

/// The arguments joined with `,`.
pub fn join_args(args: &Vec<String>) -> (r: String)
    ensures
        r@ == join_comma(texts(args@)),
{
    let mut out = String::new();
    let mut i: usize = 0;
    while i < args.len()
        invariant
            i <= args.len(),
            out@ == join_comma(texts(args@.take(i as int))),
        decreases args.len() - i,
    {
        let ghost prev = texts(args@.take(i as int));
        let ghost next = texts(args@.take(i + 1));
        assert(next.drop_last() =~= prev);
        assert(next.last() == args@[i as int]@);
        if i > 0 {
            out.append(",");
        }
        out.append(args[i].as_str());
        proof {
            if i == 0 {
                assert(prev.len() == 0);
                assert(out@ =~= join_comma(next));
            } else {
                assert(out@ =~= join_comma(next));
            }
        }
        i += 1;
    }
    assert(args@.take(i as int) =~= args@);
    out
}

/// The debug task's report: `this is the debug function <arguments joined with ,>`.
pub fn fn_debug(args: &Vec<String>, device: &Device, targets: &ReturnTargets) -> (r: WebMessage)
    ensures
        r@ == ok_report("this is the debug function "@ + join_comma(texts(args@))),
{
    let mut text = String::from_str("this is the debug function ");
    let joined = join_args(args);
    text.append(joined.as_str());
    TaskOutput::ok(text)
}

/// A task report is either a success or a failure under the task's name: a
/// success has the success code and a text that starts with
/// `<task> finished: `, a failure has the error code and a text that starts
/// with `<task> failed: `; neither carries a value or an image.
pub open spec fn task_report_shape(task: Seq<char>, r: TaskOutputView) -> bool {
    &&& r.value is None
    &&& r.image is None
    &&& (r.code == CODE_OK && (task + " finished: "@).is_prefix_of(r.text)) || (r.code == CODE_ERROR && (task
        + " failed: "@).is_prefix_of(r.text))
}

proof fn lemma_failed_shape(task: Seq<char>, e: Seq<char>)
    ensures
        task_report_shape(task, failed_report(task, e)),
{
    assert((task + " failed: "@).is_prefix_of(task + " failed: "@ + e)) by {
        assert((task + " failed: "@ + e).subrange(0, (task + " failed: "@).len() as int) =~= task + " failed: "@);
    }
}

proof fn lemma_ok_shape(task: Seq<char>, rest: Seq<char>)
    ensures
        task_report_shape(task, ok_report(task + " finished: "@ + rest)),
{
    assert((task + " finished: "@).is_prefix_of(task + " finished: "@ + rest)) by {
        assert((task + " finished: "@ + rest).subrange(0, (task + " finished: "@).len() as int) =~= task + " finished: "@);
    }
}

/// Every report of a colour or QR task is a success or a failure under the
/// task's name (`task_report_shape`), whatever the steps handed in returned.
pub proof fn lemma_vision_task_report<G, V, C: Fn(&Vec<String>, &CameraDevice) -> Result<G, String>, L: Fn(&G) -> Result<(), String>, D: Fn(&G) -> Result<V, String>, S: Fn(&G, &String) -> Result<(), String>>(
    task: Seq<char>,
    args: Vec<String>,
    camera: CameraDevice,
    lamp: bool,
    configure: C,
    light: L,
    detect: D,
    send: S,
    text_of: spec_fn(V) -> Seq<char>,
    r: TaskOutputView,
)
    requires
        vision_task(task, args, camera, lamp, configure, light, detect, send, text_of, r),
    ensures
        task_report_shape(task, r),
{
    let cfg = choose|cfg: Result<G, String>| #[trigger] call_ensures(configure, (&args, &camera), cfg) && match cfg {
        Err(e) => r == failed_report(task, e@),
        Ok(g) => light_then_detect(task, lamp, light, detect, send, g, text_of, r),
    };
    match cfg {
        Err(e) => lemma_failed_shape(task, e@),
        Ok(g) => {
            if lamp {
                let lit = choose|lit: Result<(), String>| #[trigger] call_ensures(light, (&g,), lit) && match lit {
                    Err(e) => r == failed_report(task, e@),
                    Ok(()) => detect_then_send(task, detect, send, g, text_of, r),
                };
                if let Err(e) = lit {
                    lemma_failed_shape(task, e@);
                    return;
                }
            }
            assert(detect_then_send(task, detect, send, g, text_of, r));
            let det = choose|det: Result<V, String>| #[trigger] call_ensures(detect, (&g,), det) && match det {
                Err(e) => r == failed_report(task, e@),
                Ok(v) => exists|value: String, sent: Result<(), String>| value@ == text_of(v) && #[trigger] call_ensures(send, (&g, &value), sent)
                    && r == ok_report(task + " finished: "@ + text_of(v) + "; "@ + serial_status(sent)),
            };
            match det {
                Err(e) => lemma_failed_shape(task, e@),
                Ok(v) => {
                    let (value, sent) = choose|value: String, sent: Result<(), String>| value@ == text_of(v) && #[trigger] call_ensures(send, (&g, &value), sent)
                        && r == ok_report(task + " finished: "@ + text_of(v) + "; "@ + serial_status(sent));
                    lemma_ok_shape(task, text_of(v) + "; "@ + serial_status(sent));
                    assert(task + " finished: "@ + text_of(v) + "; "@ + serial_status(sent) =~= task + " finished: "@ + (text_of(v) + "; "@ + serial_status(sent)));
                },
            }
        },
    }
}

/// Every report of the cross task is a success or a failure under its name.
pub proof fn lemma_cross_task_report<G, C: Fn(&Vec<String>, &CameraDevice) -> Result<G, String>, D: Fn(&G) -> Result<String, String>>(
    args: Vec<String>,
    camera: CameraDevice,
    configure: C,
    detect: D,
    r: TaskOutputView,
)
    requires
        cross_task(args, camera, configure, detect, r),
    ensures
        task_report_shape("cross_detect"@, r),
{
    let cfg = choose|cfg: Result<G, String>| #[trigger] call_ensures(configure, (&args, &camera), cfg) && match cfg {
        Err(e) => r == failed_report("cross_detect"@, e@),
        Ok(g) => exists|det: Result<String, String>| #[trigger] call_ensures(detect, (&g,), det) && match det {
            Err(e) => r == failed_report("cross_detect"@, e@),
            Ok(v) => r == ok_report("cross_detect"@ + " finished: "@ + v@),
        },
    };
    match cfg {
        Err(e) => lemma_failed_shape("cross_detect"@, e@),
        Ok(g) => {
            let det = choose|det: Result<String, String>| #[trigger] call_ensures(detect, (&g,), det) && match det {
                Err(e) => r == failed_report("cross_detect"@, e@),
                Ok(v) => r == ok_report("cross_detect"@ + " finished: "@ + v@),
            };
            match det {
                Err(e) => lemma_failed_shape("cross_detect"@, e@),
                Ok(v) => lemma_ok_shape("cross_detect"@, v@),
            }
        },
    }
}

} // verus!
