use rubo_vision::init::task_exec::finish_messages;
use rubo_vision::config::runtime::{DeviceKind, DeviceParam, DevicesConfig, ReturnTargets};
use rubo_vision::device::{register_camera, register_device, CameraDevice, Device, DeviceMap};
use rubo_vision::func::output::{TaskError, TaskOutput, CODE_ERROR};
use rubo_vision::func::tarits::{FuncWorkerMap, FunctionDef, FunctionWorker};
use rubo_vision::init::task_dispatch::{Event, TaskDispatcher};
use rubo_vision::init::task_exec::{execute_sync, task_messages, TaskExecutor};
use rubo_vision::init::task_listen::{handle_event, ListenStep};
use rubo_vision::message::{GpioOutput, MessageRouter, SinkMessage};

type Runner = fn(u8, &Device) -> Result<TaskOutput, TaskError>;

fn echo_runner(p: u8, _d: &Device) -> Result<TaskOutput, TaskError> {
    Ok(TaskOutput::value("done".to_string(), p.to_string()))
}

fn usual(function_id: &str, device_id: &str, runtime_param: u8) -> Event {
    Event::UsualEvent {
        task_id: "task".to_string(),
        function_id: function_id.to_string(),
        device_id: device_id.to_string(),
        runtime_param,
    }
}

#[test]
fn dispatcher_returns_errors_for_unknown_device_and_function() {
    let dispatcher = TaskDispatcher::new(FuncWorkerMap::<Runner>::new(), DeviceMap::new());
    let event = Event::UsualEvent {
        task_id: "missing_task".to_string(),
        function_id: "missing_function".to_string(),
        device_id: "missing_device".to_string(),
        runtime_param: 7,
    };
    assert!(dispatcher.find_device(&event).is_err());
    assert!(dispatcher.find_func(&event).is_err());
    assert_eq!(dispatcher.runtime_param(&event), 7);
}

#[test]
fn dispatcher_resolves_registered_devices_and_functions() {
    let mut devices = DeviceMap::new();
    devices.add("color_camera", register_camera("/dev/video2"));
    let mut funcs: FuncWorkerMap<Runner> = FuncWorkerMap::new();
    funcs.add("color_detect", FunctionDef::new("color_detect", ReturnTargets::default(), echo_runner as Runner));
    funcs.add("debug_fun", FunctionDef::new("debug_fun", ReturnTargets::default(), echo_runner as Runner));
    let dispatcher = TaskDispatcher::new(funcs, devices);
    let event = usual("color_detect", "color_camera", 3);
    match dispatcher.find_device(&event).expect("device") {
        Device::Camera(c) => assert_eq!(c.path, "/dev/video2"),
        Device::Absent => panic!("camera expected"),
    }
    assert!(matches!(dispatcher.find_device(&usual("x", "none", 0)), Ok(Device::Absent)));
    assert_eq!(dispatcher.find_func(&event).expect("function").func_id, "color_detect");
    let debug = Event::DebugEvent("ping".to_string());
    assert_eq!(dispatcher.find_func(&debug).expect("debug").func_id, "debug_fun");
    assert!(matches!(dispatcher.find_device(&debug), Ok(Device::Absent)));
    assert_eq!(dispatcher.runtime_param(&debug), 0);
    let other = Event::OtherEvent("noise".to_string());
    let e = dispatcher.find_device(&other).unwrap_err();
    assert_eq!(e.message(), "unsupported event `noise` while resolving device");
    match dispatcher.find_func(&other) {
        Err(e) => assert_eq!(e.message(), "unsupported event `noise` while resolving function"),
        Ok(_) => panic!("other events run no function"),
    }
    match dispatcher.find_device(&usual("color_detect", "missing_device", 0)) {
        Err(e) => assert_eq!(e.message(), "unknown device_id `missing_device`"),
        Ok(_) => panic!("unknown device must be refused"),
    }
}

#[test]
fn device_map_reads_back_what_was_added() {
    let mut map = DeviceMap::new();
    assert!(map.get_device("cam").is_none());
    map.add("cam", register_camera("/dev/video0"));
    map.add("cam", Device::Camera(CameraDevice::new("/dev/video9")));
    match map.get_device("cam") {
        Some(Device::Camera(c)) => assert_eq!(c.path(), "/dev/video9"),
        _ => panic!("camera expected"),
    }
    assert_eq!(Device::Absent.describe(), "None");
    assert_eq!(register_camera("/dev/video0").describe(), "Camera(/dev/video0)");
}

#[test]
fn register_device_keeps_the_last_entry_of_an_id() {
    let config = DevicesConfig {
        list: vec![
            DeviceParam { device_id: "a".to_string(), kind: DeviceKind::Camera, path: "/dev/video0".to_string() },
            DeviceParam { device_id: "b".to_string(), kind: DeviceKind::Camera, path: "/dev/video1".to_string() },
            DeviceParam { device_id: "a".to_string(), kind: DeviceKind::Camera, path: "/dev/video2".to_string() },
        ],
    };
    let map = register_device(config);
    match map.get_device("a") {
        Some(Device::Camera(c)) => assert_eq!(c.path, "/dev/video2"),
        _ => panic!("a expected"),
    }
    assert!(map.get_device("b").is_some());
    assert!(map.get_device("c").is_none());
}

#[test]
fn listener_runs_or_reports_each_event() {
    let mut devices = DeviceMap::new();
    devices.add("cam", register_camera("/dev/video0"));
    let mut funcs: FuncWorkerMap<Runner> = FuncWorkerMap::new();
    funcs.add("qr_detect", FunctionDef::new("qr_detect", ReturnTargets::default(), echo_runner as Runner));
    let dispatcher = TaskDispatcher::new(funcs, devices);
    let router = MessageRouter::new(true, false, false);
    match handle_event(&dispatcher, &router, &usual("qr_detect", "cam", 4)) {
        ListenStep::Run { device, worker, runtime_param } => {
            assert_eq!(runtime_param, 4);
            assert_eq!(worker.func_id, "qr_detect");
            assert_eq!(worker.run(runtime_param, &device).expect("run").value.as_deref(), Some("4"));
        },
        ListenStep::Report(_) => panic!("task expected"),
    }
    match handle_event(&dispatcher, &router, &usual("qr_detect", "nowhere", 0)) {
        ListenStep::Report(messages) => {
            assert_eq!(messages.len(), 1);
            match &messages[0] {
                SinkMessage::Web(out) => {
                    assert_eq!(out.text, "task dispatch failed: unknown device_id `nowhere`");
                    assert_eq!(out.code, CODE_ERROR);
                },
                _ => panic!("web message expected"),
            }
        },
        ListenStep::Run { .. } => panic!("report expected"),
    }
    match handle_event(&dispatcher, &router, &usual("missing", "cam", 0)) {
        ListenStep::Report(messages) => match &messages[0] {
            SinkMessage::Web(out) => assert_eq!(out.text, "task dispatch failed: unknown function_id `missing`"),
            _ => panic!("web message expected"),
        },
        ListenStep::Run { .. } => panic!("report expected"),
    }
    let silent = MessageRouter::new(false, true, true);
    match handle_event(&dispatcher, &silent, &usual("missing", "cam", 0)) {
        ListenStep::Report(messages) => assert!(messages.is_empty()),
        ListenStep::Run { .. } => panic!("report expected"),
    }
}

#[test]
fn task_messages_open_and_close_the_gpio_lifecycle() {
    let router = MessageRouter::new(true, true, true);
    let targets = ReturnTargets { web: true, uart: true, gpio: Some("color".to_string()) };
    let worker = FunctionWorker::new("test", targets.clone(), echo_runner as Runner);
    let outcome = execute_sync(Device::Absent, worker, 42);
    let messages = task_messages(&router, &targets, "test", &outcome);
    assert_eq!(messages.len(), 4);
    assert!(matches!(&messages[0], SinkMessage::Gpio(GpioOutput::TaskStarted(s)) if s == "color"));
    assert!(matches!(&messages[1], SinkMessage::Web(o) if o.value.as_deref() == Some("42")));
    assert!(matches!(&messages[2], SinkMessage::Uart(l) if l == "42\n"));
    assert!(matches!(&messages[3], SinkMessage::Gpio(GpioOutput::TaskFinished(s)) if s == "color"));
    let failing = FunctionWorker::new("test", targets.clone(), |_p: u8, _d: &Device| -> Result<TaskOutput, TaskError> {
        Err(TaskError::Failed { message: "test function failed".to_string() })
    });
    let outcome = execute_sync(Device::Absent, failing, 0);
    let messages = task_messages(&router, &targets, "test", &outcome);
    assert!(matches!(&messages[0], SinkMessage::Gpio(GpioOutput::TaskStarted(_))));
    assert!(matches!(&messages[1], SinkMessage::Web(o) if o.text == "test failed: test function failed"));
    assert!(matches!(messages.last(), Some(SinkMessage::Gpio(GpioOutput::TaskFinished(s))) if s == "color"));
    let executor = TaskExecutor::new(router);
    assert_eq!(executor.get_router(), router);
}

#[test]
fn finish_messages_follow_the_start_signal() {
    let router = MessageRouter::new(false, true, true);
    let targets = ReturnTargets { web: true, uart: true, gpio: Some("qr".to_string()) };
    assert_eq!(router.task_started(&targets).len(), 1);
    let outcome: Result<(TaskOutput, ReturnTargets), TaskError> = Err(TaskError::CameraRequired);
    let messages = finish_messages(&router, &targets, "qr_detect", &outcome);
    assert_eq!(messages.len(), 2);
    assert!(matches!(&messages[0], SinkMessage::Uart(l) if l == "qr_detect failed: function requires a camera device\n"));
    assert!(matches!(&messages[1], SinkMessage::Gpio(GpioOutput::TaskFinished(s)) if s == "qr"));
}
