use rubo_vision::config::params::DebugParams;
use rubo_vision::config::runtime::{FunctionEntryConfig, FunctionsConfig, ReturnTargets};
use rubo_vision::config::legacy::ParamValue;
use rubo_vision::device::{CameraDevice, Device};
use rubo_vision::func::detect::{
    BlackRingDetect, BlockReading, ColorBlockDetect, ColorDetect, CrossDetect, DebugFun, LetterDetect, QrDetect,
    DEBUG_IMAGE,
};
use rubo_vision::func::functions::{
    black_ring_output_to_function_result, color_detect_output_to_function_result, cross_output, debug_fun,
    qr_detect_output,
};
use rubo_vision::func::output::{TaskError, TaskOutput, CODE_ERROR, CODE_OK};
use rubo_vision::func::register::{find_descriptor, function_descriptors, register_func, FunctionKind};
use rubo_vision::func::sample::{
    BlackRingResultSample, ColorBlockResultSample, ColorResultSample, ConcentricRingResultSample,
    LetterResultSample, QrResultSample,
};
use rubo_vision::func::tarits::{FromDevice, FuncWorkerMap, FunctionDef, FunctionWorker, NoDevice};
use rubo_vision::func::usual::{fn_color_detect, fn_cross_detect, fn_debug, fn_qr_detect, into_web_message};
use rubo_vision::vision::format::BlackRingResult;

type Runner = fn(u8, &Device) -> Result<TaskOutput, TaskError>;

fn echo_runner(p: u8, _d: &Device) -> Result<TaskOutput, TaskError> {
    Ok(TaskOutput::value("done".to_string(), p.to_string()))
}

#[test]
fn declarative_registry_contains_builtin_functions() {
    let ids: Vec<&str> = function_descriptors().iter().map(|descriptor| descriptor.id()).collect();
    assert_eq!(ids, vec!["color_detect", "qr_detect", "black_ring_detect", "cross", "debug_fun"]);
}

#[test]
fn descriptors_are_found_by_id() {
    assert_eq!(find_descriptor("cross"), Some(FunctionKind::Cross));
    assert_eq!(find_descriptor("debug_fun"), Some(FunctionKind::DebugFun));
    assert_eq!(find_descriptor("missing_function"), None);
}

#[test]
fn result_samples_match_uart_values() {
    let samples = [
        (ColorResultSample::output(), "blue"),
        (QrResultSample::output(), "RUBO-QR-SAMPLE"),
        (ConcentricRingResultSample::output(), "CROSS,0,1,-12,8,92"),
        (BlackRingResultSample::output(), "RING,1,-5,11,88"),
        (LetterResultSample::output(), "A"),
        (ColorBlockResultSample::output(), "BLOCK,blue,1,-20,15"),
    ];
    for (sample, expected) in samples {
        assert_eq!(sample.value, expected);
        assert_eq!(sample.sample, true);
    }
    assert_eq!(ColorResultSample::output().text, "color_detect sample: blue");
    assert_eq!(QrResultSample::id(), "sample_qr_result");
}

#[test]
fn function_worker_passes_runtime_param_to_runner() {
    let worker = FunctionWorker::new(
        "test",
        ReturnTargets::default(),
        |runtime_param: u8, _device: &Device| -> Result<TaskOutput, TaskError> {
            Ok(TaskOutput::value("done".to_string(), runtime_param.to_string()))
        },
    );
    let result = worker.run(7, &Device::Absent).expect("runner result");
    assert_eq!(result.value.as_deref(), Some("7"));
}

#[test]
fn registry_returns_the_last_definition_of_an_id() {
    let mut map: FuncWorkerMap<Runner> = FuncWorkerMap::new();
    let targets = ReturnTargets { web: true, uart: false, gpio: Some("color".to_string()) };
    map.add("color_detect", FunctionDef::new("color_detect", targets.clone(), echo_runner as Runner));
    let w = map.get_func("color_detect").expect("registered");
    assert_eq!(w.func_id, "color_detect");
    assert_eq!(w.returns.gpio.as_deref(), Some("color"));
    assert_eq!(w.run(3, &Device::Absent).expect("run").value.as_deref(), Some("3"));
    map.add("color_detect", FunctionDef::new("color_detect", ReturnTargets::default(), echo_runner as Runner));
    assert_eq!(map.get_func("color_detect").expect("replaced").returns.gpio, None);
    match map.get_func("missing") {
        Err(TaskError::UnknownFunction { function_id }) => assert_eq!(function_id, "missing"),
        _ => panic!("missing function must be refused"),
    }
}

#[test]
fn register_func_rejects_unknown_function() {
    let cfg = FunctionsConfig {
        entries: vec![FunctionEntryConfig {
            function_id: "missing_function".to_string(),
            returns: ReturnTargets::default(),
            params: ParamValue::Table(Vec::new()),
        }],
    };
    let built = register_func(&cfg, |_entry: &FunctionEntryConfig, _kind: FunctionKind| -> Result<Runner, TaskError> {
        Ok(echo_runner as Runner)
    });
    match built {
        Err(TaskError::UnknownFunction { function_id }) => assert_eq!(function_id, "missing_function"),
        _ => panic!("unknown function must be refused"),
    }
}

#[test]
fn register_func_registers_every_entry() {
    let cfg = FunctionsConfig {
        entries: vec![
            FunctionEntryConfig {
                function_id: "qr_detect".to_string(),
                returns: ReturnTargets { web: true, uart: true, gpio: None },
                params: ParamValue::Table(Vec::new()),
            },
            FunctionEntryConfig {
                function_id: "debug_fun".to_string(),
                returns: ReturnTargets::default(),
                params: ParamValue::Table(Vec::new()),
            },
        ],
    };
    let map = register_func(&cfg, |_entry: &FunctionEntryConfig, _kind: FunctionKind| -> Result<Runner, TaskError> {
        Ok(echo_runner as Runner)
    })
    .expect("known functions");
    assert!(map.get_func("qr_detect").expect("qr").returns.uart);
    assert!(map.get_func("debug_fun").is_ok());
    assert!(map.get_func("cross").is_err());
}

#[test]
fn devices_are_accepted_by_kind() {
    let camera = Device::Camera(CameraDevice::new("/dev/video0"));
    assert_eq!(CameraDevice::from_device(&camera).expect("camera").path, "/dev/video0");
    assert!(matches!(CameraDevice::from_device(&Device::Absent), Err(TaskError::CameraRequired)));
    assert!(NoDevice::from_device(&Device::Absent).is_ok());
    assert!(matches!(NoDevice::from_device(&camera), Err(TaskError::DeviceNotAccepted)));
    assert_eq!(TaskError::CameraRequired.message(), "function requires a camera device");
}

#[test]
fn color_detect_output_to_function_result_attaches_image() {
    let result = color_detect_output_to_function_result("red".to_string(), "data:image/jpeg;base64,AAAA".to_string());
    assert_eq!(result.text, "color_detect finished: red");
    assert_eq!(result.value.as_deref(), Some("red"));
    assert!(result.image.as_deref().is_some_and(|image| image.starts_with("data:image/jpeg;base64,")));
}

#[test]
fn black_ring_output_to_function_result_keeps_uart_value_and_image() {
    let result = black_ring_output_to_function_result(
        &BlackRingResult { valid: true, dx: -42, dy: 18, score: 87 },
        "data:image/jpeg;base64,AAAA".to_string(),
    );
    assert_eq!(result.text, "black_ring_detect finished: RING,1,-42,18,87");
    assert_eq!(result.value.as_deref(), Some("RING,1,-42,18,87"));
    assert!(result.image.as_deref().is_some_and(|image| image.starts_with("data:image/jpeg;base64,")));
}

#[test]
fn typed_function_outputs() {
    let qr = qr_detect_output(-3);
    assert_eq!(qr.text, "qr_detect finished: -3");
    assert_eq!(qr.value.as_deref(), Some("-3"));
    let cross = cross_output("CROSS,0,1,-42,18,91".to_string());
    assert_eq!(cross.text, "cross finished: CROSS,0,1,-42,18,91");
    let debug = debug_fun(&DebugParams { message: "hello".to_string() });
    assert_eq!(debug.text, "this is the debug function hello");
    assert_eq!(debug.code, CODE_OK);
    assert_eq!(debug.value, None);
}

#[test]
fn engine_function_outputs() {
    assert_eq!(ColorDetect::id(), "color_detect");
    let color = ColorDetect::output("red", "R", None);
    assert_eq!(color.text, "color_detect finished: red");
    assert_eq!(color.value.as_deref(), Some("R"));
    assert_eq!(color.image, None);
    let qr = QrDetect::output("17", Some("data:image/jpeg;base64,AA".to_string()));
    assert_eq!(qr.text, "qr_detect finished: 17");
    assert_eq!(qr.image.as_deref(), Some("data:image/jpeg;base64,AA"));
    assert_eq!(LetterDetect::output("A", None).text, "letter_detect finished: A");
    assert_eq!(BlackRingDetect::output(true, -5, 11, 88, None).value.as_deref(), Some("RING,1,-5,11,88"));
    assert_eq!(BlackRingDetect::output(false, -5, 11, 88, None).value.as_deref(), Some("RING,0,0,0,0"));
    assert_eq!(CrossDetect::output(true, -12, 8, 92, None).text, "cross finished: CROSS,0,1,-12,8,92");
    assert_eq!(CrossDetect::output(false, 1, 2, 3, None).value.as_deref(), Some("CROSS,0,0,0,0,0"));
    let reading = BlockReading {
        color: "blue".to_string(),
        output: "B".to_string(),
        found: true,
        center_x: 300,
        center_y: 255,
        dx: -20,
        dy: 15,
    };
    let block = ColorBlockDetect::output(&reading, "25000", None);
    assert_eq!(
        block.text,
        "color_block_detect finished: color=blue found=true center=(300, 255) offset=(-20, 15) area=25000"
    );
    assert_eq!(block.value.as_deref(), Some("BLOCK,B,1,-20,15"));
}

#[test]
fn debug_fun_reports_message_success_with_picture() {
    assert_eq!(DebugFun::message(None), "debug");
    assert_eq!(DebugFun::message(Some("ping".to_string())), "ping");
    let out = DebugFun::output("debug");
    assert_eq!(out.text, "debug success");
    assert_eq!(out.value.as_deref(), Some("debug success"));
    assert!(out.image.as_deref().is_some_and(|image| image.starts_with("data:image/")));
    assert_eq!(out.image.as_deref(), Some(DEBUG_IMAGE));
}

#[test]
fn color_task_reports_detection_and_serial_status() {
    let camera = Device::Camera(CameraDevice::new("/dev/video2"));
    let args = vec!["loop_count=5".to_string()];
    let lit = ReturnTargets { web: true, uart: true, gpio: Some("color".to_string()) };
    let out = fn_color_detect(
        &args,
        &camera,
        &lit,
        |a: &Vec<String>, c: &CameraDevice| -> Result<String, String> { Ok(format!("{}@{}", a.len(), c.path)) },
        |_g: &String| -> Result<(), String> { Ok(()) },
        |_g: &String| -> Result<String, String> { Ok("red".to_string()) },
        |_g: &String, _v: &String| -> Result<(), String> { Ok(()) },
    );
    assert_eq!(out.text, "color_detect finished: red; serial=sent");
    assert_eq!(out.code, CODE_OK);
    let failed_send = fn_color_detect(
        &args,
        &camera,
        &ReturnTargets::default(),
        |_a: &Vec<String>, _c: &CameraDevice| -> Result<(), String> { Ok(()) },
        |_g: &()| -> Result<(), String> { Err("lamp must not be lit".to_string()) },
        |_g: &()| -> Result<String, String> { Ok("blue".to_string()) },
        |_g: &(), _v: &String| -> Result<(), String> { Err("port closed".to_string()) },
    );
    assert_eq!(failed_send.text, "color_detect finished: blue; serial=failed(port closed)");
    let no_lamp = fn_color_detect(
        &args,
        &camera,
        &lit,
        |_a: &Vec<String>, _c: &CameraDevice| -> Result<(), String> { Ok(()) },
        |_g: &()| -> Result<(), String> { Err("no gpio".to_string()) },
        |_g: &()| -> Result<String, String> { Ok("blue".to_string()) },
        |_g: &(), _v: &String| -> Result<(), String> { Ok(()) },
    );
    assert_eq!(no_lamp.text, "color_detect failed: no gpio");
    assert_eq!(no_lamp.code, CODE_ERROR);
}

#[test]
fn qr_and_cross_tasks_report_their_results() {
    let camera = Device::Camera(CameraDevice::new("/dev/video0"));
    let args: Vec<String> = Vec::new();
    let qr = fn_qr_detect(
        &args,
        &camera,
        &ReturnTargets::default(),
        |_a: &Vec<String>, _c: &CameraDevice| -> Result<(), String> { Ok(()) },
        |_g: &()| -> Result<(), String> { Ok(()) },
        |_g: &()| -> Result<i32, String> { Ok(12) },
        |_g: &(), v: &String| -> Result<(), String> { if v == "12" { Ok(()) } else { Err(v.clone()) } },
    );
    assert_eq!(qr.text, "qr_detect finished: 12; serial=sent");
    let bad_config = fn_qr_detect(
        &args,
        &camera,
        &ReturnTargets::default(),
        |_a: &Vec<String>, _c: &CameraDevice| -> Result<(), String> { Err("missing qr_camera".to_string()) },
        |_g: &()| -> Result<(), String> { Ok(()) },
        |_g: &()| -> Result<i32, String> { Ok(12) },
        |_g: &(), _v: &String| -> Result<(), String> { Ok(()) },
    );
    assert_eq!(bad_config.text, "qr_detect failed: missing qr_camera");
    let cross = fn_cross_detect(
        &args,
        &camera,
        &ReturnTargets::default(),
        |_a: &Vec<String>, _c: &CameraDevice| -> Result<(), String> { Ok(()) },
        |_g: &()| -> Result<String, String> { Ok("0".to_string()) },
    );
    assert_eq!(cross.text, "cross_detect finished: 0");
    let failed = into_web_message("cross_detect", Err("no frame".to_string()));
    assert_eq!(failed.text, "cross_detect failed: no frame");
}

#[test]
fn vision_tasks_without_a_camera_report_the_missing_device() {
    let args: Vec<String> = Vec::new();
    let color = fn_color_detect(
        &args,
        &Device::Absent,
        &ReturnTargets::default(),
        |_a: &Vec<String>, _c: &CameraDevice| -> Result<(), String> { panic!("no camera to configure") },
        |_g: &()| -> Result<(), String> { Ok(()) },
        |_g: &()| -> Result<String, String> { Ok("red".to_string()) },
        |_g: &(), _v: &String| -> Result<(), String> { Ok(()) },
    );
    assert_eq!(color.text, "color_detect failed: function requires a camera device");
    assert_eq!(color.code, CODE_ERROR);
    let qr = fn_qr_detect(
        &args,
        &Device::Absent,
        &ReturnTargets::default(),
        |_a: &Vec<String>, _c: &CameraDevice| -> Result<(), String> { Ok(()) },
        |_g: &()| -> Result<(), String> { Ok(()) },
        |_g: &()| -> Result<i32, String> { Ok(12) },
        |_g: &(), _v: &String| -> Result<(), String> { Ok(()) },
    );
    assert_eq!(qr.text, "qr_detect failed: function requires a camera device");
    let cross = fn_cross_detect(
        &args,
        &Device::Absent,
        &ReturnTargets::default(),
        |_a: &Vec<String>, _c: &CameraDevice| -> Result<(), String> { Ok(()) },
        |_g: &()| -> Result<String, String> { Ok("0".to_string()) },
    );
    assert_eq!(cross.text, "cross_detect failed: function requires a camera device");
    assert_eq!(cross.code, CODE_ERROR);
}

#[test]
fn camera_device_is_the_task_camera() {
    let device = Device::Camera(CameraDevice::new("/dev/video4"));
    let camera = CameraDevice::from_device(&device).expect("camera");
    assert_eq!(camera.path, "/dev/video4");
    assert!(matches!(CameraDevice::from_device(&Device::Absent), Err(TaskError::CameraRequired)));
    assert_eq!(TaskError::CameraRequired.message(), "function requires a camera device");
}

#[test]
fn register_func_reports_the_first_failing_entry() {
    let entry = |id: &str| FunctionEntryConfig {
        function_id: id.to_string(),
        returns: ReturnTargets::default(),
        params: ParamValue::Table(Vec::new()),
    };
    let cfg = FunctionsConfig { entries: vec![entry("debug_fun"), entry("first_missing"), entry("second_missing")] };
    match register_func(&cfg, |_e: &FunctionEntryConfig, _k: FunctionKind| -> Result<Runner, TaskError> { Ok(echo_runner as Runner) }) {
        Err(TaskError::UnknownFunction { function_id }) => assert_eq!(function_id, "first_missing"),
        _ => panic!("the first unknown function must be reported"),
    }
    let cfg = FunctionsConfig { entries: vec![entry("qr_detect"), entry("cross"), entry("missing")] };
    let built = register_func(&cfg, |e: &FunctionEntryConfig, _k: FunctionKind| -> Result<Runner, TaskError> {
        if e.function_id == "qr_detect" {
            Ok(echo_runner as Runner)
        } else {
            Err(TaskError::Failed { message: format!("invalid params for `{}`", e.function_id) })
        }
    });
    match built {
        Err(TaskError::Failed { message }) => assert_eq!(message, "invalid params for `cross`"),
        _ => panic!("the first entry that fails to build must be reported"),
    }
}

#[test]
fn registry_after_several_adds_holds_the_last_definition_of_each_id() {
    let mut map: FuncWorkerMap<Runner> = FuncWorkerMap::new();
    let uart = ReturnTargets { web: false, uart: true, gpio: None };
    let gpio = ReturnTargets { web: true, uart: false, gpio: Some("qr".to_string()) };
    map.add("color_detect", FunctionDef::new("color_detect", ReturnTargets::default(), echo_runner as Runner));
    map.add("qr_detect", FunctionDef::new("qr_detect", uart, echo_runner as Runner));
    map.add("color_detect", FunctionDef::new("color_detect", gpio, echo_runner as Runner));
    let color = map.get_func("color_detect").expect("added twice");
    assert_eq!(color.returns.gpio.as_deref(), Some("qr"));
    assert!(!color.returns.uart);
    let qr = map.get_func("qr_detect").expect("added once");
    assert!(qr.returns.uart);
    assert_eq!(qr.run(9, &Device::Absent).expect("run").value.as_deref(), Some("9"));
    assert!(map.get_func("cross").is_err());
}

#[test]
fn built_worker_keeps_the_definition() {
    let targets = ReturnTargets { web: true, uart: true, gpio: Some("color".to_string()) };
    let def = FunctionDef::new("color_detect", targets, echo_runner as Runner);
    let first = def.build_worker();
    let second = def.build_worker();
    for w in [first, second] {
        assert_eq!(w.func_id, "color_detect");
        assert!(w.returns.web && w.returns.uart);
        assert_eq!(w.returns.gpio.as_deref(), Some("color"));
        assert_eq!(w.run(4, &Device::Absent).expect("run").value.as_deref(), Some("4"));
    }
    assert_eq!(def.func_id, "color_detect");
}

#[test]
fn debug_task_joins_its_arguments() {
    let args = vec!["a=1".to_string(), "b=2".to_string()];
    let out = fn_debug(&args, &Device::Absent, &ReturnTargets::default());
    assert_eq!(out.text, "this is the debug function a=1,b=2");
    assert_eq!(fn_debug(&Vec::new(), &Device::Absent, &ReturnTargets::default()).text, "this is the debug function ");
}
