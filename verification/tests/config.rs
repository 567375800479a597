use rubo_vision::config::binding::{BindingsConfig, DebugBinding, LoopBinding, TimerBinding, UartBinding};
use rubo_vision::config::cli::{apply_updates, key_parse, plan_updates, UpdateError};
use rubo_vision::config::legacy::{value_text, ParamValue};
use rubo_vision::config::params::{
    ColorDetectParams, ColorRangeConfig, CrossColorConfig, CrossDetectParams, DebugParams, QrDetectParams,
};
use rubo_vision::config::profile::hardware_profile;
use rubo_vision::config::runtime::{
    AppConfig, ConfigError, DeviceKind, DeviceParam, DevicesConfig, FunctionEntryConfig, FunctionsConfig,
    GpioConfig, GpioSignal, KeyKind, MessageConfig, ReturnTargets, RuntimeConfig, UartConfig, WebConfig,
};
use rubo_vision::config::unique::{first_duplicate_key, first_duplicate_text};
use rubo_vision::func::tarits::ValidateParams;
use rubo_vision::init::register::source_plan;
use rubo_vision::params::{ColorDefinition, CrossParameters, QrParameters};
use rubo_vision::vision::format::TargetCorrection;

fn uart(task: &str, key: u8, device: &str, function: &str) -> UartBinding {
    UartBinding {
        task_id: task.to_string(),
        source_key: key,
        device_id: device.to_string(),
        function_id: function.to_string(),
    }
}

fn debug(task: &str, key: &str, device: &str, function: &str) -> DebugBinding {
    DebugBinding {
        task_id: task.to_string(),
        source_key: key.to_string(),
        device_id: device.to_string(),
        function_id: function.to_string(),
    }
}

fn entry(function_id: &str, gpio: Option<&str>, params: ParamValue) -> FunctionEntryConfig {
    FunctionEntryConfig {
        function_id: function_id.to_string(),
        returns: ReturnTargets { web: true, uart: true, gpio: gpio.map(|s| s.to_string()) },
        params,
    }
}

fn camera(id: &str, path: &str) -> DeviceParam {
    DeviceParam { device_id: id.to_string(), kind: DeviceKind::Camera, path: path.to_string() }
}

fn gpio_config() -> GpioConfig {
    GpioConfig {
        on: true,
        active_low: true,
        run_pin: 27,
        signals: vec![
            GpioSignal { name: "color".to_string(), pin: 17 },
            GpioSignal { name: "qr".to_string(), pin: 22 },
        ],
    }
}

fn runtime_config() -> RuntimeConfig {
    RuntimeConfig {
        app: AppConfig::default(),
        message: MessageConfig {
            web: WebConfig::default(),
            uart: UartConfig {
                on: true,
                serial: "/dev/ttyV0".to_string(),
                baud: 9600,
                data_bit: 8,
                stop_bit: 1,
                parity_bit: false,
            },
            gpio: gpio_config(),
        },
        bindings: BindingsConfig {
            uart_source: vec![uart("uart_color_detect", 1, "color_camera", "color_detect")],
            timer_source: Vec::new(),
            loop_source: Vec::new(),
            debug_source: vec![debug("debug_color_detect", "color", "color_camera", "color_detect")],
        },
        devices: DevicesConfig { list: vec![camera("color_camera", "/dev/video2")] },
        functions: FunctionsConfig {
            entries: vec![entry("color_detect", Some("color"), ParamValue::Table(Vec::new()))],
        },
    }
}

#[test]
fn valid_configuration_is_accepted() {
    assert!(runtime_config().validate().is_ok());
}

#[test]
fn duplicate_keys_are_refused() {
    let mut cfg = runtime_config();
    cfg.devices.list.push(camera("color_camera", "/dev/video3"));
    let e = cfg.validate().unwrap_err();
    assert!(matches!(&e, ConfigError::Duplicate { kind: KeyKind::DeviceId, key } if key == "color_camera"));
    assert_eq!(e.message(), "duplicate device id `color_camera`");

    let mut cfg = runtime_config();
    cfg.bindings.uart_source.push(uart("again", 1, "color_camera", "color_detect"));
    let e = cfg.validate().unwrap_err();
    assert_eq!(e.message(), "duplicate UART source key `1`");

    let mut cfg = runtime_config();
    cfg.bindings.debug_source.push(debug("again", "color", "color_camera", "color_detect"));
    assert_eq!(cfg.validate().unwrap_err().message(), "duplicate debug source key `color`");

    let mut cfg = runtime_config();
    cfg.message.gpio.signals.push(GpioSignal { name: "color".to_string(), pin: 23 });
    let e = cfg.validate().unwrap_err();
    assert!(matches!(&e, ConfigError::Duplicate { kind: KeyKind::GpioSignal, key } if key == "color"));
    assert_eq!(e.message(), "duplicate GPIO signal `color`");
}

#[test]
fn unknown_references_are_refused() {
    let mut cfg = runtime_config();
    cfg.bindings.uart_source.push(uart("uart_qr_detect", 2, "qr_camera", "color_detect"));
    assert_eq!(
        cfg.validate().unwrap_err().message(),
        "binding `uart_qr_detect` references unknown device `qr_camera`"
    );

    let mut cfg = runtime_config();
    cfg.bindings.uart_source.push(uart("uart_qr_detect", 2, "none", "qr_detect"));
    assert_eq!(
        cfg.validate().unwrap_err().message(),
        "binding `uart_qr_detect` references unknown function `qr_detect`"
    );

    let mut cfg = runtime_config();
    cfg.functions.entries[0].returns.gpio = Some("lamp".to_string());
    assert_eq!(
        cfg.validate().unwrap_err().message(),
        "function `color_detect` references unknown GPIO signal `lamp`"
    );
}

#[test]
fn task_bindings_list_uart_then_timer_then_loop_then_debug() {
    let b = BindingsConfig {
        uart_source: vec![uart("u", 1, "d", "f")],
        timer_source: vec![TimerBinding {
            task_id: "t".to_string(),
            source_key: "tick".to_string(),
            device_id: "d".to_string(),
            function_id: "f".to_string(),
        }],
        loop_source: vec![LoopBinding {
            task_id: "l".to_string(),
            source_key: "loop".to_string(),
            device_id: "d".to_string(),
            function_id: "f".to_string(),
        }],
        debug_source: vec![debug("g", "k", "d", "f")],
    };
    let ids: Vec<String> = b.iter_task_bindings().into_iter().map(|t| t.task_id).collect();
    assert_eq!(ids, vec!["u", "t", "l", "g"]);
    let plan = source_plan(&b);
    assert!(plan.uart && plan.timer && plan.loop_source && plan.debug);
    let empty = BindingsConfig {
        uart_source: Vec::new(),
        timer_source: Vec::new(),
        loop_source: Vec::new(),
        debug_source: vec![debug("g", "k", "d", "f")],
    };
    let plan = source_plan(&empty);
    assert!(!plan.uart && !plan.timer && !plan.loop_source && plan.debug);
}

#[test]
fn first_duplicates_are_found() {
    let texts = vec!["a".to_string(), "b".to_string(), "a".to_string(), "b".to_string()];
    assert_eq!(first_duplicate_text(&texts), Some(2));
    assert_eq!(first_duplicate_text(&vec!["a".to_string()]), None);
    assert_eq!(first_duplicate_key(&vec![1, 2, 3, 2, 1]), Some(3));
}

#[test]
fn defaults_match_the_documented_values() {
    let web = WebConfig::default();
    assert!(web.on);
    assert_eq!(web.host, "127.0.0.1");
    assert_eq!(web.port, 3000);
    let app = AppConfig::default();
    assert_eq!((app.name.as_str(), app.profile.as_str(), app.log_level.as_str()), ("rubovision", "dev", "info"));
    let t = ReturnTargets::default();
    assert!(!t.web && !t.uart && t.gpio.is_none());
}

#[test]
fn legacy_args_list_parameters_and_light_pins() {
    let params = ParamValue::Table(vec![
        ("debug_model".to_string(), ParamValue::Boolean(false)),
        ("loop_count".to_string(), ParamValue::Integer(5)),
        ("radius_ratio".to_string(), ParamValue::Float("0.4".to_string())),
        (
            "color_ranges".to_string(),
            ParamValue::Array(vec![ParamValue::Table(vec![
                ("name".to_string(), ParamValue::Text("red".to_string())),
                (
                    "hsv".to_string(),
                    ParamValue::Array(vec![
                        ParamValue::Integer(0),
                        ParamValue::Integer(50),
                        ParamValue::Integer(160),
                        ParamValue::Integer(255),
                        ParamValue::Integer(110),
                        ParamValue::Integer(255),
                    ]),
                ),
            ])]),
        ),
    ]);
    let args = entry("color_detect", Some("color"), params).legacy_args(&gpio_config()).expect("args");
    assert_eq!(
        args,
        vec![
            "debug_model=false",
            "loop_count=5",
            "radius_ratio=0.4",
            "color.red=0,50,160,255,110,255",
            "color_light_pin=17",
            "qr_light_pin=22",
            "gpio_light_pin=27",
        ]
    );
    let no_gpio = entry("qr_detect", None, ParamValue::Table(vec![("debug_model".to_string(), ParamValue::Boolean(true))]));
    assert_eq!(no_gpio.legacy_args(&gpio_config()).expect("args"), vec!["debug_model=true"]);
}

#[test]
fn legacy_args_refusals() {
    let gpio = gpio_config();
    assert_eq!(
        entry("x", None, ParamValue::Integer(1)).legacy_args(&gpio).unwrap_err(),
        "function `x` params must be a table"
    );
    let nested = ParamValue::Table(vec![("k".to_string(), ParamValue::Array(Vec::new()))]);
    assert_eq!(entry("x", None, nested).legacy_args(&gpio).unwrap_err(), "parameter value must be a scalar");
    let bad_ranges = ParamValue::Table(vec![("color_ranges".to_string(), ParamValue::Integer(3))]);
    assert_eq!(
        entry("x", None, bad_ranges).legacy_args(&gpio).unwrap_err(),
        "function `x` parameter `color_ranges` must be an array"
    );
    let no_name = ParamValue::Table(vec![(
        "color_ranges".to_string(),
        ParamValue::Array(vec![ParamValue::Table(vec![("hsv".to_string(), ParamValue::Array(Vec::new()))])]),
    )]);
    assert_eq!(entry("x", None, no_name).legacy_args(&gpio).unwrap_err(), "color range missing string `name`");
    let mut no_qr = gpio_config();
    no_qr.signals.pop();
    assert_eq!(
        entry("x", Some("color"), ParamValue::Table(Vec::new())).legacy_args(&no_qr).unwrap_err(),
        "message.gpio.signals.qr is required"
    );
    assert_eq!(value_text(&ParamValue::Integer(-12)).expect("text"), "-12");
    assert!(value_text(&ParamValue::Datetime("1979-05-27".to_string())).is_err());
}

#[test]
fn hardware_profiles() {
    let orange = hardware_profile("orangepi").expect("orangepi");
    assert_eq!((orange.serial.as_str(), orange.camera.as_str()), ("/dev/ttyAMA1", "/dev/video0"));
    assert_eq!((orange.gpio_chip, orange.run_pin, orange.color_pin, orange.qr_pin), (7, 3, 4, 5));
    let pi = hardware_profile("raspberrypi").expect("raspberrypi");
    assert_eq!((pi.serial.as_str(), pi.camera.as_str()), ("/dev/serial0", "/dev/video2"));
    assert_eq!((pi.gpio_chip, pi.run_pin, pi.color_pin, pi.qr_pin), (0, 27, 17, 22));
    assert_eq!(
        hardware_profile("jetson").unwrap_err().message,
        "unsupported config profile jetson; expected orangepi or raspberrypi"
    );
}

#[test]
fn cli_keys_name_device_entries() {
    assert_eq!(key_parse("color_cam"), Some(("color_camera_config", "color_camera")));
    assert_eq!(key_parse("serial"), Some(("gpio_config", "serial")));
    assert_eq!(key_parse("baud"), None);
    let keys = vec!["qr_cam".to_string(), "serial".to_string()];
    let values = vec!["/dev/video4".to_string(), "/dev/ttyS1".to_string()];
    let plan = plan_updates(&keys, &values).expect("plan");
    assert_eq!(plan.len(), 2);
    assert_eq!((plan[0].section.as_str(), plan[0].field.as_str(), plan[0].value.as_str()), ("qr_camera_config", "qr_camera", "/dev/video4"));
    assert_eq!(plan[1].field, "serial");
    assert_eq!(
        plan_updates(&keys, &vec!["x".to_string()]).unwrap_err(),
        "num(key) is not equal to num(value), setting failed"
    );
}

#[test]
fn typed_parameters_are_checked_in_order() {
    let mut color = ColorDetectParams {
        debug_model: false,
        loop_count: 5,
        radius_ratio_valid: true,
        detect_area_access_rate_valid: true,
        color_ranges: vec![ColorRangeConfig { name: "red".to_string(), hsv: [0, 50, 160, 255, 110, 255] }],
    };
    assert!(color.validate().is_ok());
    color.color_ranges[0].hsv = [0, 180, 0, 255, 0, 255];
    assert_eq!(color.validate().unwrap_err().message, "invalid HSV range for `red`");
    color.loop_count = 0;
    assert_eq!(color.validate().unwrap_err().message, "loop_count must be greater than 0");
    assert!(QrDetectParams { debug_model: true }.validate().is_ok());
    assert_eq!(
        DebugParams { message: "  ".to_string() }.validate().unwrap_err().message,
        "message must not be empty"
    );
    let colors: Vec<CrossColorConfig> = (1..=5u8)
        .map(|id| CrossColorConfig {
            id,
            name: format!("c{id}"),
            hsv: [0, 10, 0, 255, 0, 255],
            min_area_positive: true,
            min_circularity_valid: true,
        })
        .collect();
    let mut cross = CrossDetectParams {
        debug_model: false,
        loop_count: 3,
        target_correction: TargetCorrection { x: 0, y: 0 },
        black_threshold: 90,
        min_radius_positive: true,
        radii_ordered: true,
        center_tolerance_positive: true,
        min_arc_points: 24,
        min_ring_score: 50,
        colors,
    };
    assert!(cross.validate().is_ok());
    cross.colors[4].id = 1;
    assert_eq!(cross.validate().unwrap_err().message, "cross colors must contain unique ids 1 through 5");
    cross.radii_ordered = false;
    assert_eq!(cross.validate().unwrap_err().message, "max_radius must be greater than or equal to min_radius");
}

#[test]
fn engine_parameters_are_checked_in_order() {
    let qr = QrParameters { device_id: " ".to_string(), max_frames: 3 };
    assert_eq!(qr.validate().unwrap_err().message, "qr_detect.device_id cannot be empty");
    let qr = QrParameters { device_id: "camera".to_string(), max_frames: 0 };
    assert_eq!(qr.validate().unwrap_err().message, "qr_detect.max_frames must be greater than 0");
    let mut cross = CrossParameters {
        device_id: "camera".to_string(),
        max_frames: 3,
        target_correction: TargetCorrection { x: 0, y: 0 },
        black_threshold: 90,
        close_kernel_size: 5,
        dilate_kernel_size: 3,
        dilate_iterations: 1,
        radii_valid: true,
        center_tolerance_valid: true,
        min_arc_points: 24,
        min_ring_score: 50,
    };
    assert!(cross.validate().is_ok());
    cross.close_kernel_size = 4;
    assert_eq!(cross.validate().unwrap_err().message, "cross.close_kernel_size must be a positive odd number");
    cross.close_kernel_size = 5;
    cross.dilate_kernel_size = 2;
    assert_eq!(cross.validate().unwrap_err().message, "cross.dilate_kernel_size must be a positive odd number");
    let red = ColorDefinition { name: "red".to_string(), output: None, hsv_ranges: vec![[0, 10, 160, 255, 110, 255]] };
    assert!(red.validate("color_detect").is_ok());
    assert_eq!(red.output(), "red");
    let blank = ColorDefinition { name: "red".to_string(), output: Some(" ".to_string()), hsv_ranges: Vec::new() };
    assert_eq!(blank.validate("color_detect").unwrap_err().message, "color_detect color `red` output cannot be empty");
}

#[test]
fn updates_are_written_into_the_toml_text() {
    let text = "# cameras\n[color_camera_config]\ncolor_camera = \"/dev/video0\"\n\n[gpio_config]\nserial = \"/dev/ttyS0\"\n";
    let keys = vec!["color_cam".to_string(), "serial".to_string()];
    let values = vec!["/dev/video2".to_string(), "/dev/ttyS1".to_string()];
    let (new_text, olds) = apply_updates(text, &keys, &values).expect("written");
    assert_eq!(
        new_text,
        "# cameras\n[color_camera_config]\ncolor_camera = \"/dev/video2\"\n\n[gpio_config]\nserial = \"/dev/ttyS1\"\n"
    );
    assert_eq!(olds.len(), 2);
    assert_eq!(olds[0].trim(), "\"/dev/video0\"");
    assert_eq!(olds[1].trim(), "\"/dev/ttyS0\"");

    let (added, olds) = apply_updates("", &vec!["qr_cam".to_string()], &vec!["/dev/video4".to_string()]).expect("added");
    assert!(added.contains("qr_camera = \"/dev/video4\""));
    assert_eq!(olds, vec![String::new()]);

    let (same, olds) = apply_updates(text, &Vec::new(), &Vec::new()).expect("nothing to write");
    assert_eq!(same, text);
    assert!(olds.is_empty());
}

#[test]
fn refused_updates() {
    let keys = vec!["color_cam".to_string()];
    let e = apply_updates("", &keys, &Vec::new()).unwrap_err();
    assert_eq!(e, UpdateError::CountMismatch);
    assert_eq!(e.message(), "num(key) is not equal to num(value), setting failed");

    let e = apply_updates("[color_camera_config", &keys, &vec!["/dev/video2".to_string()]).unwrap_err();
    assert_eq!(e, UpdateError::Unreadable);
    assert_eq!(e.message(), "TOML read failed");

    let e = apply_updates("color_camera_config = \"x\"\n", &keys, &vec!["/dev/video2".to_string()]).unwrap_err();
    assert_eq!(e, UpdateError::NotATable { key: "color_cam".to_string() });
    assert_eq!(e.message(), "cannot set `color_cam`: its section is not a table");
}
