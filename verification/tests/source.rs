use rubo_vision::data_url::jpeg_data_url;
use rubo_vision::config::binding::{DebugBinding, UartBinding};
use rubo_vision::device::gpio::{gpio_pins, pin_level, GpioActivity};
use rubo_vision::init::task_dispatch::Event;
use rubo_vision::message::{uart_line, MessageRouter, SinkMessage};
use rubo_vision::func::output::TaskOutput;
use rubo_vision::config::runtime::ReturnTargets;
use rubo_vision::source::{debug_event, trigger_status, uart_event, FrameDecoder, UartFrame};
use rubo_vision::text::{decimal_string, is_blank};

#[test]
fn whole_frame_is_read() {
    let mut d = FrameDecoder::new();
    let (frames, overflow) = d.push(&[0xAA, 0x01, 0x00, 0x55]);
    assert_eq!(frames, vec![UartFrame { cmd: 1, param: 0 }]);
    assert!(!overflow);
}

#[test]
fn split_frame_is_kept_until_complete() {
    let mut d = FrameDecoder::new();
    assert!(d.push(&[0xAA, 0x03]).0.is_empty());
    assert!(d.push(&[0x02]).0.is_empty());
    assert_eq!(d.push(&[0x55]).0, vec![UartFrame { cmd: 3, param: 2 }]);
}

#[test]
fn noise_before_head_is_dropped_and_frames_follow_each_other() {
    let mut d = FrameDecoder::new();
    let bytes = [0x00, 0x13, 0xAA, 0x02, 0x00, 0x55, 0xAA, 0x03, 0x04, 0x55];
    let (frames, _) = d.push(&bytes);
    assert_eq!(frames, vec![UartFrame { cmd: 2, param: 0 }, UartFrame { cmd: 3, param: 4 }]);
}

#[test]
fn bad_tail_drops_one_byte_and_resynchronises() {
    let mut d = FrameDecoder::new();
    let (frames, _) = d.push(&[0xAA, 0xAA, 0x05, 0x00, 0x55]);
    assert_eq!(frames, vec![UartFrame { cmd: 5, param: 0 }]);
}

#[test]
fn long_chunks_are_read_and_only_a_partial_frame_is_kept() {
    let mut d = FrameDecoder::new();
    let heads = vec![0xAAu8; 65];
    let (frames, overflow) = d.push(&heads);
    assert!(frames.is_empty());
    assert!(!overflow);
    assert_eq!(d.push(&[0xAA, 0x01, 0x00, 0x55]).0, vec![UartFrame { cmd: 1, param: 0 }]);

    let mut many: Vec<u8> = Vec::new();
    for i in 0..17u8 {
        many.extend_from_slice(&[0xAA, 0x03, i, 0x55]);
    }
    assert_eq!(many.len(), 68);
    let (frames, overflow) = d.push(&many);
    assert!(!overflow);
    assert_eq!(frames.len(), 17);
    assert_eq!(frames[16], UartFrame { cmd: 3, param: 16 });
}

#[test]
fn frames_become_events_through_uart_bindings() {
    let bindings = vec![UartBinding {
        task_id: "uart_cross_detect".to_string(),
        source_key: 3,
        device_id: "cross_camera".to_string(),
        function_id: "cross_detect".to_string(),
    }];
    match uart_event(&bindings, UartFrame { cmd: 3, param: 2 }) {
        Some(Event::UsualEvent { task_id, function_id, device_id, runtime_param }) => {
            assert_eq!(task_id, "uart_cross_detect");
            assert_eq!(function_id, "cross_detect");
            assert_eq!(device_id, "cross_camera");
            assert_eq!(runtime_param, 2);
        },
        _ => panic!("event expected"),
    }
    assert!(uart_event(&bindings, UartFrame { cmd: 4, param: 0 }).is_none());
}

#[test]
fn debug_triggers_answer_with_status() {
    let bindings = vec![DebugBinding {
        task_id: "debug_color_detect".to_string(),
        source_key: "color".to_string(),
        device_id: "color_camera".to_string(),
        function_id: "color_detect".to_string(),
    }];
    match debug_event(&bindings, "color") {
        Ok(Event::UsualEvent { function_id, runtime_param, .. }) => {
            assert_eq!(function_id, "color_detect");
            assert_eq!(runtime_param, 0);
        },
        _ => panic!("event expected"),
    }
    assert_eq!(debug_event(&bindings, "qr").err(), Some(404));
    assert_eq!(trigger_status(true), 202);
    assert_eq!(trigger_status(false), 503);
}

#[test]
fn gpio_device_test() {
    let mut gpio = GpioActivity::new();
    assert_eq!(gpio.begin(), Some(true));
    assert_eq!(gpio.begin(), None);
    assert!(gpio.active);
    assert_eq!(gpio.active_count, 2);
    assert_eq!(gpio.end(), None);
    assert!(gpio.active);
    assert_eq!(gpio.end(), Some(false));
    assert!(!gpio.active);
    assert_eq!(gpio.active_count, 0);
    assert_eq!(gpio.end(), None);
    assert_eq!(gpio.active_count, 0);
}

#[test]
fn gpio_pins_are_sorted_and_distinct() {
    assert_eq!(gpio_pins(27, &vec![22, 17, 27, 1 << 40]), vec![17, 22, 27]);
    assert_eq!(gpio_pins(3, &Vec::new()), vec![3]);
    assert!(!pin_level(true, true));
    assert!(pin_level(true, false));
    assert!(pin_level(false, true));
}

#[test]
fn outputs_are_routed_to_the_enabled_channels() {
    let router = MessageRouter::new(true, true, false);
    let targets = ReturnTargets { web: false, uart: true, gpio: Some("qr".to_string()) };
    let out = TaskOutput::ok("only text".to_string());
    let messages = router.route(&targets, &out);
    assert_eq!(messages.len(), 1);
    assert!(matches!(&messages[0], SinkMessage::Uart(l) if l == "only text\n"));
    assert!(router.task_started(&targets).is_empty());
    assert_eq!(uart_line(&TaskOutput::value("t".to_string(), "v".to_string())), "v\n");
}

#[test]
fn text_helpers() {
    assert_eq!(decimal_string(-42), "-42");
    assert_eq!(decimal_string(0), "0");
    assert_eq!(decimal_string(i64::MIN), "-9223372036854775808");
    assert!(is_blank(" \t\n"));
    assert!(is_blank(""));
    assert!(!is_blank(" a "));
}

#[test]
fn jpeg_bytes_become_a_base64_data_url() {
    assert_eq!(jpeg_data_url(b"Man"), "data:image/jpeg;base64,TWFu");
    assert_eq!(jpeg_data_url(b"Ma"), "data:image/jpeg;base64,TWE=");
    assert_eq!(jpeg_data_url(b"M"), "data:image/jpeg;base64,TQ==");
    assert_eq!(jpeg_data_url(b""), "data:image/jpeg;base64,");
    assert_eq!(jpeg_data_url(&[0xFF, 0xD8, 0xFF, 0xE0]), "data:image/jpeg;base64,/9j/4A==");
    assert_eq!(jpeg_data_url(b"foobar"), "data:image/jpeg;base64,Zm9vYmFy");
}
