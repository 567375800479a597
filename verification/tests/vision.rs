use rubo_vision::vision::select::{not_confirmed, qr_not_detected, touches_frame_edge};
use rubo_vision::vision::config::{color_ranges, QrDetectConfig};
use rubo_vision::vision::format::{
    cross_result, format_black_ring_value, format_color_block_value, format_cross_value, ring_result,
    target_point, BlackRingResult, CrossResult, RingCandidate, TargetCorrection,
};
use rubo_vision::vision::qr::{decode_qr, decode_qr_text, parse_i32, qr_task_number};
use rubo_vision::vision::runtime_param::parse_cross_runtime_param;
use rubo_vision::vision::select::{
    best_by_score, improves_best, letter_from_holes, ConfirmTracker, StableReading,
};
use rubo_vision::config::params::{ColorDetectParams, ColorRangeConfig, QrDetectParams};
use rubo_vision::config::runtime::{DeviceKind, DeviceParam, DevicesConfig};
use rubo_vision::device::CameraDevice;

#[test]
fn cross_runtime_param_accepts_only_zero_through_five() {
    assert_eq!(parse_cross_runtime_param("0").expect("zero"), 0);
    assert_eq!(parse_cross_runtime_param("5").expect("five"), 5);
    assert!(parse_cross_runtime_param("6").is_err());
    assert!(parse_cross_runtime_param("red").is_err());
}

#[test]
fn cross_runtime_param_errors_name_the_input() {
    let e = parse_cross_runtime_param("6").unwrap_err();
    assert_eq!(e.message, "runtime_param must be between 0 and 5, got 6");
    let e = parse_cross_runtime_param("red").unwrap_err();
    assert_eq!(e.message, "runtime_param `red` is not an integer");
    assert_eq!(parse_cross_runtime_param("+3").expect("plus sign"), 3);
    assert!(parse_cross_runtime_param("").is_err());
    assert!(parse_cross_runtime_param("256").is_err());
}

#[test]
fn format_color_block_value_test() {
    assert_eq!(format_color_block_value("blue", true, -90, -170), "BLOCK,blue,1,-90,-170");
    assert_eq!(format_color_block_value("unknown", false, 0, 0), "BLOCK,unknown,0,0,0");
}

#[test]
fn cross_value_formats_valid_and_invalid_results() {
    let valid = CrossResult { param: 0, valid: true, dx: -42, dy: 18, score: 91 };
    let invalid = CrossResult { valid: false, ..valid };
    assert_eq!(format_cross_value(&valid), "CROSS,0,1,-42,18,91");
    assert_eq!(format_cross_value(&invalid), "CROSS,0,0,0,0,0");
}

#[test]
fn black_ring_value_formats_valid_and_invalid_results() {
    let valid = BlackRingResult { valid: true, dx: -42, dy: 18, score: 87 };
    assert_eq!(format_black_ring_value(&valid), "RING,1,-42,18,87");
    assert_eq!(format_black_ring_value(&BlackRingResult::invalid()), "RING,0,0,0,0");
}

#[test]
fn ring_offset_is_measured_from_the_corrected_frame_centre() {
    let correction = TargetCorrection { x: 0, y: 0 };
    let candidate = RingCandidate { center_x: 400, center_y: 250, score: 77 };
    let r = ring_result(Some(candidate), 640, 480, correction);
    assert!(r.valid);
    assert_eq!((r.dx, r.dy, r.score), (80, 10, 77));
    let shifted = ring_result(Some(candidate), 640, 480, TargetCorrection { x: 5, y: -3 });
    assert_eq!((shifted.dx, shifted.dy), (75, 13));
    assert_eq!(ring_result(None, 640, 480, correction), BlackRingResult::invalid());
    assert_eq!(target_point(640, 480, TargetCorrection { x: 5, y: -3 }), (325, 237));
}

#[test]
fn cross_result_reads_the_ring_or_the_requested_cylinder() {
    let correction = TargetCorrection { x: 0, y: 0 };
    let group = RingCandidate { center_x: 278, center_y: 258, score: 91 };
    let r = cross_result(Some(group), None, 0, 640, 480, correction);
    assert_eq!(r, CrossResult { param: 0, valid: true, dx: -42, dy: 18, score: 91 });
    let ring = RingCandidate { center_x: 320, center_y: 240, score: 80 };
    let red = cross_result(Some(ring), Some((390, 260)), 1, 640, 480, correction);
    assert_eq!(red, CrossResult { param: 1, valid: true, dx: 70, dy: 20, score: 80 });
    assert_eq!(format_cross_value(&red), "CROSS,1,1,70,20,80");
    assert_eq!(cross_result(Some(ring), None, 2, 640, 480, correction), CrossResult::invalid(2));
    assert_eq!(cross_result(None, Some((390, 260)), 1, 640, 480, correction), CrossResult::invalid(1));
    assert_eq!(cross_result(None, None, 0, 640, 480, correction), CrossResult::invalid(0));
}

#[test]
fn best_frame_is_the_first_with_the_highest_score() {
    assert_eq!(best_by_score(&vec![]), None);
    assert_eq!(best_by_score(&vec![10, 40, 40, 3]), Some(1));
    assert_eq!(best_by_score(&vec![7]), Some(0));
    assert!(improves_best(None, 0));
    assert!(improves_best(Some(10), 11));
    assert!(!improves_best(Some(10), 10));
}

#[test]
fn letter_is_told_by_hole_count() {
    assert_eq!(letter_from_holes(0).as_deref(), Some("C"));
    assert_eq!(letter_from_holes(1).as_deref(), Some("A"));
    assert_eq!(letter_from_holes(2).as_deref(), Some("B"));
    assert_eq!(letter_from_holes(3), None);
}

#[test]
fn confirm_tracker_confirms_after_consecutive_frames() {
    let mut t = ConfirmTracker::new();
    assert!(!t.step(Some("red"), 3));
    assert!(!t.step(Some("red"), 3));
    assert!(!t.step(Some("blue"), 3));
    assert_eq!(t.consecutive, 1);
    assert!(!t.step(None, 3));
    assert_eq!(t.consecutive, 0);
    assert!(!t.step(Some("blue"), 3));
    assert!(!t.step(Some("blue"), 3));
    assert!(t.step(Some("blue"), 3));
    assert_eq!(t.candidate.as_deref(), Some("blue"));
}

#[test]
fn stable_reading_resets_on_a_different_colour() {
    let mut s = StableReading::new();
    assert_eq!(s.step("red".to_string(), 3), None);
    assert_eq!(s.step("red".to_string(), 3), None);
    assert_eq!(s.step("blue".to_string(), 3), None);
    assert_eq!(s.count, 0);
    assert_eq!(s.best, "");
    assert_eq!(s.step("blue".to_string(), 3), None);
    assert_eq!(s.count, 1);
    assert_eq!(s.step("blue".to_string(), 3), None);
    assert_eq!(s.step("blue".to_string(), 3).as_deref(), Some("blue"));
}

#[test]
fn qr_payload_is_read_as_a_task_number() {
    assert_eq!(qr_task_number("42"), Ok(42));
    assert_eq!(qr_task_number("-7"), Ok(-7));
    assert_eq!(qr_task_number("RUBO").unwrap_err(), "qr payload is not an integer: RUBO");
    assert_eq!(parse_i32("2147483647"), Some(2147483647));
    assert_eq!(parse_i32("-2147483648"), Some(-2147483648));
    assert_eq!(parse_i32("2147483648"), None);
    assert_eq!(parse_i32("+12"), Some(12));
    assert_eq!(parse_i32("-"), None);
    assert_eq!(parse_i32(""), None);
    assert_eq!(parse_i32("1 2"), None);
}

#[test]
fn blank_frame_holds_no_qr_code() {
    let width = 64;
    let height = 48;
    let white = vec![255u8; width * height];
    assert_eq!(decode_qr(width, height, &white), None);
    assert_eq!(decode_qr_text(width, height, &white), "");
    let stripes: Vec<u8> = (0..width * height).map(|i| if (i / 3) % 2 == 0 { 0 } else { 255 }).collect();
    assert_eq!(decode_qr(width, height, &stripes), None);
}

#[test]
fn qr_detect_config_from_config_file() {
    let devices = DevicesConfig {
        list: vec![DeviceParam {
            device_id: "qr_camera".to_string(),
            kind: DeviceKind::Camera,
            path: "/dev/video2".to_string(),
        }],
    };
    let device = devices.list.iter().find(|d| d.device_id == "qr_camera").expect("qr camera");
    let camera = CameraDevice::new(&device.path);
    let config = QrDetectConfig::from_params(&QrDetectParams { debug_model: false }, &camera);
    assert_eq!(config.path, device.path);
    assert!(!config.debug_model);
}

#[test]
fn color_ranges_keep_names_and_bounds_in_order() {
    let params = ColorDetectParams {
        debug_model: false,
        loop_count: 5,
        radius_ratio_valid: true,
        detect_area_access_rate_valid: true,
        color_ranges: vec![
            ColorRangeConfig { name: "red".to_string(), hsv: [0, 50, 160, 255, 110, 255] },
            ColorRangeConfig { name: "blue".to_string(), hsv: [100, 137, 124, 255, 56, 255] },
        ],
    };
    let ranges = color_ranges(&params);
    let names: Vec<&str> = ranges.iter().map(|r| r.name.as_str()).collect();
    assert_eq!(names, vec!["red", "blue"]);
    assert_eq!(ranges[1].hsv, [100, 137, 124, 255, 56, 255]);
}

#[test]
fn frame_edge_and_exhausted_search_messages() {
    assert!(touches_frame_edge(3, 100, 50, 50, 640, 480, 5));
    assert!(touches_frame_edge(100, 100, 540, 50, 640, 480, 5));
    assert!(!touches_frame_edge(100, 100, 50, 50, 640, 480, 5));
    assert_eq!(not_confirmed("color", 30), "color was not confirmed within 30 frames");
    assert_eq!(qr_not_detected(3), "qr code was not detected within 3 frames");
}

/// A version 1 QR code holding the text `42`, one string per row (`#` dark).
const QR_42: [&str; 21] = [
    "#######...#.#.#######",
    "#.....#.....#.#.....#",
    "#.###.#.#.#...#.###.#",
    "#.###.#.....#.#.###.#",
    "#.###.#..#.##.#.###.#",
    "#.....#..###..#.....#",
    "#######.#.#.#.#######",
    "........#.#..........",
    "###.#####.#.###...#..",
    ".#......#..#.#.#.#..#",
    "##.##.#.##.#.###....#",
    "...##..##.####.###.#.",
    ".##..##.##.#.###..###",
    "........###...#...#.#",
    "#######.##..#...#...#",
    "#.....#.##....#...###",
    "#.###.#.#.#.#.#.#.#.#",
    "#.###.#....#.#.#.#.#.",
    "#.###.#.####.###.##.#",
    "#.....#.#..###.###.#.",
    "#######.##.#.###.####",
];

/// The code drawn as a grayscale image: `scale` pixels per module, with a
/// quiet zone of `quiet` modules.
fn qr_image(rows: &[&str], scale: usize, quiet: usize) -> (usize, usize, Vec<u8>) {
    let modules = rows.len() + 2 * quiet;
    let side = modules * scale;
    let mut image = vec![255u8; side * side];
    for (r, row) in rows.iter().enumerate() {
        for (c, cell) in row.chars().enumerate() {
            if cell == '#' {
                for dy in 0..scale {
                    for dx in 0..scale {
                        let y = (r + quiet) * scale + dy;
                        let x = (c + quiet) * scale + dx;
                        image[y * side + x] = 0;
                    }
                }
            }
        }
    }
    (side, side, image)
}

#[test]
fn qr_code_payload_is_decoded_as_text_and_task_number() {
    let (width, height, image) = qr_image(&QR_42, 4, 4);
    assert_eq!(decode_qr(width, height, &image).as_deref(), Some("42"));
    let text = decode_qr_text(width, height, &image);
    assert_eq!(text, "42");
    assert_eq!(qr_task_number(&text), Ok(42));
}
