use rubo_vision::config::legacy::ParamValue;
use rubo_vision::config::params::{ColorDetectParams, ColorRangeConfig, CrossColorConfig, CrossDetectParams};
use rubo_vision::config::runtime::{FunctionEntryConfig, FunctionsConfig, ReturnTargets};
use rubo_vision::device::Device;
use rubo_vision::func::output::{TaskError, TaskOutput};
use rubo_vision::func::register::{register_func, FunctionKind};
use rubo_vision::func::tarits::ValidateParams;
use rubo_vision::vision::format::TargetCorrection;

type Runner = fn(u8, &Device) -> Result<TaskOutput, TaskError>;

fn echo_runner(p: u8, _d: &Device) -> Result<TaskOutput, TaskError> {
    Ok(TaskOutput::value("done".to_string(), p.to_string()))
}

fn fail(message: String) -> TaskError {
    TaskError::Failed { message }
}

fn text(s: &str) -> ParamValue {
    ParamValue::Text(s.to_string())
}

fn float(s: &str) -> ParamValue {
    ParamValue::Float(s.to_string())
}

fn table(entries: Vec<(&str, ParamValue)>) -> ParamValue {
    ParamValue::Table(entries.into_iter().map(|(k, v)| (k.to_string(), v)).collect())
}

fn hsv(values: [i64; 6]) -> ParamValue {
    ParamValue::Array(values.iter().map(|v| ParamValue::Integer(*v)).collect())
}

fn entries_of(p: &ParamValue) -> Result<&Vec<(String, ParamValue)>, TaskError> {
    match p {
        ParamValue::Table(entries) => Ok(entries),
        _ => Err(fail("params must be a table".to_string())),
    }
}

fn field<'a>(p: &'a ParamValue, key: &str) -> Result<&'a ParamValue, TaskError> {
    entries_of(p)?
        .iter()
        .find(|(k, _)| k == key)
        .map(|(_, v)| v)
        .ok_or_else(|| fail(format!("missing field `{key}`")))
}

fn int_field(p: &ParamValue, key: &str) -> Result<i64, TaskError> {
    match field(p, key)? {
        ParamValue::Integer(v) => Ok(*v),
        _ => Err(fail(format!("`{key}` must be an integer"))),
    }
}

fn float_field(p: &ParamValue, key: &str) -> Result<f64, TaskError> {
    match field(p, key)? {
        ParamValue::Float(s) => s.parse::<f64>().map_err(|_| fail(format!("`{key}` must be a number"))),
        ParamValue::Integer(v) => Ok(*v as f64),
        _ => Err(fail(format!("`{key}` must be a number"))),
    }
}

fn bool_field(p: &ParamValue, key: &str) -> Result<bool, TaskError> {
    match field(p, key)? {
        ParamValue::Boolean(b) => Ok(*b),
        _ => Err(fail(format!("`{key}` must be a boolean"))),
    }
}

fn text_field(p: &ParamValue, key: &str) -> Result<String, TaskError> {
    match field(p, key)? {
        ParamValue::Text(s) => Ok(s.clone()),
        _ => Err(fail(format!("`{key}` must be a string"))),
    }
}

fn array_field<'a>(p: &'a ParamValue, key: &str) -> Result<&'a Vec<ParamValue>, TaskError> {
    match field(p, key)? {
        ParamValue::Array(items) => Ok(items),
        _ => Err(fail(format!("`{key}` must be an array"))),
    }
}

fn hsv_field(p: &ParamValue) -> Result<[i32; 6], TaskError> {
    let items = array_field(p, "hsv")?;
    if items.len() != 6 {
        return Err(fail("`hsv` must hold six numbers".to_string()));
    }
    let mut out = [0i32; 6];
    for (i, item) in items.iter().enumerate() {
        out[i] = match item {
            ParamValue::Integer(v) => *v as i32,
            _ => return Err(fail("`hsv` must hold integers".to_string())),
        };
    }
    Ok(out)
}

fn color_params(p: &ParamValue) -> Result<ColorDetectParams, TaskError> {
    let radius_ratio = float_field(p, "radius_ratio")?;
    let rate = float_field(p, "detect_area_access_rate")?;
    let mut color_ranges = Vec::new();
    for range in array_field(p, "color_ranges")? {
        color_ranges.push(ColorRangeConfig { name: text_field(range, "name")?, hsv: hsv_field(range)? });
    }
    Ok(ColorDetectParams {
        debug_model: bool_field(p, "debug_model")?,
        loop_count: int_field(p, "loop_count")? as i32,
        radius_ratio_valid: radius_ratio > 0.0 && radius_ratio <= 0.5,
        detect_area_access_rate_valid: (0.0..=1.0).contains(&rate),
        color_ranges,
    })
}

const CROSS_KEYS: [&str; 10] = [
    "debug_model",
    "loop_count",
    "target_correction",
    "black_threshold",
    "min_radius",
    "max_radius",
    "center_tolerance",
    "min_arc_points",
    "min_ring_score",
    "colors",
];

fn cross_params(p: &ParamValue) -> Result<CrossDetectParams, TaskError> {
    for (k, _) in entries_of(p)? {
        if !CROSS_KEYS.contains(&k.as_str()) {
            return Err(fail(format!("unknown field `{k}`")));
        }
    }
    let min_radius = float_field(p, "min_radius")?;
    let max_radius = float_field(p, "max_radius")?;
    let correction = field(p, "target_correction")?;
    let mut colors = Vec::new();
    for color in array_field(p, "colors")? {
        let min_area = float_field(color, "min_area")?;
        let min_circularity = float_field(color, "min_circularity")?;
        colors.push(CrossColorConfig {
            id: int_field(color, "id")? as u8,
            name: text_field(color, "name")?,
            hsv: hsv_field(color)?,
            min_area_positive: min_area > 0.0,
            min_circularity_valid: (0.0..=1.0).contains(&min_circularity),
        });
    }
    Ok(CrossDetectParams {
        debug_model: bool_field(p, "debug_model")?,
        loop_count: int_field(p, "loop_count")? as i32,
        target_correction: TargetCorrection {
            x: int_field(correction, "x")? as i32,
            y: int_field(correction, "y")? as i32,
        },
        black_threshold: int_field(p, "black_threshold")? as i32,
        min_radius_positive: min_radius > 0.0,
        radii_ordered: !(max_radius < min_radius),
        center_tolerance_positive: float_field(p, "center_tolerance")? > 0.0,
        min_arc_points: int_field(p, "min_arc_points")? as usize,
        min_ring_score: int_field(p, "min_ring_score")? as u8,
        colors,
    })
}

fn checked(verdict: Result<(), rubo_vision::params::ParamError>) -> Result<Runner, TaskError> {
    verdict.map(|_| echo_runner as Runner).map_err(|e| fail(e.message))
}

/// Builds a runner after reading and checking the entry's typed parameters.
fn build(entry: &FunctionEntryConfig, kind: FunctionKind) -> Result<Runner, TaskError> {
    match kind {
        FunctionKind::ColorDetect => checked(color_params(&entry.params)?.validate()),
        FunctionKind::Cross => checked(cross_params(&entry.params)?.validate()),
        _ => Ok(echo_runner as Runner),
    }
}

fn color_entry() -> FunctionEntryConfig {
    FunctionEntryConfig {
        function_id: "color_detect".to_string(),
        returns: ReturnTargets::default(),
        params: table(vec![
            ("debug_model", ParamValue::Boolean(false)),
            ("loop_count", ParamValue::Integer(5)),
            ("radius_ratio", float("0.3")),
            ("detect_area_access_rate", float("0.4")),
            (
                "color_ranges",
                ParamValue::Array(vec![
                    table(vec![("name", text("red")), ("hsv", hsv([0, 10, 100, 255, 80, 255]))]),
                    table(vec![("name", text("blue")), ("hsv", hsv([100, 130, 100, 255, 80, 255]))]),
                ]),
            ),
        ]),
    }
}

fn cross_color(id: i64, name: &str) -> ParamValue {
    table(vec![
        ("id", ParamValue::Integer(id)),
        ("name", text(name)),
        ("hsv", hsv([0, 10, 100, 255, 80, 255])),
        ("min_area", float("300.0")),
        ("min_circularity", float("0.5")),
    ])
}

fn cross_entry() -> FunctionEntryConfig {
    FunctionEntryConfig {
        function_id: "cross".to_string(),
        returns: ReturnTargets::default(),
        params: table(vec![
            ("debug_model", ParamValue::Boolean(false)),
            ("loop_count", ParamValue::Integer(5)),
            ("target_correction", table(vec![("x", ParamValue::Integer(0)), ("y", ParamValue::Integer(0))])),
            ("black_threshold", ParamValue::Integer(80)),
            ("min_radius", float("20.0")),
            ("max_radius", float("220.0")),
            ("center_tolerance", float("20.0")),
            ("min_arc_points", ParamValue::Integer(20)),
            ("min_ring_score", ParamValue::Integer(35)),
            (
                "colors",
                ParamValue::Array(vec![
                    cross_color(1, "red"),
                    cross_color(2, "green"),
                    cross_color(3, "blue"),
                    cross_color(4, "yellow"),
                    cross_color(5, "black"),
                ]),
            ),
        ]),
    }
}

fn debug_entry() -> FunctionEntryConfig {
    FunctionEntryConfig {
        function_id: "debug_fun".to_string(),
        returns: ReturnTargets::default(),
        params: table(vec![("message", text("hello"))]),
    }
}

fn functions() -> FunctionsConfig {
    FunctionsConfig { entries: vec![color_entry(), cross_entry(), debug_entry()] }
}

fn entry_mut<'a>(cfg: &'a mut FunctionsConfig, id: &str) -> &'a mut Vec<(String, ParamValue)> {
    let entry = cfg.entries.iter_mut().find(|e| e.function_id == id).expect("configured function");
    match &mut entry.params {
        ParamValue::Table(entries) => entries,
        _ => panic!("params table"),
    }
}

fn set(entries: &mut Vec<(String, ParamValue)>, key: &str, value: ParamValue) {
    match entries.iter_mut().find(|(k, _)| k == key) {
        Some((_, v)) => *v = value,
        None => entries.push((key.to_string(), value)),
    }
}

#[test]
fn base_functions_register() {
    assert!(register_func(&functions(), build).is_ok());
}

#[test]
fn register_func_rejects_invalid_typed_params() {
    let mut functions = functions();
    entry_mut(&mut functions, "color_detect").retain(|(k, _)| k != "loop_count");
    assert!(register_func(&functions, build).is_err());
}

#[test]
fn register_func_rejects_out_of_range_typed_params() {
    let mut functions = functions();
    set(entry_mut(&mut functions, "color_detect"), "radius_ratio", float("2.0"));
    assert!(register_func(&functions, build).is_err());
}

#[test]
fn register_func_rejects_invalid_cross_radius_order() {
    let mut functions = functions();
    set(entry_mut(&mut functions, "cross"), "min_radius", float("700.0"));
    assert!(register_func(&functions, build).is_err());
}

#[test]
fn register_func_rejects_duplicate_cross_color_ids() {
    let mut functions = functions();
    let cross = entry_mut(&mut functions, "cross");
    let colors = match cross.iter_mut().find(|(k, _)| k == "colors") {
        Some((_, ParamValue::Array(colors))) => colors,
        _ => panic!("cross colors"),
    };
    match &mut colors[4] {
        ParamValue::Table(color) => set(color, "id", ParamValue::Integer(1)),
        _ => panic!("cross color table"),
    }
    assert!(register_func(&functions, build).is_err());
}

#[test]
fn register_func_rejects_invalid_cross_morphology_kernel() {
    let mut functions = functions();
    set(entry_mut(&mut functions, "cross"), "close_kernel_size", ParamValue::Integer(4));
    assert!(register_func(&functions, build).is_err());
}

#[test]
fn register_func_rejects_invalid_cross_dilate_kernel() {
    let mut functions = functions();
    set(entry_mut(&mut functions, "cross"), "dilate_kernel_size", ParamValue::Integer(2));
    assert!(register_func(&functions, build).is_err());
}

#[test]
fn register_func_rejects_invalid_cross_morphology_iterations() {
    let mut functions = functions();
    set(entry_mut(&mut functions, "cross"), "dilate_iterations", ParamValue::Integer(6));
    assert!(register_func(&functions, build).is_err());
}
