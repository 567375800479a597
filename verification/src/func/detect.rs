//! The camera functions of the task engine, by id, and the output each reports
//! once its detection has a result (the annotated frame, when images are on,
//! comes as a data URL).
use vstd::prelude::*;
use vstd::string::*;

use crate::func::output::{TaskOutput, TaskOutputView, CODE_OK};
use crate::text::{decimal_string, int_decimal};
use crate::vision::format::{
    block_line, cross_line, format_black_ring_value, format_color_block_value, format_cross_value, ring_line,
    BlackRingResult, CrossResult,
};

verus! {

/// A successful output with a value and an optional image.
pub open spec fn engine_report(text: Seq<char>, value: Seq<char>, image: Option<Seq<char>>) -> TaskOutputView {
    TaskOutputView { code: CODE_OK, text, value: Some(value), image }
}

pub open spec fn image_text(image: Option<String>) -> Option<Seq<char>> {
    match image {
        Some(s) => Some(s@),
        None => None,
    }
}

fn report(text: String, value: String, image: Option<String>) -> (r: TaskOutput)
    ensures
        r@ == engine_report(text@, value@, image_text(image)),
{
    match image {
        Some(i) => TaskOutput::value_with_image(text, value, i),
        None => TaskOutput::value(text, value),
    }
}

/// `true` or `false`, as Rust prints a `bool`.
pub open spec fn bool_text(b: bool) -> Seq<char> {
    if b {
        "true"@
    } else {
        "false"@
    }
}

/// The colour function.
pub struct ColorDetect;

impl ColorDetect {
    /// The function id.
    pub fn id() -> (r: &'static str)
        ensures
            r@ == "color_detect"@,
    {
        "color_detect"
    }

    /// The output for a confirmed colour: the text names the colour, the value
    /// is the colour's output value.
    pub fn output(name: &str, value: &str, image: Option<String>) -> (r: TaskOutput)
        ensures
            r@ == engine_report("color_detect finished: "@ + name@, value@, image_text(image)),
    {
        let mut text = String::from_str("color_detect finished: ");
        text.append(name);
        report(text, String::from_str(value), image)
    }
}

/// The QR function.
pub struct QrDetect;

impl QrDetect {
    /// The function id.
    pub fn id() -> (r: &'static str)
        ensures
            r@ == "qr_detect"@,
    {
        "qr_detect"
    }

    /// The output for a decoded QR payload.
    pub fn output(value: &str, image: Option<String>) -> (r: TaskOutput)
        ensures
            r@ == engine_report("qr_detect finished: "@ + value@, value@, image_text(image)),
    {
        let mut text = String::from_str("qr_detect finished: ");
        text.append(value);
        report(text, String::from_str(value), image)
    }
}

/// The letter function.
pub struct LetterDetect;

impl LetterDetect {
    /// The function id.
    pub fn id() -> (r: &'static str)
        ensures
            r@ == "letter_detect"@,
    {
        "letter_detect"
    }

    /// The output for a confirmed letter.
    pub fn output(value: &str, image: Option<String>) -> (r: TaskOutput)
        ensures
            r@ == engine_report("letter_detect finished: "@ + value@, value@, image_text(image)),
    {
        let mut text = String::from_str("letter_detect finished: ");
        text.append(value);
        report(text, String::from_str(value), image)
    }
}

/// The black ring function.
pub struct BlackRingDetect;

impl BlackRingDetect {
    /// The function id.
    pub fn id() -> (r: &'static str)
        ensures
            r@ == "black_ring_detect"@,
    {
        "black_ring_detect"
    }

    /// The output for the best frame: its UART line as value.
    pub fn output(found: bool, dx: i32, dy: i32, score: u8, image: Option<String>) -> (r: TaskOutput)
        ensures
            r@ == engine_report(
                "black_ring_detect finished: "@ + ring_line(BlackRingResult { valid: found, dx, dy, score }),
                ring_line(BlackRingResult { valid: found, dx, dy, score }),
                image_text(image),
            ),
    {
        let value = format_black_ring_value(&BlackRingResult { valid: found, dx, dy, score });
        let mut text = String::from_str("black_ring_detect finished: ");
        text.append(value.as_str());
        report(text, value, image)
    }
}

/// The cross function.
pub struct CrossDetect;

impl CrossDetect {
    /// The function id.
    pub fn id() -> (r: &'static str)
        ensures
            r@ == "cross"@,
    {
        "cross"
    }

    /// The output for the best frame: its UART line (runtime parameter 0) as value.
    pub fn output(found: bool, dx: i32, dy: i32, score: u8, image: Option<String>) -> (r: TaskOutput)
        ensures
            r@ == engine_report(
                "cross finished: "@ + cross_line(CrossResult { param: 0, valid: found, dx, dy, score }),
                cross_line(CrossResult { param: 0, valid: found, dx, dy, score }),
                image_text(image),
            ),
    {
        let value = format_cross_value(&CrossResult { param: 0, valid: found, dx, dy, score });
        let mut text = String::from_str("cross finished: ");
        text.append(value.as_str());
        report(text, value, image)
    }
}

/// The colour block function.
pub struct ColorBlockDetect;

/// Where a colour block was found: its colour and output value, whether one
/// was found, its centre and its offset from the target point.
pub struct BlockReading {
    pub color: String,
    pub output: String,
    pub found: bool,
    pub center_x: i32,
    pub center_y: i32,
    pub dx: i32,
    pub dy: i32,
}

/// The text of a colour block output; `area` is the block's area rounded to a whole number, as text.
pub open spec fn block_text(b: BlockReading, area: Seq<char>) -> Seq<char> {
    "color_block_detect finished: color="@ + b.color@ + " found="@ + bool_text(b.found) + " center=("@
        + int_decimal(b.center_x as int) + ", "@ + int_decimal(b.center_y as int) + ") offset=("@
        + int_decimal(b.dx as int) + ", "@ + int_decimal(b.dy as int) + ") area="@ + area
}

impl ColorBlockDetect {
    /// The function id.
    pub fn id() -> (r: &'static str)
        ensures
            r@ == "color_block_detect"@,
    {
        "color_block_detect"
    }

    /// The output for a block reading: the text describes the block, the value
    /// is its UART line.
    pub fn output(reading: &BlockReading, area: &str, image: Option<String>) -> (r: TaskOutput)
        ensures
            r@ == engine_report(
                block_text(*reading, area@),
                block_line(reading.output@, reading.found, reading.dx, reading.dy),
                image_text(image),
            ),
    {
        let value = format_color_block_value(reading.output.as_str(), reading.found, reading.dx, reading.dy);
        let mut text = String::from_str("color_block_detect finished: color=");
        text.append(reading.color.as_str());
        text.append(" found=");
        if reading.found {
            text.append("true");
        } else {
            text.append("false");
        }
        text.append(" center=(");
        text.append(decimal_string(reading.center_x as i64).as_str());
        text.append(", ");
        text.append(decimal_string(reading.center_y as i64).as_str());
        text.append(") offset=(");
        text.append(decimal_string(reading.dx as i64).as_str());
        text.append(", ");
        text.append(decimal_string(reading.dy as i64).as_str());
        text.append(") area=");
        text.append(area);
        report(text, value, image)
    }
}

/// The debug function.
pub struct DebugFun;

/// The picture the debug function returns.
pub const DEBUG_IMAGE: &'static str = "data:image/svg+xml;charset=utf-8,%3Csvg xmlns='http://www.w3.org/2000/svg' width='640' height='360' viewBox='0 0 640 360'%3E%3Crect width='640' height='360' fill='%23263d39'/%3E%3Crect x='24' y='24' width='592' height='312' fill='%23ffffff'/%3E%3Ctext x='320' y='190' text-anchor='middle' font-family='Arial' font-size='38' fill='%231c765e'%3Edebug success%3C/text%3E%3C/svg%3E";

impl DebugFun {
    /// The function id.
    pub fn id() -> (r: &'static str)
        ensures
            r@ == "debug_fun"@,
    {
        "debug_fun"
    }

    /// The configured message, `debug` when none is configured.
    pub fn message(configured: Option<String>) -> (r: String)
        ensures
            r@ == match configured {
                Some(m) => m@,
                None => "debug"@,
            },
    {
        match configured {
            Some(m) => m,
            None => String::from_str("debug"),
        }
    }

    /// The output: `<message> success` as text and value, and the debug picture.
    pub fn output(message: &str) -> (r: TaskOutput)
        ensures
            r@ == engine_report(message@ + " success"@, message@ + " success"@, Some(DEBUG_IMAGE@)),
    {
        let mut text = String::from_str(message);
        text.append(" success");
        let value = text.clone();
        TaskOutput::value_with_image(text, value, String::from_str(DEBUG_IMAGE))
    }
}

} // verus!
