//! The outputs of the typed functions: what each reports once its detection
//! has produced a value (and, for some, an annotated frame as an image).
use vstd::prelude::*;
use vstd::string::*;

use crate::config::params::DebugParams;
use crate::func::output::{TaskOutput, TaskOutputView, CODE_OK};
use crate::text::{decimal_string, int_decimal};
use crate::vision::format::{format_black_ring_value, ring_line, BlackRingResult};

verus! {

/// A successful output with a value and, when given, an image.
pub open spec fn value_report(text: Seq<char>, value: Seq<char>, image: Option<Seq<char>>) -> TaskOutputView {
    TaskOutputView { code: CODE_OK, text, value: Some(value), image }
}

/// The output of the colour function: the colour as value, the frame as image.
pub fn color_detect_output_to_function_result(color: String, image: String) -> (r: TaskOutput)
    ensures
        r@ == value_report("color_detect finished: "@ + color@, color@, Some(image@)),
{
    let mut text = String::from_str("color_detect finished: ");
    text.append(color.as_str());
    TaskOutput::value_with_image(text, color, image)
}

/// The output of the black ring function: the UART line as value, the frame as image.
pub fn black_ring_output_to_function_result(result: &BlackRingResult, image: String) -> (r: TaskOutput)
    ensures
        r@ == value_report("black_ring_detect finished: "@ + ring_line(*result), ring_line(*result), Some(image@)),
{
    let value = format_black_ring_value(result);
    let mut text = String::from_str("black_ring_detect finished: ");
    text.append(value.as_str());
    TaskOutput::value_with_image(text, value, image)
}

/// The output of the QR function: the task number read from the code.
pub fn qr_detect_output(value: i32) -> (r: TaskOutput)
    ensures
        r@ == value_report("qr_detect finished: "@ + int_decimal(value as int), int_decimal(value as int), None),
{
    let v = decimal_string(value as i64);
    let mut text = String::from_str("qr_detect finished: ");
    text.append(v.as_str());
    TaskOutput::value(text, v)
}

/// The output of the cross function: its result line.
pub fn cross_output(value: String) -> (r: TaskOutput)
    ensures
        r@ == value_report("cross finished: "@ + value@, value@, None),
{
    let mut text = String::from_str("cross finished: ");
    text.append(value.as_str());
    TaskOutput::value(text, value)
}

/// The output of the debug function: `this is the debug function <message>`.
pub fn debug_fun(params: &DebugParams) -> (r: TaskOutput)
    ensures
        r@ == (TaskOutputView {
            code: CODE_OK,
            text: "this is the debug function "@ + params.message@,
            value: None,
            image: None,
        }),
{
    let mut text = String::from_str("this is the debug function ");
    text.append(params.message.as_str());
    TaskOutput::ok(text)
}

} // verus!
