//! Sample results: fixed outputs, one per kind of detection, used to try the
//! result channels without a camera.
use vstd::prelude::*;
use vstd::string::*;

verus! {

/// A sample result: the text shown, the value sent over UART, and the mark
/// that it is a sample.
#[derive(Debug, Clone)]
pub struct ResultSample {
    pub text: String,
    pub value: String,
    pub sample: bool,
}

fn sample(text: &str, value: &str) -> (r: ResultSample)
    ensures
        r.text@ == text@,
        r.value@ == value@,
        r.sample,
{
    ResultSample { text: String::from_str(text), value: String::from_str(value), sample: true }
}

/// The sample colour result.
pub struct ColorResultSample;

impl ColorResultSample {
    /// The function id.
    pub fn id() -> (r: &'static str)
        ensures
            r@ == "sample_color_result"@,
    {
        "sample_color_result"
    }

    /// The sample: colour `blue`.
    pub fn output() -> (r: ResultSample)
        ensures
            r.text@ == "color_detect sample: blue"@,
            r.value@ == "blue"@,
            r.sample,
    {
        sample("color_detect sample: blue", "blue")
    }
}

/// The sample QR result.
pub struct QrResultSample;

impl QrResultSample {
    /// The function id.
    pub fn id() -> (r: &'static str)
        ensures
            r@ == "sample_qr_result"@,
    {
        "sample_qr_result"
    }

    /// The sample: payload `RUBO-QR-SAMPLE`.
    pub fn output() -> (r: ResultSample)
        ensures
            r.text@ == "qr_detect sample: RUBO-QR-SAMPLE"@,
            r.value@ == "RUBO-QR-SAMPLE"@,
            r.sample,
    {
        sample("qr_detect sample: RUBO-QR-SAMPLE", "RUBO-QR-SAMPLE")
    }
}

/// The sample concentric ring (cross) result.
pub struct ConcentricRingResultSample;

impl ConcentricRingResultSample {
    /// The function id.
    pub fn id() -> (r: &'static str)
        ensures
            r@ == "sample_concentric_ring_result"@,
    {
        "sample_concentric_ring_result"
    }

    /// The sample: a ring found at offset (-12, 8) with score 92.
    pub fn output() -> (r: ResultSample)
        ensures
            r.text@ == "concentric_ring sample: CROSS,0,1,-12,8,92"@,
            r.value@ == "CROSS,0,1,-12,8,92"@,
            r.sample,
    {
        sample("concentric_ring sample: CROSS,0,1,-12,8,92", "CROSS,0,1,-12,8,92")
    }
}

/// The sample black ring result.
pub struct BlackRingResultSample;

impl BlackRingResultSample {
    /// The function id.
    pub fn id() -> (r: &'static str)
        ensures
            r@ == "sample_black_ring_result"@,
    {
        "sample_black_ring_result"
    }

    /// The sample: a ring found at offset (-5, 11) with score 88.
    pub fn output() -> (r: ResultSample)
        ensures
            r.text@ == "black_ring_detect sample: RING,1,-5,11,88"@,
            r.value@ == "RING,1,-5,11,88"@,
            r.sample,
    {
        sample("black_ring_detect sample: RING,1,-5,11,88", "RING,1,-5,11,88")
    }
}

/// The sample letter result.
pub struct LetterResultSample;

impl LetterResultSample {
    /// The function id.
    pub fn id() -> (r: &'static str)
        ensures
            r@ == "sample_letter_result"@,
    {
        "sample_letter_result"
    }

    /// The sample: letter `A`.
    pub fn output() -> (r: ResultSample)
        ensures
            r.text@ == "letter_detect sample: A"@,
            r.value@ == "A"@,
            r.sample,
    {
        sample("letter_detect sample: A", "A")
    }
}

/// The sample colour block result.
pub struct ColorBlockResultSample;

impl ColorBlockResultSample {
    /// The function id.
    pub fn id() -> (r: &'static str)
        ensures
            r@ == "sample_color_block_result"@,
    {
        "sample_color_block_result"
    }

    /// The sample: a blue block found at offset (-20, 15).
    pub fn output() -> (r: ResultSample)
        ensures
            r.text@ == "color_block_detect sample: BLOCK,blue,1,-20,15"@,
            r.value@ == "BLOCK,blue,1,-20,15"@,
            r.sample,
    {
        sample("color_block_detect sample: BLOCK,blue,1,-20,15", "BLOCK,blue,1,-20,15")
    }
}

} // verus!
