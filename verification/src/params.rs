//! Checks on the typed parameters of the vision functions. Floating-point
//! parameters are judged by the loader; their verdicts are carried here as
//! booleans so that the order of the checks, and the error reported, stay exact.
use vstd::prelude::*;
use vstd::string::*;

use crate::text::{is_blank, is_blank_spec};
use crate::vision::format::TargetCorrection;

verus! {

/// Why a function's parameters were refused.
#[derive(Debug, Clone)]
pub struct ParamError {
    pub message: String,
}

/// The outcome of a check: `None` when it passed, else its message.
pub open spec fn outcome(r: Result<(), ParamError>) -> Option<Seq<char>> {
    match r {
        Ok(()) => None,
        Err(e) => Some(e.message@),
    }
}

fn fail(message: &str) -> (r: Result<(), ParamError>)
    ensures
        outcome(r) == Some(message@),
{
    Err(ParamError { message: String::from_str(message) })
}

fn fail_joined(prefix: &str, suffix: &str) -> (r: Result<(), ParamError>)
    ensures
        outcome(r) == Some(prefix@ + suffix@),
{
    let mut s = String::from_str(prefix);
    s.append(suffix);
    Err(ParamError { message: s })
}

fn fail_named(prefix: &str, name: &str, suffix: &str) -> (r: Result<(), ParamError>)
    ensures
        outcome(r) == Some(prefix@ + name@ + suffix@),
{
    let mut s = String::from_str(prefix);
    s.append(name);
    s.append(suffix);
    Err(ParamError { message: s })
}

/// An HSV range `[h_min, h_max, s_min, s_max, v_min, v_max]` is valid when hue
/// lies in 0..=179, saturation and value in 0..=255, and each minimum is at most
/// its maximum.
pub open spec fn hsv_range_valid(r: [i32; 6]) -> bool {
    &&& 0 <= r[0] <= 179 && 0 <= r[1] <= 179 && r[0] <= r[1]
    &&& 0 <= r[2] <= 255 && 0 <= r[3] <= 255 && r[2] <= r[3]
    &&& 0 <= r[4] <= 255 && 0 <= r[5] <= 255 && r[4] <= r[5]
}

/// Whether an HSV range is valid.
pub fn hsv_valid(r: [i32; 6]) -> (ok: bool)
    ensures
        ok == hsv_range_valid(r),
{
    let valid_h = 0 <= r[0] && r[0] <= 179 && 0 <= r[1] && r[1] <= 179 && r[0] <= r[1];
    let valid_s = 0 <= r[2] && r[2] <= 255 && 0 <= r[3] && r[3] <= 255 && r[2] <= r[3];
    let valid_v = 0 <= r[4] && r[4] <= 255 && 0 <= r[5] && r[5] <= 255 && r[4] <= r[5];
    valid_h && valid_s && valid_v
}

/// A kernel size is a positive odd number.
pub open spec fn kernel_size_valid(size: i32) -> bool {
    size > 0 && size % 2 != 0
}

/// Whether a morphology kernel size is a positive odd number.
pub fn kernel_valid(size: i32) -> (ok: bool)
    ensures
        ok == kernel_size_valid(size),
{
    !(size <= 0 || size % 2 == 0)
}

// ---------------------------------------------------------------------------
// Colour definitions shared by the colour functions.

/// A named colour: the name reported, an optional output text sent instead of
/// the name, and the HSV ranges whose union makes up the colour.
#[derive(Debug, Clone)]
pub struct ColorDefinition {
    pub name: String,
    pub output: Option<String>,
    pub hsv_ranges: Vec<[i32; 6]>,
}

impl ColorDefinition {
    /// The text reported for this colour: its output, or its name.
    pub fn output(&self) -> (r: &str)
        ensures
            r@ == match self.output {
                Some(o) => o@,
                None => self.name@,
            },
    {
        match &self.output {
            Some(o) => o.as_str(),
            None => self.name.as_str(),
        }
    }

    /// The first invalid range, checked from position `i`.
    pub open spec fn first_invalid_range(ranges: Seq<[i32; 6]>) -> bool {
        exists|k: int| 0 <= k < ranges.len() && !hsv_range_valid(ranges[k])
    }

    /// The refusal of this colour for function `fid`, if any.
    pub open spec fn error(&self, fid: Seq<char>) -> Option<Seq<char>> {
        if is_blank_spec(self.name@) {
            Some(fid + " color name cannot be empty"@)
        } else if self.output matches Some(o) && is_blank_spec(o@) {
            Some(fid + " color `"@ + self.name@ + "` output cannot be empty"@)
        } else if self.hsv_ranges@.len() == 0 {
            Some(fid + " color `"@ + self.name@ + "` must contain at least one HSV range"@)
        } else if Self::first_invalid_range(self.hsv_ranges@) {
            Some(fid + " color `"@ + self.name@ + "` contains an invalid HSV range"@)
        } else {
            None
        }
    }

    /// Checks the colour for function `function_id`.
    pub fn validate(&self, function_id: &str) -> (r: Result<(), ParamError>)
        ensures
            outcome(r) == self.error(function_id@),
    {
        if is_blank(self.name.as_str()) {
            return fail_joined(function_id, " color name cannot be empty");
        }
        match &self.output {
            Some(o) => {
                if is_blank(o.as_str()) {
                    let mut p = String::from_str(function_id);
                    p.append(" color `");
                    return fail_named(p.as_str(), self.name.as_str(), "` output cannot be empty");
                }
            },
            None => {},
        }
        if self.hsv_ranges.len() == 0 {
            let mut p = String::from_str(function_id);
            p.append(" color `");
            return fail_named(p.as_str(), self.name.as_str(), "` must contain at least one HSV range");
        }
        let mut i: usize = 0;
        while i < self.hsv_ranges.len()
            invariant
                i <= self.hsv_ranges.len(),
                forall|k: int| 0 <= k < i ==> hsv_range_valid(self.hsv_ranges@[k]),
                !is_blank_spec(self.name@),
                !(self.output matches Some(o) && is_blank_spec(o@)),
                self.hsv_ranges@.len() > 0,
            decreases self.hsv_ranges.len() - i,
        {
            if !hsv_valid(self.hsv_ranges[i]) {
                assert(!hsv_range_valid(self.hsv_ranges@[i as int]));
                assert(Self::first_invalid_range(self.hsv_ranges@));
                let mut p = String::from_str(function_id);
                p.append(" color `");
                return fail_named(p.as_str(), self.name.as_str(), "` contains an invalid HSV range");
            }
            i += 1;
        }
        Ok(())
    }
}

/// The first refusal among colours, from position `i`.
pub open spec fn colors_error(colors: Seq<ColorDefinition>, fid: Seq<char>, i: int) -> Option<Seq<char>>
    decreases colors.len() - i,
{
    if i < 0 || i >= colors.len() {
        None
    } else if colors[i].error(fid) is Some {
        colors[i].error(fid)
    } else {
        colors_error(colors, fid, i + 1)
    }
}

fn validate_colors(colors: &Vec<ColorDefinition>, function_id: &str) -> (r: Result<(), ParamError>)
    ensures
        outcome(r) == colors_error(colors@, function_id@, 0),
{
    let mut i: usize = 0;
    while i < colors.len()
        invariant
            i <= colors.len(),
            colors_error(colors@, function_id@, 0) == colors_error(colors@, function_id@, i as int),
        decreases colors.len() - i,
    {
        let r = colors[i].validate(function_id);
        if r.is_err() {
            return r;
        }
        i += 1;
    }
    Ok(())
}

// ---------------------------------------------------------------------------
// Parameters of the vision functions.


/// Parameters of `qr_detect`.
#[derive(Debug, Clone)]
pub struct QrParameters {
    pub device_id: String,
    pub max_frames: usize,
}

impl QrParameters {
    pub open spec fn error(&self) -> Option<Seq<char>> {
        if is_blank_spec(self.device_id@) {
            Some("qr_detect.device_id cannot be empty"@)
        } else if self.max_frames == 0 {
            Some("qr_detect.max_frames must be greater than 0"@)
        } else {
            None
        }
    }

    /// Checks the parameters; the error is the first failed check.
    pub fn validate(&self) -> (r: Result<(), ParamError>)
        ensures
            outcome(r) == self.error(),
    {
        if is_blank(self.device_id.as_str()) {
            return fail("qr_detect.device_id cannot be empty");
        }
        if self.max_frames == 0 {
            return fail("qr_detect.max_frames must be greater than 0");
        }
        Ok(())
    }
}

/// Parameters of `letter_detect`; `min_letter_area_ratio_valid` tells whether the
/// letter area ratio is finite, greater than 0 and at most 1.
#[derive(Debug, Clone)]
pub struct LetterParameters {
    pub device_id: String,
    pub max_frames: usize,
    pub confirm_frames: usize,
    pub black_threshold: i32,
    pub min_letter_area_ratio_valid: bool,
}

impl LetterParameters {
    pub open spec fn error(&self) -> Option<Seq<char>> {
        if is_blank_spec(self.device_id@) {
            Some("letter_detect.device_id cannot be empty"@)
        } else if self.max_frames == 0 {
            Some("letter_detect.max_frames must be greater than 0"@)
        } else if self.confirm_frames == 0 || self.confirm_frames > self.max_frames {
            Some("letter_detect.confirm_frames must be between 1 and max_frames"@)
        } else if !(0 <= self.black_threshold <= 255) {
            Some("letter_detect.black_threshold must be between 0 and 255"@)
        } else if !self.min_letter_area_ratio_valid {
            Some("letter_detect.min_letter_area_ratio must be greater than 0 and at most 1"@)
        } else {
            None
        }
    }

    /// Checks the parameters; the error is the first failed check.
    pub fn validate(&self) -> (r: Result<(), ParamError>)
        ensures
            outcome(r) == self.error(),
    {
        if is_blank(self.device_id.as_str()) {
            return fail("letter_detect.device_id cannot be empty");
        }
        if self.max_frames == 0 {
            return fail("letter_detect.max_frames must be greater than 0");
        }
        if self.confirm_frames == 0 || self.confirm_frames > self.max_frames {
            return fail("letter_detect.confirm_frames must be between 1 and max_frames");
        }
        if !(0 <= self.black_threshold && self.black_threshold <= 255) {
            return fail("letter_detect.black_threshold must be between 0 and 255");
        }
        if !self.min_letter_area_ratio_valid {
            return fail("letter_detect.min_letter_area_ratio must be greater than 0 and at most 1");
        }
        Ok(())
    }
}

/// Parameters of `color_detect`; `radius_ratio_valid` tells whether the ROI
/// radius ratio is finite and greater than 0, `min_area_ratio_valid` whether the
/// minimum area ratio is finite, greater than 0 and at most 1.
#[derive(Debug, Clone)]
pub struct ColorParameters {
    pub device_id: String,
    pub max_frames: usize,
    pub confirm_frames: usize,
    pub radius_ratio_valid: bool,
    pub min_area_ratio_valid: bool,
    pub colors: Vec<ColorDefinition>,
}

impl ColorParameters {
    pub open spec fn error(&self) -> Option<Seq<char>> {
        if is_blank_spec(self.device_id@) {
            Some("color_detect.device_id cannot be empty"@)
        } else if self.max_frames == 0 {
            Some("color_detect.max_frames must be greater than 0"@)
        } else if self.confirm_frames == 0 || self.confirm_frames > self.max_frames {
            Some("color_detect.confirm_frames must be between 1 and max_frames"@)
        } else if !self.radius_ratio_valid {
            Some("color_detect.radius_ratio must be a finite number greater than 0"@)
        } else if !self.min_area_ratio_valid {
            Some("color_detect.min_area_ratio must be greater than 0 and at most 1"@)
        } else if self.colors@.len() == 0 {
            Some("color_detect.colors cannot be empty"@)
        } else {
            colors_error(self.colors@, "color_detect"@, 0)
        }
    }

    /// Checks the parameters; the error is the first failed check.
    pub fn validate(&self) -> (r: Result<(), ParamError>)
        ensures
            outcome(r) == self.error(),
    {
        if is_blank(self.device_id.as_str()) {
            return fail("color_detect.device_id cannot be empty");
        }
        if self.max_frames == 0 {
            return fail("color_detect.max_frames must be greater than 0");
        }
        if self.confirm_frames == 0 || self.confirm_frames > self.max_frames {
            return fail("color_detect.confirm_frames must be between 1 and max_frames");
        }
        if !self.radius_ratio_valid {
            return fail("color_detect.radius_ratio must be a finite number greater than 0");
        }
        if !self.min_area_ratio_valid {
            return fail("color_detect.min_area_ratio must be greater than 0 and at most 1");
        }
        if self.colors.len() == 0 {
            return fail("color_detect.colors cannot be empty");
        }
        validate_colors(&self.colors, "color_detect")
    }
}

/// Parameters of `black_ring_detect`; `radii_valid` tells whether both radii are
/// finite, the minimum is positive and the maximum at least the minimum;
/// `min_circularity_valid` whether the circularity bound is finite, greater than
/// 0 and at most 1.
#[derive(Debug, Clone)]
pub struct BlackRingParameters {
    pub device_id: String,
    pub max_frames: usize,
    pub target_correction: TargetCorrection,
    pub black_threshold: i32,
    pub radii_valid: bool,
    pub min_circularity_valid: bool,
    pub min_score: u8,
}

impl BlackRingParameters {
    pub open spec fn error(&self) -> Option<Seq<char>> {
        if is_blank_spec(self.device_id@) {
            Some("black_ring_detect.device_id cannot be empty"@)
        } else if self.max_frames == 0 {
            Some("black_ring_detect.max_frames must be greater than 0"@)
        } else if !(0 <= self.black_threshold <= 255) {
            Some("black_ring_detect.black_threshold must be between 0 and 255"@)
        } else if !self.radii_valid {
            Some("black_ring_detect radii must be finite, positive, and ordered"@)
        } else if !self.min_circularity_valid {
            Some("black_ring_detect.min_circularity must be greater than 0 and at most 1"@)
        } else if self.min_score > 100 {
            Some("black_ring_detect.min_score must be at most 100"@)
        } else {
            None
        }
    }

    /// Checks the parameters; the error is the first failed check.
    pub fn validate(&self) -> (r: Result<(), ParamError>)
        ensures
            outcome(r) == self.error(),
    {
        if is_blank(self.device_id.as_str()) {
            return fail("black_ring_detect.device_id cannot be empty");
        }
        if self.max_frames == 0 {
            return fail("black_ring_detect.max_frames must be greater than 0");
        }
        if !(0 <= self.black_threshold && self.black_threshold <= 255) {
            return fail("black_ring_detect.black_threshold must be between 0 and 255");
        }
        if !self.radii_valid {
            return fail("black_ring_detect radii must be finite, positive, and ordered");
        }
        if !self.min_circularity_valid {
            return fail("black_ring_detect.min_circularity must be greater than 0 and at most 1");
        }
        if self.min_score > 100 {
            return fail("black_ring_detect.min_score must be at most 100");
        }
        Ok(())
    }
}

/// Parameters of `cross`; `radii_valid` tells whether both radii are finite,
/// the minimum is positive and the maximum at least the minimum;
/// `center_tolerance_valid` whether the tolerance is finite and greater than 0.
#[derive(Debug, Clone)]
pub struct CrossParameters {
    pub device_id: String,
    pub max_frames: usize,
    pub target_correction: TargetCorrection,
    pub black_threshold: i32,
    pub close_kernel_size: i32,
    pub dilate_kernel_size: i32,
    pub dilate_iterations: i32,
    pub radii_valid: bool,
    pub center_tolerance_valid: bool,
    pub min_arc_points: usize,
    pub min_ring_score: u8,
}

impl CrossParameters {
    pub open spec fn error(&self) -> Option<Seq<char>> {
        if is_blank_spec(self.device_id@) {
            Some("cross.device_id cannot be empty"@)
        } else if self.max_frames == 0 {
            Some("cross.max_frames must be greater than 0"@)
        } else if !(0 <= self.black_threshold <= 255) {
            Some("cross.black_threshold must be between 0 and 255"@)
        } else if !kernel_size_valid(self.close_kernel_size) {
            Some("cross.close_kernel_size must be a positive odd number"@)
        } else if !kernel_size_valid(self.dilate_kernel_size) {
            Some("cross.dilate_kernel_size must be a positive odd number"@)
        } else if self.dilate_iterations < 0 {
            Some("cross.dilate_iterations cannot be negative"@)
        } else if !self.radii_valid {
            Some("cross radii must be finite, positive, and ordered"@)
        } else if !self.center_tolerance_valid {
            Some("cross.center_tolerance must be finite and greater than 0"@)
        } else if self.min_arc_points < 3 {
            Some("cross.min_arc_points must be at least 3"@)
        } else if self.min_ring_score > 100 {
            Some("cross.min_ring_score must be at most 100"@)
        } else {
            None
        }
    }

    /// Checks the parameters; the error is the first failed check.
    pub fn validate(&self) -> (r: Result<(), ParamError>)
        ensures
            outcome(r) == self.error(),
    {
        if is_blank(self.device_id.as_str()) {
            return fail("cross.device_id cannot be empty");
        }
        if self.max_frames == 0 {
            return fail("cross.max_frames must be greater than 0");
        }
        if !(0 <= self.black_threshold && self.black_threshold <= 255) {
            return fail("cross.black_threshold must be between 0 and 255");
        }
        if !kernel_valid(self.close_kernel_size) {
            return fail("cross.close_kernel_size must be a positive odd number");
        }
        if !kernel_valid(self.dilate_kernel_size) {
            return fail("cross.dilate_kernel_size must be a positive odd number");
        }
        if self.dilate_iterations < 0 {
            return fail("cross.dilate_iterations cannot be negative");
        }
        if !self.radii_valid {
            return fail("cross radii must be finite, positive, and ordered");
        }
        if !self.center_tolerance_valid {
            return fail("cross.center_tolerance must be finite and greater than 0");
        }
        if self.min_arc_points < 3 {
            return fail("cross.min_arc_points must be at least 3");
        }
        if self.min_ring_score > 100 {
            return fail("cross.min_ring_score must be at most 100");
        }
        Ok(())
    }
}

/// Parameters of `color_block_detect`; `min_area_valid` tells whether the minimum
/// area is finite and greater than 0, `max_area_ratio_valid` whether the maximum
/// area ratio is finite, greater than 0 and at most 1.
#[derive(Debug, Clone)]
pub struct ColorBlockParameters {
    pub device_id: String,
    pub max_frames: usize,
    pub target_correction: TargetCorrection,
    pub colors: Vec<ColorDefinition>,
    pub open_kernel_size: i32,
    pub close_kernel_size: i32,
    pub min_area_valid: bool,
    pub max_area_ratio_valid: bool,
    pub edge_margin: i32,
}

impl ColorBlockParameters {
    pub open spec fn error(&self) -> Option<Seq<char>> {
        if is_blank_spec(self.device_id@) {
            Some("color_block_detect.device_id cannot be empty"@)
        } else if self.max_frames == 0 {
            Some("color_block_detect.max_frames must be greater than 0"@)
        } else if self.colors@.len() == 0 {
            Some("color_block_detect.colors cannot be empty"@)
        } else if colors_error(self.colors@, "color_block_detect"@, 0) is Some {
            colors_error(self.colors@, "color_block_detect"@, 0)
        } else if !kernel_size_valid(self.open_kernel_size) {
            Some("color_block_detect.open_kernel_size must be a positive odd number"@)
        } else if !kernel_size_valid(self.close_kernel_size) {
            Some("color_block_detect.close_kernel_size must be a positive odd number"@)
        } else if !self.min_area_valid {
            Some("color_block_detect.min_area must be a finite number greater than 0"@)
        } else if !self.max_area_ratio_valid {
            Some("color_block_detect.max_area_ratio must be greater than 0 and at most 1"@)
        } else if self.edge_margin < 0 {
            Some("color_block_detect.edge_margin cannot be negative"@)
        } else {
            None
        }
    }

    /// Checks the parameters; the error is the first failed check.
    pub fn validate(&self) -> (r: Result<(), ParamError>)
        ensures
            outcome(r) == self.error(),
    {
        if is_blank(self.device_id.as_str()) {
            return fail("color_block_detect.device_id cannot be empty");
        }
        if self.max_frames == 0 {
            return fail("color_block_detect.max_frames must be greater than 0");
        }
        if self.colors.len() == 0 {
            return fail("color_block_detect.colors cannot be empty");
        }
        let colors = validate_colors(&self.colors, "color_block_detect");
        if colors.is_err() {
            return colors;
        }
        if !kernel_valid(self.open_kernel_size) {
            return fail("color_block_detect.open_kernel_size must be a positive odd number");
        }
        if !kernel_valid(self.close_kernel_size) {
            return fail("color_block_detect.close_kernel_size must be a positive odd number");
        }
        if !self.min_area_valid {
            return fail("color_block_detect.min_area must be a finite number greater than 0");
        }
        if !self.max_area_ratio_valid {
            return fail("color_block_detect.max_area_ratio must be greater than 0 and at most 1");
        }
        if self.edge_margin < 0 {
            return fail("color_block_detect.edge_margin cannot be negative");
        }
        Ok(())
    }
}

/// An HSV range is accepted exactly when hue lies in 0..=179, saturation and
/// value in 0..=255, and each lower bound is at most its upper bound.
pub proof fn lemma_hsv_range_bounds(r: [i32; 6])
    ensures
        hsv_range_valid(r) <==> (0 <= r[0] <= r[1] <= 179 && 0 <= r[2] <= r[3] <= 255 && 0 <= r[4] <= r[5] <= 255),
{
}

/// A kernel size is accepted exactly when it is a positive odd number.
pub proof fn lemma_kernel_size_odd(size: i32)
    ensures
        kernel_size_valid(size) <==> (size > 0 && size % 2 == 1),
{
}

/// A colour is accepted exactly when its name and its output (if any) hold a
/// visible character, it has at least one HSV range, and every range is valid.
pub proof fn lemma_color_accepted(c: ColorDefinition, fid: Seq<char>)
    ensures
        c.error(fid) is None <==> {
            &&& !is_blank_spec(c.name@)
            &&& (c.output matches Some(o) ==> !is_blank_spec(o@))
            &&& c.hsv_ranges@.len() > 0
            &&& forall|k: int| 0 <= k < c.hsv_ranges@.len() ==> hsv_range_valid(#[trigger] c.hsv_ranges@[k])
        },
{
}

proof fn lemma_colors_error_none(colors: Seq<ColorDefinition>, fid: Seq<char>, i: int)
    requires
        0 <= i <= colors.len(),
    ensures
        colors_error(colors, fid, i) is None <==> forall|k: int| i <= k < colors.len() ==> (#[trigger] colors[k]).error(fid) is None,
    decreases colors.len() - i,
{
    if i < colors.len() {
        lemma_colors_error_none(colors, fid, i + 1);
    }
}

/// A list of colours is accepted exactly when every colour is.
pub proof fn lemma_colors_accepted(colors: Seq<ColorDefinition>, fid: Seq<char>)
    ensures
        colors_error(colors, fid, 0) is None <==> forall|k: int| 0 <= k < colors.len() ==> (#[trigger] colors[k]).error(fid) is None,
{
    lemma_colors_error_none(colors, fid, 0);
}

/// QR parameters are accepted exactly when the device id holds a visible
/// character and at least one frame is read.
pub proof fn lemma_qr_parameters_accepted(p: QrParameters)
    ensures
        p.error() is None <==> (!is_blank_spec(p.device_id@) && p.max_frames > 0),
{
}

/// Letter parameters are accepted exactly when the device id holds a visible
/// character, at least one frame is read, the confirmation count is between
/// 1 and the frame count, the threshold is a byte value and the area ratio
/// passed its check.
pub proof fn lemma_letter_parameters_accepted(p: LetterParameters)
    ensures
        p.error() is None <==> {
            &&& !is_blank_spec(p.device_id@)
            &&& p.max_frames > 0
            &&& 1 <= p.confirm_frames <= p.max_frames
            &&& 0 <= p.black_threshold <= 255
            &&& p.min_letter_area_ratio_valid
        },
{
}

/// Colour parameters are accepted exactly when the device id holds a visible
/// character, at least one frame is read, the confirmation count is between 1
/// and the frame count, both ratios passed their checks, and there is at least
/// one colour and every colour is accepted.
pub proof fn lemma_color_parameters_accepted(p: ColorParameters)
    ensures
        p.error() is None <==> {
            &&& !is_blank_spec(p.device_id@)
            &&& p.max_frames > 0
            &&& 1 <= p.confirm_frames <= p.max_frames
            &&& p.radius_ratio_valid
            &&& p.min_area_ratio_valid
            &&& p.colors@.len() > 0
            &&& forall|k: int| 0 <= k < p.colors@.len() ==> (#[trigger] p.colors@[k]).error("color_detect"@) is None
        },
{
    lemma_colors_accepted(p.colors@, "color_detect"@);
}

/// Black-ring parameters are accepted exactly when the device id holds a
/// visible character, at least one frame is read, the threshold is a byte
/// value, the radii and the circularity passed their checks and the score is
/// at most 100.
pub proof fn lemma_black_ring_parameters_accepted(p: BlackRingParameters)
    ensures
        p.error() is None <==> {
            &&& !is_blank_spec(p.device_id@)
            &&& p.max_frames > 0
            &&& 0 <= p.black_threshold <= 255
            &&& p.radii_valid
            &&& p.min_circularity_valid
            &&& p.min_score <= 100
        },
{
}

/// Cross parameters are accepted exactly when the device id holds a visible
/// character, at least one frame is read, the threshold is a byte value, both
/// kernel sizes are positive and odd, the dilation count is not negative, the
/// radii and the tolerance passed their checks, at least 3 arc points are
/// asked for and the ring score is at most 100.
pub proof fn lemma_cross_parameters_accepted(p: CrossParameters)
    ensures
        p.error() is None <==> {
            &&& !is_blank_spec(p.device_id@)
            &&& p.max_frames > 0
            &&& 0 <= p.black_threshold <= 255
            &&& p.close_kernel_size > 0 && p.close_kernel_size % 2 == 1
            &&& p.dilate_kernel_size > 0 && p.dilate_kernel_size % 2 == 1
            &&& p.dilate_iterations >= 0
            &&& p.radii_valid
            &&& p.center_tolerance_valid
            &&& p.min_arc_points >= 3
            &&& p.min_ring_score <= 100
        },
{
}

/// Colour-block parameters are accepted exactly when the device id holds a
/// visible character, at least one frame is read, there is at least one
/// colour and every colour is accepted, both kernel sizes are positive and
/// odd, the area checks passed and the edge margin is not negative.
pub proof fn lemma_color_block_parameters_accepted(p: ColorBlockParameters)
    ensures
        p.error() is None <==> {
            &&& !is_blank_spec(p.device_id@)
            &&& p.max_frames > 0
            &&& p.colors@.len() > 0
            &&& forall|k: int| 0 <= k < p.colors@.len() ==> (#[trigger] p.colors@[k]).error("color_block_detect"@) is None
            &&& p.open_kernel_size > 0 && p.open_kernel_size % 2 == 1
            &&& p.close_kernel_size > 0 && p.close_kernel_size % 2 == 1
            &&& p.min_area_valid
            &&& p.max_area_ratio_valid
            &&& p.edge_margin >= 0
        },
{
    lemma_colors_accepted(p.colors@, "color_block_detect"@);
}

} // verus!
