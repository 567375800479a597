//! Typed parameters of the configured functions, as read from the function
//! entries, and their checks. Floating-point parameters are judged by the
//! loader; their verdicts are carried here as booleans.
use vstd::prelude::*;
use vstd::string::*;

use crate::func::tarits::ValidateParams;
use crate::params::{hsv_range_valid, hsv_valid, outcome, ParamError};
use crate::text::{is_blank, is_blank_spec};
use crate::vision::format::TargetCorrection;

verus! {

fn fail(message: &str) -> (r: Result<(), ParamError>)
    ensures
        outcome(r) == Some(message@),
{
    Err(ParamError { message: String::from_str(message) })
}

fn fail_named(prefix: &str, name: &str, suffix: &str) -> (r: Result<(), ParamError>)
    ensures
        outcome(r) == Some(prefix@ + name@ + suffix@),
{
    let mut s = String::from_str(prefix);
    s.append(name);
    s.append(suffix);
    Err(ParamError { message: s })
}

/// A named HSV range.
#[derive(Debug, Clone)]
pub struct ColorRangeConfig {
    pub name: String,
    pub hsv: [i32; 6],
}

/// Parameters of the QR function.
#[derive(Debug, Clone, Copy)]
pub struct QrDetectParams {
    pub debug_model: bool,
}

/// Parameters of the debug function.
#[derive(Debug, Clone)]
pub struct DebugParams {
    pub message: String,
}

/// Parameters of the colour function; `radius_ratio_valid` tells whether the
/// ROI radius ratio lies in (0, 0.5], `detect_area_access_rate_valid` whether
/// the accepted area rate lies in [0, 1].
#[derive(Debug, Clone)]
pub struct ColorDetectParams {
    pub debug_model: bool,
    pub loop_count: i32,
    pub radius_ratio_valid: bool,
    pub detect_area_access_rate_valid: bool,
    pub color_ranges: Vec<ColorRangeConfig>,
}

/// Parameters of the black-ring function; `min_radius_positive` tells whether
/// the minimum radius is greater than 0, `radii_ordered` whether the maximum is
/// at least the minimum, `min_circularity_valid` whether the circularity bound
/// lies in [0, 1].
#[derive(Debug, Clone)]
pub struct BlackRingDetectParams {
    pub debug_model: bool,
    pub loop_count: i32,
    pub target_correction: TargetCorrection,
    pub black_threshold: i32,
    pub min_radius_positive: bool,
    pub radii_ordered: bool,
    pub min_circularity_valid: bool,
    pub min_score: u8,
}

/// A colour of the cross function; `min_area_positive` tells whether the minimum
/// area is greater than 0, `min_circularity_valid` whether the circularity bound
/// lies in [0, 1].
#[derive(Debug, Clone)]
pub struct CrossColorConfig {
    pub id: u8,
    pub name: String,
    pub hsv: [i32; 6],
    pub min_area_positive: bool,
    pub min_circularity_valid: bool,
}

/// Parameters of the cross function; `min_radius_positive`, `radii_ordered` and
/// `center_tolerance_positive` are the verdicts on its floating-point bounds.
#[derive(Debug, Clone)]
pub struct CrossDetectParams {
    pub debug_model: bool,
    pub loop_count: i32,
    pub target_correction: TargetCorrection,
    pub black_threshold: i32,
    pub min_radius_positive: bool,
    pub radii_ordered: bool,
    pub center_tolerance_positive: bool,
    pub min_arc_points: usize,
    pub min_ring_score: u8,
    pub colors: Vec<CrossColorConfig>,
}

impl QrDetectParams {
    pub open spec fn error(&self) -> Option<Seq<char>> {
        None
    }
}

impl ValidateParams for QrDetectParams {
    open spec fn params_valid(&self) -> bool {
        self.error() is None
    }

    fn validate(&self) -> (r: Result<(), ParamError>)
        ensures
            outcome(r) == self.error(),
    {
        Ok(())
    }
}

impl DebugParams {
    pub open spec fn error(&self) -> Option<Seq<char>> {
        if is_blank_spec(self.message@) {
            Some("message must not be empty"@)
        } else {
            None
        }
    }
}

impl ValidateParams for DebugParams {
    open spec fn params_valid(&self) -> bool {
        self.error() is None
    }

    fn validate(&self) -> (r: Result<(), ParamError>)
        ensures
            outcome(r) == self.error(),
    {
        if is_blank(self.message.as_str()) {
            return fail("message must not be empty");
        }
        Ok(())
    }
}

/// The refusal of a colour range, if any.
pub open spec fn range_error(r: ColorRangeConfig) -> Option<Seq<char>> {
    if is_blank_spec(r.name@) {
        Some("color range name must not be empty"@)
    } else if !hsv_range_valid(r.hsv) {
        Some("invalid HSV range for `"@ + r.name@ + "`"@)
    } else {
        None
    }
}

/// The first refusal among colour ranges, from position `i`.
pub open spec fn ranges_error(ranges: Seq<ColorRangeConfig>, i: int) -> Option<Seq<char>>
    decreases ranges.len() - i,
{
    if i < 0 || i >= ranges.len() {
        None
    } else if range_error(ranges[i]) is Some {
        range_error(ranges[i])
    } else {
        ranges_error(ranges, i + 1)
    }
}

impl ColorDetectParams {
    pub open spec fn error(&self) -> Option<Seq<char>> {
        if self.loop_count <= 0 {
            Some("loop_count must be greater than 0"@)
        } else if !self.radius_ratio_valid {
            Some("radius_ratio must be in (0, 0.5]"@)
        } else if !self.detect_area_access_rate_valid {
            Some("detect_area_access_rate must be in [0, 1]"@)
        } else if self.color_ranges@.len() == 0 {
            Some("color_ranges must not be empty"@)
        } else {
            ranges_error(self.color_ranges@, 0)
        }
    }
}

impl ValidateParams for ColorDetectParams {
    open spec fn params_valid(&self) -> bool {
        self.error() is None
    }

    fn validate(&self) -> (r: Result<(), ParamError>)
        ensures
            outcome(r) == self.error(),
    {
        if self.loop_count <= 0 {
            return fail("loop_count must be greater than 0");
        }
        if !self.radius_ratio_valid {
            return fail("radius_ratio must be in (0, 0.5]");
        }
        if !self.detect_area_access_rate_valid {
            return fail("detect_area_access_rate must be in [0, 1]");
        }
        if self.color_ranges.len() == 0 {
            return fail("color_ranges must not be empty");
        }
        let mut i: usize = 0;
        while i < self.color_ranges.len()
            invariant
                i <= self.color_ranges.len(),
                ranges_error(self.color_ranges@, 0) == ranges_error(self.color_ranges@, i as int),
                self.error() == ranges_error(self.color_ranges@, 0),
            decreases self.color_ranges.len() - i,
        {
            let range = &self.color_ranges[i];
            if is_blank(range.name.as_str()) {
                return fail("color range name must not be empty");
            }
            if !hsv_valid(range.hsv) {
                return fail_named("invalid HSV range for `", range.name.as_str(), "`");
            }
            i += 1;
        }
        Ok(())
    }
}

impl BlackRingDetectParams {
    pub open spec fn error(&self) -> Option<Seq<char>> {
        if self.loop_count <= 0 {
            Some("loop_count must be greater than 0"@)
        } else if !(0 <= self.black_threshold <= 255) {
            Some("black_threshold must be in [0, 255]"@)
        } else if !self.min_radius_positive {
            Some("min_radius must be greater than 0"@)
        } else if !self.radii_ordered {
            Some("max_radius must be greater than or equal to min_radius"@)
        } else if !self.min_circularity_valid {
            Some("min_circularity must be in [0, 1]"@)
        } else if self.min_score > 100 {
            Some("min_score must be in [0, 100]"@)
        } else {
            None
        }
    }
}

impl ValidateParams for BlackRingDetectParams {
    open spec fn params_valid(&self) -> bool {
        self.error() is None
    }

    fn validate(&self) -> (r: Result<(), ParamError>)
        ensures
            outcome(r) == self.error(),
    {
        if self.loop_count <= 0 {
            return fail("loop_count must be greater than 0");
        }
        if !(0 <= self.black_threshold && self.black_threshold <= 255) {
            return fail("black_threshold must be in [0, 255]");
        }
        if !self.min_radius_positive {
            return fail("min_radius must be greater than 0");
        }
        if !self.radii_ordered {
            return fail("max_radius must be greater than or equal to min_radius");
        }
        if !self.min_circularity_valid {
            return fail("min_circularity must be in [0, 1]");
        }
        if self.min_score > 100 {
            return fail("min_score must be in [0, 100]");
        }
        Ok(())
    }
}

/// The colour ids are exactly 1 through 5, each once.
pub open spec fn cross_ids_valid(ids: Seq<u8>) -> bool {
    &&& ids.len() == 5
    &&& forall|k: int| 0 <= k < ids.len() ==> 1 <= #[trigger] ids[k] <= 5
    &&& forall|v: u8| 1 <= v <= 5 ==> ids.contains(v)
}

/// The refusal of a cross colour, if any.
pub open spec fn cross_color_error(c: CrossColorConfig) -> Option<Seq<char>> {
    if is_blank_spec(c.name@) {
        Some("cross color name must not be empty"@)
    } else if !c.min_area_positive {
        Some("cross color `"@ + c.name@ + "` min_area must be greater than 0"@)
    } else if !c.min_circularity_valid {
        Some("cross color `"@ + c.name@ + "` min_circularity must be in [0, 1]"@)
    } else if !hsv_range_valid(c.hsv) {
        Some("invalid HSV range for `"@ + c.name@ + "`"@)
    } else {
        None
    }
}

/// The first refusal among cross colours, from position `i`.
pub open spec fn cross_colors_error(colors: Seq<CrossColorConfig>, i: int) -> Option<Seq<char>>
    decreases colors.len() - i,
{
    if i < 0 || i >= colors.len() {
        None
    } else if cross_color_error(colors[i]) is Some {
        cross_color_error(colors[i])
    } else {
        cross_colors_error(colors, i + 1)
    }
}

pub open spec fn cross_ids(colors: Seq<CrossColorConfig>) -> Seq<u8> {
    colors.map_values(|c: CrossColorConfig| c.id)
}

/// Whether the colour ids are exactly 1 through 5, each once.
fn cross_ids_ok(colors: &Vec<CrossColorConfig>) -> (ok: bool)
    ensures
        ok == cross_ids_valid(cross_ids(colors@)),
{
    let ghost ids = cross_ids(colors@);
    if colors.len() != 5 {
        return false;
    }
    let mut i: usize = 0;
    while i < colors.len()
        invariant
            i <= colors.len(),
            ids == cross_ids(colors@),
            forall|k: int| 0 <= k < i ==> 1 <= #[trigger] ids[k] <= 5,
        decreases colors.len() - i,
    {
        let id = colors[i].id;
        if !(1 <= id && id <= 5) {
            assert(ids[i as int] == id);
            return false;
        }
        i += 1;
    }
    let mut v: u8 = 1;
    while v <= 5
        invariant
            1 <= v <= 6,
            colors@.len() == 5,
            ids == cross_ids(colors@),
            forall|w: u8| 1 <= w < v ==> ids.contains(w),
        decreases 6 - v,
    {
        let mut found = false;
        let mut k: usize = 0;
        while k < colors.len()
            invariant
                k <= colors.len(),
                ids == cross_ids(colors@),
                found ==> ids.contains(v),
                !found ==> forall|m: int| 0 <= m < k ==> ids[m] != v,
            decreases colors.len() - k,
        {
            if colors[k].id == v {
                assert(ids[k as int] == v);
                found = true;
            }
            k += 1;
        }
        if !found {
            assert(!ids.contains(v));
            return false;
        }
        v += 1;
    }
    true
}

impl CrossDetectParams {
    pub open spec fn error(&self) -> Option<Seq<char>> {
        if self.loop_count <= 0 {
            Some("loop_count must be greater than 0"@)
        } else if !(0 <= self.black_threshold <= 255) {
            Some("black_threshold must be in [0, 255]"@)
        } else if !self.min_radius_positive {
            Some("min_radius must be greater than 0"@)
        } else if !self.radii_ordered {
            Some("max_radius must be greater than or equal to min_radius"@)
        } else if !self.center_tolerance_positive {
            Some("center_tolerance must be greater than 0"@)
        } else if self.min_arc_points < 5 {
            Some("min_arc_points must be at least 5"@)
        } else if self.min_ring_score > 100 {
            Some("min_ring_score must be in [0, 100]"@)
        } else if !cross_ids_valid(cross_ids(self.colors@)) {
            Some("cross colors must contain unique ids 1 through 5"@)
        } else {
            cross_colors_error(self.colors@, 0)
        }
    }
}

impl ValidateParams for CrossDetectParams {
    open spec fn params_valid(&self) -> bool {
        self.error() is None
    }

    fn validate(&self) -> (r: Result<(), ParamError>)
        ensures
            outcome(r) == self.error(),
    {
        if self.loop_count <= 0 {
            return fail("loop_count must be greater than 0");
        }
        if !(0 <= self.black_threshold && self.black_threshold <= 255) {
            return fail("black_threshold must be in [0, 255]");
        }
        if !self.min_radius_positive {
            return fail("min_radius must be greater than 0");
        }
        if !self.radii_ordered {
            return fail("max_radius must be greater than or equal to min_radius");
        }
        if !self.center_tolerance_positive {
            return fail("center_tolerance must be greater than 0");
        }
        if self.min_arc_points < 5 {
            return fail("min_arc_points must be at least 5");
        }
        if self.min_ring_score > 100 {
            return fail("min_ring_score must be in [0, 100]");
        }
        if !cross_ids_ok(&self.colors) {
            return fail("cross colors must contain unique ids 1 through 5");
        }
        let mut i: usize = 0;
        while i < self.colors.len()
            invariant
                i <= self.colors.len(),
                cross_colors_error(self.colors@, 0) == cross_colors_error(self.colors@, i as int),
                self.error() == cross_colors_error(self.colors@, 0),
            decreases self.colors.len() - i,
        {
            let c = &self.colors[i];
            if is_blank(c.name.as_str()) {
                return fail("cross color name must not be empty");
            }
            if !c.min_area_positive {
                return fail_named("cross color `", c.name.as_str(), "` min_area must be greater than 0");
            }
            if !c.min_circularity_valid {
                return fail_named("cross color `", c.name.as_str(), "` min_circularity must be in [0, 1]");
            }
            if !hsv_valid(c.hsv) {
                return fail_named("invalid HSV range for `", c.name.as_str(), "`");
            }
            i += 1;
        }
        Ok(())
    }
}

proof fn lemma_ranges_error_none(ranges: Seq<ColorRangeConfig>, i: int)
    requires
        0 <= i <= ranges.len(),
    ensures
        ranges_error(ranges, i) is None <==> forall|k: int| i <= k < ranges.len() ==> range_error(#[trigger] ranges[k]) is None,
    decreases ranges.len() - i,
{
    if i < ranges.len() {
        lemma_ranges_error_none(ranges, i + 1);
    }
}

proof fn lemma_cross_colors_error_none(colors: Seq<CrossColorConfig>, i: int)
    requires
        0 <= i <= colors.len(),
    ensures
        cross_colors_error(colors, i) is None <==> forall|k: int| i <= k < colors.len() ==> cross_color_error(#[trigger] colors[k]) is None,
    decreases colors.len() - i,
{
    if i < colors.len() {
        lemma_cross_colors_error_none(colors, i + 1);
    }
}

/// Some colour of the list carries the id `v`.
pub open spec fn carries_id(colors: Seq<CrossColorConfig>, v: u8) -> bool {
    exists|k: int| 0 <= k < colors.len() && colors[k].id == v
}

/// Debug parameters are accepted exactly when the message holds a visible
/// character; QR parameters are always accepted.
pub proof fn lemma_debug_and_qr_params_accepted(d: DebugParams, q: QrDetectParams)
    ensures
        d.error() is None <==> !is_blank_spec(d.message@),
        q.error() is None,
{
}

/// Colour-detection parameters are accepted exactly when at least one frame is
/// read, both ratios passed their checks, and there is at least one colour
/// range and each has a visible name and a valid HSV range.
pub proof fn lemma_color_detect_params_accepted(p: ColorDetectParams)
    ensures
        p.error() is None <==> {
            &&& p.loop_count > 0
            &&& p.radius_ratio_valid
            &&& p.detect_area_access_rate_valid
            &&& p.color_ranges@.len() > 0
            &&& forall|k: int| 0 <= k < p.color_ranges@.len() ==> {
                &&& !is_blank_spec((#[trigger] p.color_ranges@[k]).name@)
                &&& hsv_range_valid(p.color_ranges@[k].hsv)
            }
        },
{
    lemma_ranges_error_none(p.color_ranges@, 0);
}

/// Black-ring parameters are accepted exactly when at least one frame is
/// read, the threshold is a byte value, the minimum radius is positive, the
/// maximum radius is at least the minimum, the circularity bound lies in
/// [0, 1] and the score is at most 100. Inverted radii are refused with their
/// own message when the checks before them pass.
pub proof fn lemma_black_ring_detect_params_accepted(p: BlackRingDetectParams)
    ensures
        p.error() is None <==> {
            &&& p.loop_count > 0
            &&& 0 <= p.black_threshold <= 255
            &&& p.min_radius_positive
            &&& p.radii_ordered
            &&& p.min_circularity_valid
            &&& p.min_score <= 100
        },
        p.loop_count > 0 && 0 <= p.black_threshold <= 255 && p.min_radius_positive && !p.radii_ordered
            ==> p.error() == Some("max_radius must be greater than or equal to min_radius"@),
{
}

/// Cross parameters are accepted exactly when at least one frame is read, the
/// threshold is a byte value, the minimum radius is positive, the maximum
/// radius is at least the minimum, the tolerance is positive, at least 5 arc
/// points are asked for, the ring score is at most 100, there are five colours
/// whose ids are 1 through 5 (each of them carried by some colour), and every
/// colour has a visible name, a positive area, a circularity bound in [0, 1]
/// and a valid HSV range.
pub proof fn lemma_cross_detect_params_accepted(p: CrossDetectParams)
    ensures
        p.error() is None <==> {
            &&& p.loop_count > 0
            &&& 0 <= p.black_threshold <= 255
            &&& p.min_radius_positive
            &&& p.radii_ordered
            &&& p.center_tolerance_positive
            &&& p.min_arc_points >= 5
            &&& p.min_ring_score <= 100
            &&& p.colors@.len() == 5
            &&& forall|k: int| 0 <= k < p.colors@.len() ==> 1 <= (#[trigger] p.colors@[k]).id <= 5
            &&& forall|v: u8| 1 <= v <= 5 ==> #[trigger] carries_id(p.colors@, v)
            &&& forall|k: int| 0 <= k < p.colors@.len() ==> {
                &&& !is_blank_spec((#[trigger] p.colors@[k]).name@)
                &&& p.colors@[k].min_area_positive
                &&& p.colors@[k].min_circularity_valid
                &&& hsv_range_valid(p.colors@[k].hsv)
            }
        },
{
    lemma_cross_colors_error_none(p.colors@, 0);
    let ids = cross_ids(p.colors@);
    if cross_ids_valid(ids) {
        assert forall|k: int| 0 <= k < p.colors@.len() implies 1 <= (#[trigger] p.colors@[k]).id <= 5 by {
            assert(ids[k] == p.colors@[k].id);
        }
        assert forall|v: u8| 1 <= v <= 5 implies #[trigger] carries_id(p.colors@, v) by {
            assert(ids.contains(v));
            let k = choose|k: int| 0 <= k < ids.len() && ids[k] == v;
            assert(p.colors@[k].id == v);
        }
    }
    if p.colors@.len() == 5 && (forall|k: int| 0 <= k < p.colors@.len() ==> 1 <= (#[trigger] p.colors@[k]).id <= 5)
        && (forall|v: u8| 1 <= v <= 5 ==> #[trigger] carries_id(p.colors@, v)) {
        assert forall|k: int| 0 <= k < ids.len() implies 1 <= #[trigger] ids[k] <= 5 by {
            assert(1 <= p.colors@[k].id <= 5);
        }
        assert forall|v: u8| 1 <= v <= 5 implies ids.contains(v) by {
            assert(carries_id(p.colors@, v));
            let k = choose|k: int| 0 <= k < p.colors@.len() && p.colors@[k].id == v;
            assert(ids[k] == v);
        }
        assert(cross_ids_valid(ids));
    }
}

} // verus!
