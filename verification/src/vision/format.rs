//! Target offsets and the text lines that vision results are reported as.
use vstd::prelude::*;
use vstd::string::*;

use crate::config::legacy::join_comma;
use crate::text::{decimal_string, int_decimal, nat_decimal, push_decimal_i64};
use crate::vision::qr::{lemma_decimal_round_trip, lemma_nat_decimal_reads_back, parse_i32_spec};

verus! {

/// Pixel correction applied to the frame centre before offsets are measured.
#[derive(Debug, Clone, Copy, PartialEq, Eq)]
pub struct TargetCorrection {
    pub x: i32,
    pub y: i32,
}

/// The integer part of a black-ring reading: whether a ring was found, its
/// offset from the target point, and its circularity score.
#[derive(Debug, Clone, Copy, PartialEq, Eq)]
pub struct BlackRingResult {
    pub valid: bool,
    pub dx: i32,
    pub dy: i32,
    pub score: u8,
}

/// The integer part of a concentric-ring (cross) reading for a runtime parameter.
#[derive(Debug, Clone, Copy, PartialEq, Eq)]
pub struct CrossResult {
    pub param: u8,
    pub valid: bool,
    pub dx: i32,
    pub dy: i32,
    pub score: u8,
}

/// A located ring (or ring group) whose centre has been rounded to pixels.
#[derive(Debug, Clone, Copy, PartialEq, Eq)]
pub struct RingCandidate {
    pub center_x: i32,
    pub center_y: i32,
    pub score: u8,
}

/// The target point: the frame centre (integer halves) moved by the correction.
pub open spec fn target_of(width: int, height: int, correction: TargetCorrection) -> (int, int) {
    (width / 2 + correction.x, height / 2 + correction.y)
}

/// Whether the target point and every offset from it to a point of the frame fit in `i32`.
pub open spec fn offsets_fit(width: int, height: int, correction: TargetCorrection) -> bool {
    &&& 0 <= width <= i32::MAX
    &&& 0 <= height <= i32::MAX
    &&& i32::MIN <= target_of(width, height, correction).0 <= i32::MAX
    &&& i32::MIN <= target_of(width, height, correction).1 <= i32::MAX
}

/// The target point of a `width` x `height` frame.
pub fn target_point(width: i32, height: i32, correction: TargetCorrection) -> (r: (i32, i32))
    requires
        offsets_fit(width as int, height as int, correction),
    ensures
        r.0 as int == target_of(width as int, height as int, correction).0,
        r.1 as int == target_of(width as int, height as int, correction).1,
{
    (width / 2 + correction.x, height / 2 + correction.y)
}

impl BlackRingResult {
    /// The reading reported when no ring was found.
    pub fn invalid() -> (r: Self)
        ensures
            r == (BlackRingResult { valid: false, dx: 0, dy: 0, score: 0 }),
    {
        BlackRingResult { valid: false, dx: 0, dy: 0, score: 0 }
    }
}

impl CrossResult {
    /// The reading reported for `param` when no usable ring group was found.
    pub fn invalid(param: u8) -> (r: Self)
        ensures
            r == (CrossResult { param, valid: false, dx: 0, dy: 0, score: 0 }),
    {
        CrossResult { param, valid: false, dx: 0, dy: 0, score: 0 }
    }
}

/// Whether the offsets of `candidate` from the target point fit in `i32`.
pub open spec fn candidate_fits(
    candidate: RingCandidate,
    width: int,
    height: int,
    correction: TargetCorrection,
) -> bool {
    &&& i32::MIN <= candidate.center_x - target_of(width, height, correction).0 <= i32::MAX
    &&& i32::MIN <= candidate.center_y - target_of(width, height, correction).1 <= i32::MAX
}

/// The black-ring reading of the best candidate of a frame, if any.
pub fn ring_result(
    candidate: Option<RingCandidate>,
    width: i32,
    height: i32,
    correction: TargetCorrection,
) -> (r: BlackRingResult)
    requires
        offsets_fit(width as int, height as int, correction),
        candidate matches Some(c) ==> candidate_fits(c, width as int, height as int, correction),
    ensures
        candidate is None ==> r == BlackRingResult::invalid_spec(),
        candidate matches Some(c) ==> {
            &&& r.valid
            &&& r.dx == c.center_x - target_of(width as int, height as int, correction).0
            &&& r.dy == c.center_y - target_of(width as int, height as int, correction).1
            &&& r.score == c.score
        },
{
    match candidate {
        None => BlackRingResult::invalid(),
        Some(c) => {
            let (tx, ty) = target_point(width, height, correction);
            BlackRingResult { valid: true, dx: c.center_x - tx, dy: c.center_y - ty, score: c.score }
        },
    }
}

impl BlackRingResult {
    pub open spec fn invalid_spec() -> Self {
        BlackRingResult { valid: false, dx: 0, dy: 0, score: 0 }
    }
}

/// Whether the offset from the ring group's centre to a cylinder centre fits in `i32`.
pub open spec fn cylinder_fits(group: RingCandidate, cylinder: (i32, i32)) -> bool {
    &&& i32::MIN <= cylinder.0 - group.center_x <= i32::MAX
    &&& i32::MIN <= cylinder.1 - group.center_y <= i32::MAX
}

/// The cross reading of a frame for `runtime_param`, from the best ring group
/// and, for parameters other than 0, the centre of the cylinder of colour
/// `runtime_param` when one was found. Parameter 0 reports the ring centre's
/// offset from the target point; any other parameter reports the cylinder's
/// offset from the ring centre, and is invalid without a cylinder. Without a
/// ring group the reading is invalid.
pub fn cross_result(
    group: Option<RingCandidate>,
    cylinder: Option<(i32, i32)>,
    runtime_param: u8,
    width: i32,
    height: i32,
    correction: TargetCorrection,
) -> (r: CrossResult)
    requires
        offsets_fit(width as int, height as int, correction),
        group matches Some(g) ==> candidate_fits(g, width as int, height as int, correction),
        group matches Some(g) ==> (cylinder matches Some(c) ==> cylinder_fits(g, c)),
    ensures
        r.param == runtime_param,
        r.valid <==> (group is Some && (runtime_param == 0 || cylinder is Some)),
        !r.valid ==> r == (CrossResult { param: runtime_param, valid: false, dx: 0, dy: 0, score: 0 }),
        r.valid && runtime_param == 0 ==> {
            &&& r.dx == group->0.center_x - target_of(width as int, height as int, correction).0
            &&& r.dy == group->0.center_y - target_of(width as int, height as int, correction).1
            &&& r.score == group->0.score
        },
        r.valid && runtime_param != 0 ==> (cylinder matches Some(c) && {
            &&& r.dx == c.0 - group->0.center_x
            &&& r.dy == c.1 - group->0.center_y
            &&& r.score == group->0.score
        }),
{
    match group {
        None => CrossResult::invalid(runtime_param),
        Some(g) => {
            if runtime_param == 0 {
                let (tx, ty) = target_point(width, height, correction);
                CrossResult {
                    param: runtime_param,
                    valid: true,
                    dx: g.center_x - tx,
                    dy: g.center_y - ty,
                    score: g.score,
                }
            } else {
                match cylinder {
                    None => CrossResult::invalid(runtime_param),
                    Some((cx, cy)) => CrossResult {
                        param: runtime_param,
                        valid: true,
                        dx: cx - g.center_x,
                        dy: cy - g.center_y,
                        score: g.score,
                    },
                }
            }
        },
    }
}

/// The UART line of a black-ring reading.
pub open spec fn ring_line(result: BlackRingResult) -> Seq<char> {
    if result.valid {
        "RING,1,"@ + int_decimal(result.dx as int) + ","@ + int_decimal(result.dy as int) + ","@
            + int_decimal(result.score as int)
    } else {
        "RING,0,0,0,0"@
    }
}

/// The UART line of a cross reading.
pub open spec fn cross_line(result: CrossResult) -> Seq<char> {
    if result.valid {
        "CROSS,"@ + int_decimal(result.param as int) + ",1,"@ + int_decimal(result.dx as int) + ","@
            + int_decimal(result.dy as int) + ","@ + int_decimal(result.score as int)
    } else {
        "CROSS,"@ + int_decimal(result.param as int) + ",0,0,0,0"@
    }
}

/// The UART line of a colour-block reading.
pub open spec fn block_line(color: Seq<char>, found: bool, dx: i32, dy: i32) -> Seq<char> {
    "BLOCK,"@ + color + ","@ + (if found { "1"@ } else { "0"@ }) + ","@ + int_decimal(dx as int) + ","@
        + int_decimal(dy as int)
}

/// Formats a black-ring reading: `RING,1,dx,dy,score` or `RING,0,0,0,0`.
pub fn format_black_ring_value(result: &BlackRingResult) -> (r: String)
    ensures
        r@ == ring_line(*result),
{
    if result.valid {
        let mut s = String::from_str("RING,1,");
        push_decimal_i64(&mut s, result.dx as i64);
        s.append(",");
        push_decimal_i64(&mut s, result.dy as i64);
        s.append(",");
        push_decimal_i64(&mut s, result.score as i64);
        assert(s@ =~= ring_line(*result));
        s
    } else {
        String::from_str("RING,0,0,0,0")
    }
}

/// Formats a cross reading: `CROSS,param,1,dx,dy,score` or `CROSS,param,0,0,0,0`.
pub fn format_cross_value(result: &CrossResult) -> (r: String)
    ensures
        r@ == cross_line(*result),
{
    let mut s = String::from_str("CROSS,");
    push_decimal_i64(&mut s, result.param as i64);
    if result.valid {
        s.append(",1,");
        push_decimal_i64(&mut s, result.dx as i64);
        s.append(",");
        push_decimal_i64(&mut s, result.dy as i64);
        s.append(",");
        push_decimal_i64(&mut s, result.score as i64);
    } else {
        s.append(",0,0,0,0");
    }
    assert(s@ =~= cross_line(*result));
    s
}

/// Formats a colour-block reading: `BLOCK,color,found,dx,dy`, `found` being `1` or `0`.
pub fn format_color_block_value(color: &str, found: bool, dx: i32, dy: i32) -> (r: String)
    ensures
        r@ == block_line(color@, found, dx, dy),
{
    let mut s = String::from_str("BLOCK,");
    s.append(color);
    s.append(",");
    if found {
        s.append("1");
    } else {
        s.append("0");
    }
    s.append(",");
    push_decimal_i64(&mut s, dx as i64);
    s.append(",");
    push_decimal_i64(&mut s, dy as i64);
    assert(s@ =~= block_line(color@, found, dx, dy));
    s
}

/// The comma-separated fields of a line, in order.
pub open spec fn comma_fields(s: Seq<char>) -> Seq<Seq<char>>
    decreases s.len(),
{
    if s.len() == 0 {
        seq![Seq::empty()]
    } else {
        let f = comma_fields(s.drop_last());
        if s.last() == ',' {
            f.push(Seq::empty())
        } else {
            f.update(f.len() - 1, f.last().push(s.last()))
        }
    }
}

proof fn lemma_fields_nonempty(s: Seq<char>)
    ensures
        comma_fields(s).len() >= 1,
    decreases s.len(),
{
    if s.len() > 0 {
        lemma_fields_nonempty(s.drop_last());
    }
}

proof fn lemma_single_field(x: Seq<char>)
    requires
        !x.contains(','),
    ensures
        comma_fields(x) == seq![x],
    decreases x.len(),
{
    if x.len() > 0 {
        let p = x.drop_last();
        assert(!p.contains(',')) by {
            if p.contains(',') {
                let k = choose|k: int| 0 <= k < p.len() && p[k] == ',';
                assert(x[k] == ',');
            }
        }
        lemma_single_field(p);
        assert(x.last() != ',') by {
            if x.last() == ',' {
                assert(x[x.len() - 1] == ',');
            }
        }
        assert(p.push(x.last()) =~= x);
        assert(comma_fields(x) =~= seq![x]);
    } else {
        assert(x =~= Seq::<char>::empty());
    }
}

proof fn lemma_field_after_comma(x: Seq<char>, y: Seq<char>)
    requires
        !y.contains(','),
    ensures
        comma_fields(x + seq![','] + y) == comma_fields(x).push(y),
    decreases y.len(),
{
    lemma_fields_nonempty(x);
    if y.len() == 0 {
        assert(x + seq![','] + y =~= x.push(','));
        assert((x.push(',')).drop_last() =~= x);
        assert(y =~= Seq::<char>::empty());
    } else {
        let p = y.drop_last();
        assert(!p.contains(',')) by {
            if p.contains(',') {
                let k = choose|k: int| 0 <= k < p.len() && p[k] == ',';
                assert(y[k] == ',');
            }
        }
        assert(y.last() != ',') by {
            if y.last() == ',' {
                assert(y[y.len() - 1] == ',');
            }
        }
        lemma_field_after_comma(x, p);
        let s = x + seq![','] + y;
        assert(s.drop_last() =~= x + seq![','] + p);
        assert(s.last() == y.last());
        assert(p.push(y.last()) =~= y);
        assert(comma_fields(s) =~= comma_fields(x).push(y));
    }
}

proof fn lemma_decimal_field(i: int)
    ensures
        !int_decimal(i).contains(','),
{
    if i < 0 {
        lemma_nat_decimal_reads_back((-i) as nat);
    } else {
        lemma_nat_decimal_reads_back(i as nat);
    }
    let t = int_decimal(i);
    if t.contains(',') {
        let k = choose|k: int| 0 <= k < t.len() && t[k] == ',';
        if i < 0 {
            if k > 0 {
                assert(t[k] == nat_decimal((-i) as nat)[k - 1]);
            }
        } else {
            assert(t[k] == nat_decimal(i as nat)[k]);
        }
    }
}

/// A black-ring line reads back as its reading: split at its commas it has
/// five fields, the tag `RING`, `1` or `0` for whether the reading is valid,
/// then the horizontal offset, the vertical offset and the score of a valid
/// reading, each read back as the number it was written from, or `0` for an
/// invalid one.
pub proof fn lemma_ring_line_reads_back(r: BlackRingResult)
    ensures
        comma_fields(ring_line(r)).len() == 5,
        comma_fields(ring_line(r))[0] == "RING"@,
        comma_fields(ring_line(r))[1] == (if r.valid { "1"@ } else { "0"@ }),
        parse_i32_spec(comma_fields(ring_line(r))[2]) == Some(if r.valid { r.dx } else { 0i32 }),
        parse_i32_spec(comma_fields(ring_line(r))[3]) == Some(if r.valid { r.dy } else { 0i32 }),
        parse_i32_spec(comma_fields(ring_line(r))[4]) == Some(if r.valid { r.score as i32 } else { 0i32 }),
{
    reveal_strlit("RING");
    reveal_strlit("RING,1,");
    reveal_strlit("RING,0,0,0,0");
    reveal_strlit(",");
    reveal_strlit("1");
    reveal_strlit("0");
    let c = seq![','];
    assert(","@ =~= c);
    let (dx, dy, sc) = if r.valid { (r.dx as int, r.dy as int, r.score as int) } else { (0int, 0int, 0int) };
    let d1 = int_decimal(dx);
    let d2 = int_decimal(dy);
    let d3 = int_decimal(sc);
    lemma_decimal_field(dx);
    lemma_decimal_field(dy);
    lemma_decimal_field(sc);
    lemma_decimal_round_trip(dx as i32);
    lemma_decimal_round_trip(dy as i32);
    lemma_decimal_round_trip(sc as i32);
    let flag = if r.valid { "1"@ } else { "0"@ };
    assert(int_decimal(0) =~= "0"@);
    assert(!"RING"@.contains(',')) by {
        if "RING"@.contains(',') {
            let k = choose|k: int| 0 <= k < "RING"@.len() && "RING"@[k] == ',';
        }
    }
    assert(!flag.contains(',')) by {
        if flag.contains(',') {
            let k = choose|k: int| 0 <= k < flag.len() && flag[k] == ',';
        }
    }
    lemma_single_field("RING"@);
    let a = "RING"@ + c + flag;
    lemma_field_after_comma("RING"@, flag);
    let b = a + c + d1;
    lemma_field_after_comma(a, d1);
    let e = b + c + d2;
    lemma_field_after_comma(b, d2);
    let g = e + c + d3;
    lemma_field_after_comma(e, d3);
    assert(ring_line(r) =~= g);
}

/// A cross line reads back as its reading: split at its commas it has six
/// fields, the tag `CROSS`, the runtime parameter, `1` or `0` for whether the
/// reading is valid, then the horizontal offset, the vertical offset and the
/// score of a valid reading, each read back as the number it was written
/// from, or `0` for an invalid one.
pub proof fn lemma_cross_line_reads_back(r: CrossResult)
    ensures
        comma_fields(cross_line(r)).len() == 6,
        comma_fields(cross_line(r))[0] == "CROSS"@,
        parse_i32_spec(comma_fields(cross_line(r))[1]) == Some(r.param as i32),
        comma_fields(cross_line(r))[2] == (if r.valid { "1"@ } else { "0"@ }),
        parse_i32_spec(comma_fields(cross_line(r))[3]) == Some(if r.valid { r.dx } else { 0i32 }),
        parse_i32_spec(comma_fields(cross_line(r))[4]) == Some(if r.valid { r.dy } else { 0i32 }),
        parse_i32_spec(comma_fields(cross_line(r))[5]) == Some(if r.valid { r.score as i32 } else { 0i32 }),
{
    reveal_strlit("CROSS");
    reveal_strlit("CROSS,");
    reveal_strlit(",1,");
    reveal_strlit(",0,0,0,0");
    reveal_strlit(",");
    reveal_strlit("1");
    reveal_strlit("0");
    let c = seq![','];
    assert(","@ =~= c);
    let (dx, dy, sc) = if r.valid { (r.dx as int, r.dy as int, r.score as int) } else { (0int, 0int, 0int) };
    let p0 = int_decimal(r.param as int);
    let d1 = int_decimal(dx);
    let d2 = int_decimal(dy);
    let d3 = int_decimal(sc);
    lemma_decimal_field(r.param as int);
    lemma_decimal_field(dx);
    lemma_decimal_field(dy);
    lemma_decimal_field(sc);
    lemma_decimal_round_trip(r.param as i32);
    lemma_decimal_round_trip(dx as i32);
    lemma_decimal_round_trip(dy as i32);
    lemma_decimal_round_trip(sc as i32);
    let flag = if r.valid { "1"@ } else { "0"@ };
    assert(int_decimal(0) =~= "0"@);
    assert(!"CROSS"@.contains(',')) by {
        if "CROSS"@.contains(',') {
            let k = choose|k: int| 0 <= k < "CROSS"@.len() && "CROSS"@[k] == ',';
        }
    }
    assert(!flag.contains(',')) by {
        if flag.contains(',') {
            let k = choose|k: int| 0 <= k < flag.len() && flag[k] == ',';
        }
    }
    lemma_single_field("CROSS"@);
    let a = "CROSS"@ + c + p0;
    lemma_field_after_comma("CROSS"@, p0);
    let a2 = a + c + flag;
    lemma_field_after_comma(a, flag);
    let b = a2 + c + d1;
    lemma_field_after_comma(a2, d1);
    let e = b + c + d2;
    lemma_field_after_comma(b, d2);
    let g = e + c + d3;
    lemma_field_after_comma(e, d3);
    assert(cross_line(r) =~= g);
}

/// A colour-block line reads back as its reading: split at its commas (the
/// colour holding none) it has five fields, the tag `BLOCK`, the colour, `1`
/// or `0` for whether a block was found, then the two offsets, each read back
/// as the number it was written from.
pub proof fn lemma_block_line_reads_back(color: Seq<char>, found: bool, dx: i32, dy: i32)
    requires
        !color.contains(','),
    ensures
        comma_fields(block_line(color, found, dx, dy)) == seq![
            "BLOCK"@,
            color,
            if found { "1"@ } else { "0"@ },
            int_decimal(dx as int),
            int_decimal(dy as int),
        ],
        parse_i32_spec(int_decimal(dx as int)) == Some(dx),
        parse_i32_spec(int_decimal(dy as int)) == Some(dy),
{
    reveal_strlit("BLOCK");
    reveal_strlit("BLOCK,");
    reveal_strlit(",");
    reveal_strlit("1");
    reveal_strlit("0");
    let c = seq![','];
    assert(","@ =~= c);
    let d1 = int_decimal(dx as int);
    let d2 = int_decimal(dy as int);
    lemma_decimal_field(dx as int);
    lemma_decimal_field(dy as int);
    lemma_decimal_round_trip(dx);
    lemma_decimal_round_trip(dy);
    let flag = if found { "1"@ } else { "0"@ };
    assert(!"BLOCK"@.contains(',')) by {
        if "BLOCK"@.contains(',') {
            let k = choose|k: int| 0 <= k < "BLOCK"@.len() && "BLOCK"@[k] == ',';
        }
    }
    assert(!flag.contains(',')) by {
        if flag.contains(',') {
            let k = choose|k: int| 0 <= k < flag.len() && flag[k] == ',';
        }
    }
    lemma_single_field("BLOCK"@);
    let a = "BLOCK"@ + c + color;
    lemma_field_after_comma("BLOCK"@, color);
    let a2 = a + c + flag;
    lemma_field_after_comma(a, flag);
    let b = a2 + c + d1;
    lemma_field_after_comma(a2, d1);
    let e = b + c + d2;
    lemma_field_after_comma(b, d2);
    assert(block_line(color, found, dx, dy) =~= e);
    assert(comma_fields(e) =~= seq!["BLOCK"@, color, flag, d1, d2]);
}

/// Texts joined with commas split back into the same texts, when none of them
/// holds a comma and there is at least one.
pub proof fn lemma_join_comma_splits_back(parts: Seq<Seq<char>>)
    requires
        parts.len() > 0,
        forall|i: int| 0 <= i < parts.len() ==> !(#[trigger] parts[i]).contains(','),
    ensures
        comma_fields(join_comma(parts)) == parts,
    decreases parts.len(),
{
    reveal_strlit(",");
    assert(","@ =~= seq![',']);
    if parts.len() == 1 {
        lemma_single_field(parts[0]);
        assert(seq![parts[0]] =~= parts);
    } else {
        let p = parts.drop_last();
        assert forall|i: int| 0 <= i < p.len() implies !(#[trigger] p[i]).contains(',') by {
            assert(p[i] == parts[i]);
        }
        lemma_join_comma_splits_back(p);
        assert(!parts.last().contains(','));
        lemma_field_after_comma(join_comma(p), parts.last());
        assert(p.push(parts.last()) =~= parts);
    }
}

} // verus!
