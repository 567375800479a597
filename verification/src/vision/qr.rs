//! Reading QR codes from a grayscale frame: the codes are found and decoded by
//! quircs, and their payloads are read as text and as task numbers here.
use vstd::prelude::*;
use vstd::string::*;
use vstd::utf8::*;

use crate::text::{digit_char, int_decimal, nat_decimal};
use crate::vision::runtime_param::{digits_value, is_digit, lemma_digits_push};

verus! {

/// The payload bytes of each code that quircs identifies in a `width` x
/// `height` grayscale image (one byte per pixel, row by row), in the order
/// quircs reports them; `None` where a code could not be extracted or decoded.
pub uninterp spec fn qr_payloads(width: usize, height: usize, image: Seq<u8>) -> Seq<Option<Seq<u8>>>;

pub open spec fn payload_view(p: Option<Vec<u8>>) -> Option<Seq<u8>> {
    match p {
        Some(b) => Some(b@),
        None => None,
    }
}

pub open spec fn payload_views(ps: Seq<Option<Vec<u8>>>) -> Seq<Option<Seq<u8>>> {
    ps.map_values(|p: Option<Vec<u8>>| payload_view(p))
}

/// Runs quircs (`Quirc::identify`, then `Code::decode` on each identified
/// code) on the image. Claimed: the payloads are `qr_payloads` of the
/// arguments, which quircs computes from them alone. `identify` asserts that
/// the image holds exactly `width * height` bytes.
#[verifier::external_body]
fn qr_code_payloads(width: usize, height: usize, image: &[u8]) -> (r: Vec<Option<Vec<u8>>>)
    requires
        width * height == image@.len(),
    ensures
        payload_views(r@) == qr_payloads(width, height, image@),
{
    let mut decoder = quircs::Quirc::default();
    let mut payloads = Vec::new();
    for code in decoder.identify(width, height, image) {
        payloads.push(code.ok().and_then(|code| code.decode().ok()).map(|data| data.payload));
    }
    payloads
}

/// Reads bytes as UTF-8 text (std's `String::from_utf8`). Claimed, as std
/// documents it: the text is returned exactly when the bytes are valid UTF-8,
/// and it is the characters they encode.
#[verifier::external_body]
fn utf8_text(bytes: Vec<u8>) -> (r: Option<String>)
    ensures
        r is Some <==> valid_utf8(bytes@),
        r matches Some(s) ==> s@ == decode_utf8(bytes@),
{
    String::from_utf8(bytes).ok()
}

/// The text of a payload, when it is valid UTF-8.
pub open spec fn payload_text(p: Option<Seq<u8>>) -> Option<Seq<char>> {
    match p {
        Some(b) => if valid_utf8(b) {
            Some(decode_utf8(b))
        } else {
            None
        },
        None => None,
    }
}

/// The first payload that is UTF-8 text, possibly empty.
pub open spec fn first_text(ps: Seq<Option<Seq<u8>>>) -> Option<Seq<char>>
    decreases ps.len(),
{
    if ps.len() == 0 {
        None
    } else if payload_text(ps[0]) is Some {
        payload_text(ps[0])
    } else {
        first_text(ps.drop_first())
    }
}

/// The first payload that is non-empty UTF-8 text.
pub open spec fn first_nonempty_text(ps: Seq<Option<Seq<u8>>>) -> Option<Seq<char>>
    decreases ps.len(),
{
    if ps.len() == 0 {
        None
    } else if payload_text(ps[0]) matches Some(t) && t.len() > 0 {
        payload_text(ps[0])
    } else {
        first_nonempty_text(ps.drop_first())
    }
}

proof fn lemma_first_text_skip(ps: Seq<Option<Seq<u8>>>, i: int)
    requires
        0 <= i < ps.len(),
    ensures
        first_text(ps.subrange(i, ps.len() as int)) == if payload_text(ps[i]) is Some {
            payload_text(ps[i])
        } else {
            first_text(ps.subrange(i + 1, ps.len() as int))
        },
        first_nonempty_text(ps.subrange(i, ps.len() as int)) == if payload_text(ps[i]) matches Some(t)
            && t.len() > 0 {
            payload_text(ps[i])
        } else {
            first_nonempty_text(ps.subrange(i + 1, ps.len() as int))
        },
{
    let s = ps.subrange(i, ps.len() as int);
    assert(s[0] == ps[i]);
    assert(s.drop_first() =~= ps.subrange(i + 1, ps.len() as int));
}

/// Scans the payloads in order and returns the text of the first one that is
/// UTF-8 (`nonempty` false) or non-empty UTF-8 (`nonempty` true).
fn scan_payloads(payloads: Vec<Option<Vec<u8>>>, nonempty: bool) -> (r: Option<String>)
    ensures
        match r {
            Some(s) => Some(s@) == if nonempty {
                first_nonempty_text(payload_views(payloads@))
            } else {
                first_text(payload_views(payloads@))
            },
            None => (if nonempty {
                first_nonempty_text(payload_views(payloads@))
            } else {
                first_text(payload_views(payloads@))
            }) is None,
        },
{
    let ghost ps = payload_views(payloads@);
    let ghost n = payloads@.len();
    let ghost target = if nonempty { first_nonempty_text(ps) } else { first_text(ps) };
    assert(ps.subrange(0, ps.len() as int) =~= ps);
    for p in it: payloads.into_iter()
        invariant
            it.seq() == payloads@,
            ps == payload_views(payloads@),
            n == payloads@.len(),
            target == if nonempty { first_nonempty_text(ps) } else { first_text(ps) },
            target == if nonempty {
                first_nonempty_text(ps.subrange(it.index() as int, n as int))
            } else {
                first_text(ps.subrange(it.index() as int, n as int))
            },
    {
        let ghost i = it.index() as int;
        proof {
            lemma_first_text_skip(ps, i);
            assert(ps[i] == payload_view(p));
        }
        if let Some(bytes) = p {
            if let Some(text) = utf8_text(bytes) {
                if !nonempty || !text.as_str().is_empty() {
                    return Some(text);
                }
            }
        }
    }
    assert(ps.subrange(n as int, n as int) =~= Seq::<Option<Seq<u8>>>::empty());
    None
}

/// The text of the first QR code in a `width` x `height` grayscale image whose
/// payload is non-empty UTF-8 text, if any.
pub fn decode_qr(width: usize, height: usize, gray: &[u8]) -> (r: Option<String>)
    requires
        width * height == gray@.len(),
    ensures
        match r {
            Some(s) => Some(s@) == first_nonempty_text(qr_payloads(width, height, gray@)),
            None => first_nonempty_text(qr_payloads(width, height, gray@)) is None,
        },
{
    let payloads = qr_code_payloads(width, height, gray);
    scan_payloads(payloads, true)
}

/// The text of the first QR code in a `width` x `height` grayscale image whose
/// payload is UTF-8 text; the empty text when there is none.
pub fn decode_qr_text(width: usize, height: usize, gray: &[u8]) -> (r: String)
    requires
        width * height == gray@.len(),
    ensures
        match first_text(qr_payloads(width, height, gray@)) {
            Some(t) => r@ == t,
            None => r@.len() == 0,
        },
{
    let payloads = qr_code_payloads(width, height, gray);
    match scan_payloads(payloads, false) {
        Some(s) => s,
        None => String::new(),
    }
}

/// The length of the sign in front of a decimal text: one for a leading `+` or `-`.
pub open spec fn sign_len(s: Seq<char>) -> int {
    if s.len() > 0 && (s[0] == '+' || s[0] == '-') {
        1
    } else {
        0
    }
}

/// An `i32` read from text as std reads it: an optional `+` or `-`, then one or
/// more decimal digits, the value within the range of `i32`.
pub open spec fn parse_i32_spec(s: Seq<char>) -> Option<i32> {
    let d = s.subrange(sign_len(s), s.len() as int);
    let v: int = if s.len() > 0 && s[0] == '-' {
        -digits_value(d)
    } else {
        digits_value(d) as int
    };
    if d.len() == 0 || exists|i: int| 0 <= i < d.len() && !is_digit(d[i]) {
        None
    } else if v < i32::MIN || v > i32::MAX {
        None
    } else {
        Some(v as i32)
    }
}

/// Reads an `i32` from text as std's `str::parse::<i32>` does.
pub fn parse_i32(s: &str) -> (r: Option<i32>)
    ensures
        r == parse_i32_spec(s@),
{
    let ghost st = sign_len(s@);
    let mut first = true;
    let mut signed = false;
    let mut negative = false;
    let mut digits = false;
    let mut value: u64 = 0;
    let mut over = false;
    let mut bad = false;
    for c in it: s.chars()
        invariant
            it.seq() == s@,
            st == sign_len(s@),
            first <==> it.index() == 0,
            signed <==> (st == 1 && it.index() > 0),
            negative <==> (signed && s@[0] == '-'),
            (if signed { 1int } else { 0int }) <= it.index(),
            digits <==> (if signed { 1int } else { 0int }) < it.index(),
            !bad ==> forall|i: int| (if signed { 1int } else { 0int }) <= i < it.index() ==> is_digit(s@[i]),
            bad ==> exists|i: int| (if signed { 1int } else { 0int }) <= i < it.index() && !is_digit(s@[i]),
            !bad && !over ==> value as nat == digits_value(s@.subrange(if signed { 1int } else { 0int }, it.index() as int))
                && value <= 2147483648,
            !bad && over ==> digits_value(s@.subrange(if signed { 1int } else { 0int }, it.index() as int)) > 2147483648,
    {
        let ghost pos = it.index();
        let ghost start: int = if signed { 1int } else { 0int };
        assert(c == s@[pos]);
        if first && (c == '+' || c == '-') {
            signed = true;
            negative = c == '-';
            assert(s@.subrange(1, 1) =~= Seq::<char>::empty());
        } else {
            digits = true;
            if !('0' <= c && c <= '9') {
                assert(start <= pos && !is_digit(s@[pos]));
                bad = true;
            } else if !bad && !over {
                proof {
                    assert(s@.subrange(start, pos + 1) =~= s@.subrange(start, pos).push(c));
                    lemma_digits_push(s@.subrange(start, pos), c);
                }
                value = value * 10 + (c as u64 - '0' as u64);
                if value > 2147483648 {
                    over = true;
                }
            } else if !bad {
                proof {
                    assert(s@.subrange(start, pos + 1) =~= s@.subrange(start, pos).push(c));
                    lemma_digits_push(s@.subrange(start, pos), c);
                }
            }
        }
        first = false;
    }
    let ghost start: int = if signed { 1int } else { 0int };
    let ghost d = s@.subrange(st, s@.len() as int);
    assert(start == st);
    assert(d =~= s@.subrange(start, s@.len() as int));
    if bad || !digits || over {
        proof {
            if bad {
                let i = choose|i: int| start <= i < s@.len() && !is_digit(s@[i]);
                assert(!is_digit(d[i - start]));
            }
        }
        return None;
    }
    if negative {
        let v: i64 = -(value as i64);
        Some(v as i32)
    } else if value > 2147483647 {
        None
    } else {
        Some(value as i32)
    }
}

/// The task number carried by a QR payload: the payload read as an `i32`;
/// any other payload is refused.
pub fn qr_task_number(content: &str) -> (r: Result<i32, String>)
    ensures
        match parse_i32_spec(content@) {
            Some(v) => r == Ok::<i32, String>(v),
            None => r matches Err(e) && e@ == "qr payload is not an integer: "@ + content@,
        },
{
    match parse_i32(content) {
        Some(v) => Ok(v),
        None => {
            let mut m = String::from_str("qr payload is not an integer: ");
            m.append(content);
            Err(m)
        },
    }
}

pub(crate) proof fn lemma_nat_decimal_reads_back(n: nat)
    ensures
        nat_decimal(n).len() > 0,
        forall|k: int| 0 <= k < nat_decimal(n).len() ==> is_digit(#[trigger] nat_decimal(n)[k]),
        digits_value(nat_decimal(n)) == n,
    decreases n,
{
    let d = (n % 10) as int;
    assert(digit_char(d) as int == 48 + d);
    if n >= 10 {
        lemma_nat_decimal_reads_back(n / 10);
        let p = nat_decimal(n / 10);
        lemma_digits_push(p, digit_char(d));
        assert forall|k: int| 0 <= k < nat_decimal(n).len() implies is_digit(#[trigger] nat_decimal(n)[k]) by {
            if k < p.len() {
                assert(nat_decimal(n)[k] == p[k]);
            }
        }
    } else {
        lemma_digits_push(Seq::<char>::empty(), digit_char(d));
        assert(seq![digit_char(d)] =~= Seq::<char>::empty().push(digit_char(d)));
    }
}

/// Decimal text reads back as the number it was written from: every `i32`
/// written in decimal (as `decimal_string` writes it) is read back (as
/// `parse_i32` and `qr_task_number` read it) as the same number.
pub proof fn lemma_decimal_round_trip(v: i32)
    ensures
        parse_i32_spec(int_decimal(v as int)) == Some(v),
{
    let t = int_decimal(v as int);
    if v < 0 {
        let m = (-(v as int)) as nat;
        lemma_nat_decimal_reads_back(m);
        assert(t.subrange(1, t.len() as int) =~= nat_decimal(m));
    } else {
        lemma_nat_decimal_reads_back(v as nat);
        assert(is_digit(t[0]));
        assert(t.subrange(0, t.len() as int) =~= t);
    }
}

/// The QR text reported is that of the first code whose payload is valid
/// UTF-8 text and not empty: it is found at some position, every earlier
/// payload is missing, not UTF-8, or empty, and nothing is reported exactly
/// when no payload qualifies.
pub proof fn lemma_first_nonempty_text_position(ps: Seq<Option<Seq<u8>>>)
    ensures
        first_nonempty_text(ps) is None <==> forall|i: int| 0 <= i < ps.len() ==> !(payload_text(
            #[trigger] ps[i],
        ) matches Some(t) && t.len() > 0),
        first_nonempty_text(ps) matches Some(t) ==> exists|i: int| 0 <= i < ps.len() && #[trigger] payload_text(ps[i])
            == Some(t) && t.len() > 0 && forall|j: int| 0 <= j < i ==> !(payload_text(#[trigger] ps[j]) matches Some(u) && u.len() > 0),
    decreases ps.len(),
{
    if ps.len() > 0 {
        let rest = ps.drop_first();
        lemma_first_nonempty_text_position(rest);
        if !(payload_text(ps[0]) matches Some(t) && t.len() > 0) {
            if let Some(t) = first_nonempty_text(rest) {
                let i = choose|i: int| 0 <= i < rest.len() && #[trigger] payload_text(rest[i]) == Some(t) && t.len() > 0
                    && forall|j: int| 0 <= j < i ==> !(payload_text(#[trigger] rest[j]) matches Some(u) && u.len() > 0);
                assert(ps[i + 1] == rest[i]);
                assert forall|j: int| 0 <= j < i + 1 implies !(payload_text(#[trigger] ps[j]) matches Some(u) && u.len() > 0) by {
                    if j > 0 {
                        assert(ps[j] == rest[j - 1]);
                    }
                }
            } else {
                assert forall|i: int| 0 <= i < ps.len() implies !(payload_text(#[trigger] ps[i]) matches Some(t) && t.len() > 0) by {
                    if i > 0 {
                        assert(ps[i] == rest[i - 1]);
                    }
                }
            }
        }
    }
}

/// The QR text read is that of the first code whose payload is valid UTF-8
/// (possibly empty): every earlier payload is missing or not UTF-8, and
/// nothing is read exactly when no payload is UTF-8 text.
pub proof fn lemma_first_text_position(ps: Seq<Option<Seq<u8>>>)
    ensures
        first_text(ps) is None <==> forall|i: int| 0 <= i < ps.len() ==> payload_text(#[trigger] ps[i]) is None,
        first_text(ps) matches Some(t) ==> exists|i: int| 0 <= i < ps.len() && #[trigger] payload_text(ps[i]) == Some(t)
            && forall|j: int| 0 <= j < i ==> payload_text(#[trigger] ps[j]) is None,
    decreases ps.len(),
{
    if ps.len() > 0 {
        let rest = ps.drop_first();
        lemma_first_text_position(rest);
        if payload_text(ps[0]) is None {
            if let Some(t) = first_text(rest) {
                let i = choose|i: int| 0 <= i < rest.len() && #[trigger] payload_text(rest[i]) == Some(t)
                    && forall|j: int| 0 <= j < i ==> payload_text(#[trigger] rest[j]) is None;
                assert(ps[i + 1] == rest[i]);
                assert forall|j: int| 0 <= j < i + 1 implies payload_text(#[trigger] ps[j]) is None by {
                    if j > 0 {
                        assert(ps[j] == rest[j - 1]);
                    }
                }
            } else {
                assert forall|i: int| 0 <= i < ps.len() implies payload_text(#[trigger] ps[i]) is None by {
                    if i > 0 {
                        assert(ps[i] == rest[i - 1]);
                    }
                }
            }
        }
    }
}

} // verus!
