//! Function parameters as configured, and the `key=value` argument list that
//! the argument-driven vision tasks read.
use vstd::prelude::*;
use vstd::string::*;

use crate::config::runtime::{FunctionEntryConfig, GpioConfig, GpioSignal};
use crate::text::{decimal_string, int_decimal};

verus! {

/// A configured parameter value, as the configuration file writes it. A
/// floating-point number is held as the text Rust prints for it, a date-time
/// as its text; a table keeps its entries in the order they are read.
#[derive(Debug)]
pub enum ParamValue {
    Text(String),
    Integer(i64),
    Float(String),
    Boolean(bool),
    Datetime(String),
    Array(Vec<ParamValue>),
    Table(Vec<(String, ParamValue)>),
}

/// The texts of a list of strings.
pub open spec fn texts(v: Seq<String>) -> Seq<Seq<char>> {
    v.map_values(|s: String| s@)
}

/// The text of a scalar value; `None` for an array, a table or a date-time.
pub open spec fn value_text_spec(v: ParamValue) -> Option<Seq<char>> {
    match v {
        ParamValue::Text(s) => Some(s@),
        ParamValue::Integer(i) => Some(int_decimal(i as int)),
        ParamValue::Float(s) => Some(s@),
        ParamValue::Boolean(b) => Some(if b { "true"@ } else { "false"@ }),
        _ => None,
    }
}

/// The refusal of a value that is not a scalar.
pub open spec fn not_scalar() -> Seq<char> {
    "parameter value must be a scalar"@
}

/// The text of a scalar parameter value.
pub fn value_text(v: &ParamValue) -> (r: Result<String, String>)
    ensures
        match value_text_spec(*v) {
            Some(t) => r matches Ok(s) && s@ == t,
            None => r matches Err(e) && e@ == not_scalar(),
        },
{
    match v {
        ParamValue::Text(s) => Ok(s.clone()),
        ParamValue::Integer(i) => Ok(decimal_string(*i)),
        ParamValue::Float(s) => Ok(s.clone()),
        ParamValue::Boolean(b) => if *b {
            Ok(String::from_str("true"))
        } else {
            Ok(String::from_str("false"))
        },
        _ => Err(String::from_str("parameter value must be a scalar")),
    }
}

/// The value stored under `key` in a table (the first entry with that key).
pub open spec fn table_get(t: Seq<(String, ParamValue)>, key: Seq<char>) -> Option<ParamValue>
    decreases t.len(),
{
    if t.len() == 0 {
        None
    } else if t[0].0@ == key {
        Some(t[0].1)
    } else {
        table_get(t.drop_first(), key)
    }
}

fn table_lookup<'a>(t: &'a Vec<(String, ParamValue)>, key: &str) -> (r: Option<&'a ParamValue>)
    ensures
        match r {
            Some(v) => table_get(t@, key@) == Some(*v),
            None => table_get(t@, key@) is None,
        },
{
    let k = String::from_str(key);
    let mut i: usize = 0;
    assert(t@.subrange(0, t@.len() as int) =~= t@);
    while i < t.len()
        invariant
            i <= t.len(),
            k@ == key@,
            table_get(t@, key@) == table_get(t@.subrange(i as int, t@.len() as int), key@),
        decreases t.len() - i,
    {
        let ghost rest = t@.subrange(i as int, t@.len() as int);
        assert(rest[0] == t@[i as int]);
        assert(rest.drop_first() =~= t@.subrange(i + 1, t@.len() as int));
        if t[i].0 == k {
            return Some(&t[i].1);
        }
        i += 1;
    }
    assert(t@.subrange(i as int, t@.len() as int).len() == 0);
    None
}

/// Texts joined with `,` between them.
pub open spec fn join_comma(parts: Seq<Seq<char>>) -> Seq<char>
    decreases parts.len(),
{
    if parts.len() == 0 {
        Seq::empty()
    } else if parts.len() == 1 {
        parts[0]
    } else {
        join_comma(parts.drop_last()) + ","@ + parts.last()
    }
}

/// The texts of a list of values, or the refusal of the first one that is not a scalar.
pub open spec fn values_text(vals: Seq<ParamValue>) -> Option<Seq<Seq<char>>>
    decreases vals.len(),
{
    if vals.len() == 0 {
        Some(Seq::empty())
    } else {
        match values_text(vals.drop_last()) {
            Some(a) => match value_text_spec(vals.last()) {
                Some(t) => Some(a.push(t)),
                None => None,
            },
            None => None,
        }
    }
}

/// The argument of one colour range: `color.<name>=<h,s,v bounds>`.
pub open spec fn range_arg(id: Seq<char>, range: ParamValue) -> Result<Seq<char>, Seq<char>> {
    match range {
        ParamValue::Table(t) => match table_get(t@, "name"@) {
            Some(ParamValue::Text(name)) => match table_get(t@, "hsv"@) {
                Some(ParamValue::Array(hsv)) => match values_text(hsv@) {
                    Some(parts) => Ok("color."@ + name@ + "="@ + join_comma(parts)),
                    None => Err(not_scalar()),
                },
                _ => Err("color range missing array `hsv`"@),
            },
            _ => Err("color range missing string `name`"@),
        },
        _ => Err("function `"@ + id + "` color range must be a table"@),
    }
}

/// The arguments of a list of colour ranges, or the first refusal.
pub open spec fn ranges_args(id: Seq<char>, ranges: Seq<ParamValue>) -> Result<Seq<Seq<char>>, Seq<char>>
    decreases ranges.len(),
{
    if ranges.len() == 0 {
        Ok(Seq::empty())
    } else {
        match ranges_args(id, ranges.drop_last()) {
            Ok(a) => match range_arg(id, ranges.last()) {
                Ok(t) => Ok(a.push(t)),
                Err(e) => Err(e),
            },
            Err(e) => Err(e),
        }
    }
}

/// The arguments of one parameter: one per colour range for `color_ranges`,
/// `key=value` for any other key.
pub open spec fn entry_args(id: Seq<char>, key: Seq<char>, value: ParamValue) -> Result<Seq<Seq<char>>, Seq<char>> {
    if key == "color_ranges"@ {
        match value {
            ParamValue::Array(ranges) => ranges_args(id, ranges@),
            _ => Err("function `"@ + id + "` parameter `color_ranges` must be an array"@),
        }
    } else {
        match value_text_spec(value) {
            Some(t) => Ok(seq![key + "="@ + t]),
            None => Err(not_scalar()),
        }
    }
}

/// The arguments of a parameter table, in table order, or the first refusal.
pub open spec fn table_args(id: Seq<char>, t: Seq<(String, ParamValue)>) -> Result<Seq<Seq<char>>, Seq<char>>
    decreases t.len(),
{
    if t.len() == 0 {
        Ok(Seq::empty())
    } else {
        match table_args(id, t.drop_last()) {
            Ok(a) => match entry_args(id, t.last().0@, t.last().1) {
                Ok(b) => Ok(a + b),
                Err(e) => Err(e),
            },
            Err(e) => Err(e),
        }
    }
}

/// The pin of the first GPIO signal called `name`.
pub open spec fn signal_pin(signals: Seq<GpioSignal>, name: Seq<char>) -> Option<u8>
    decreases signals.len(),
{
    if signals.len() == 0 {
        None
    } else if signals[0].name@ == name {
        Some(signals[0].pin)
    } else {
        signal_pin(signals.drop_first(), name)
    }
}

/// The light pins passed to a function that reports on GPIO.
pub open spec fn light_args(gpio: GpioConfig) -> Result<Seq<Seq<char>>, Seq<char>> {
    match signal_pin(gpio.signals@, "color"@) {
        None => Err("message.gpio.signals.color is required"@),
        Some(color) => match signal_pin(gpio.signals@, "qr"@) {
            None => Err("message.gpio.signals.qr is required"@),
            Some(qr) => Ok(seq![
                "color_light_pin="@ + int_decimal(color as int),
                "qr_light_pin="@ + int_decimal(qr as int),
                "gpio_light_pin="@ + int_decimal(gpio.run_pin as int),
            ]),
        },
    }
}

/// The argument list of a function entry, or the first refusal.
pub open spec fn legacy_args_spec(entry: FunctionEntryConfig, gpio: GpioConfig) -> Result<Seq<Seq<char>>, Seq<char>> {
    match entry.params {
        ParamValue::Table(t) => match table_args(entry.function_id@, t@) {
            Ok(a) => if entry.returns.gpio is Some {
                match light_args(gpio) {
                    Ok(l) => Ok(a + l),
                    Err(e) => Err(e),
                }
            } else {
                Ok(a)
            },
            Err(e) => Err(e),
        },
        _ => Err("function `"@ + entry.function_id@ + "` params must be a table"@),
    }
}

proof fn lemma_values_text_prefix(vals: Seq<ParamValue>, k: int)
    requires
        0 <= k <= vals.len(),
        values_text(vals.take(k)) is None,
    ensures
        values_text(vals) is None,
    decreases vals.len(),
{
    if k == vals.len() {
        assert(vals.take(k) =~= vals);
    } else {
        assert(vals.drop_last().take(k) =~= vals.take(k));
        lemma_values_text_prefix(vals.drop_last(), k);
    }
}

proof fn lemma_ranges_args_prefix(id: Seq<char>, ranges: Seq<ParamValue>, k: int, e: Seq<char>)
    requires
        0 <= k <= ranges.len(),
        ranges_args(id, ranges.take(k)) == Err::<Seq<Seq<char>>, Seq<char>>(e),
    ensures
        ranges_args(id, ranges) == Err::<Seq<Seq<char>>, Seq<char>>(e),
    decreases ranges.len(),
{
    if k == ranges.len() {
        assert(ranges.take(k) =~= ranges);
    } else {
        assert(ranges.drop_last().take(k) =~= ranges.take(k));
        lemma_ranges_args_prefix(id, ranges.drop_last(), k, e);
    }
}

proof fn lemma_table_args_prefix(id: Seq<char>, t: Seq<(String, ParamValue)>, k: int, e: Seq<char>)
    requires
        0 <= k <= t.len(),
        table_args(id, t.take(k)) == Err::<Seq<Seq<char>>, Seq<char>>(e),
    ensures
        table_args(id, t) == Err::<Seq<Seq<char>>, Seq<char>>(e),
    decreases t.len(),
{
    if k == t.len() {
        assert(t.take(k) =~= t);
    } else {
        assert(t.drop_last().take(k) =~= t.take(k));
        lemma_table_args_prefix(id, t.drop_last(), k, e);
    }
}

fn signal_lookup(signals: &Vec<GpioSignal>, name: &str) -> (r: Option<u8>)
    ensures
        r == signal_pin(signals@, name@),
{
    let k = String::from_str(name);
    let mut i: usize = 0;
    assert(signals@.subrange(0, signals@.len() as int) =~= signals@);
    while i < signals.len()
        invariant
            i <= signals.len(),
            k@ == name@,
            signal_pin(signals@, name@) == signal_pin(signals@.subrange(i as int, signals@.len() as int), name@),
        decreases signals.len() - i,
    {
        let ghost rest = signals@.subrange(i as int, signals@.len() as int);
        assert(rest[0] == signals@[i as int]);
        assert(rest.drop_first() =~= signals@.subrange(i + 1, signals@.len() as int));
        if signals[i].name == k {
            return Some(signals[i].pin);
        }
        i += 1;
    }
    assert(signals@.subrange(i as int, signals@.len() as int).len() == 0);
    None
}

fn join_values(vals: &Vec<ParamValue>) -> (r: Result<String, String>)
    ensures
        match values_text(vals@) {
            Some(parts) => r matches Ok(s) && s@ == join_comma(parts),
            None => r matches Err(e) && e@ == not_scalar(),
        },
{
    let mut out = String::new();
    let mut i: usize = 0;
    let ghost mut parts: Seq<Seq<char>> = Seq::empty();
    while i < vals.len()
        invariant
            i <= vals.len(),
            values_text(vals@.take(i as int)) == Some(parts),
            out@ == join_comma(parts),
            parts.len() == i,
        decreases vals.len() - i,
    {
        assert(vals@.take(i + 1).drop_last() =~= vals@.take(i as int));
        assert(vals@.take(i + 1).last() == vals@[i as int]);
        let t = match value_text(&vals[i]) {
            Ok(t) => t,
            Err(e) => {
                proof {
                    lemma_values_text_prefix(vals@, i + 1);
                }
                return Err(e);
            },
        };
        if i > 0 {
            out.append(",");
        }
        out.append(t.as_str());
        proof {
            let np = parts.push(t@);
            assert(np.drop_last() =~= parts);
            if i == 0 {
                assert(parts.len() == 0);
                assert(out@ =~= join_comma(np));
            } else {
                assert(out@ =~= join_comma(np));
            }
            parts = np;
        }
        i += 1;
    }
    assert(vals@.take(i as int) =~= vals@);
    Ok(out)
}

fn range_argument(id: &String, range: &ParamValue) -> (r: Result<String, String>)
    ensures
        match range_arg(id@, *range) {
            Ok(t) => r matches Ok(s) && s@ == t,
            Err(m) => r matches Err(e) && e@ == m,
        },
{
    let t = match range {
        ParamValue::Table(t) => t,
        _ => {
            let mut m = String::from_str("function `");
            m.append(id.as_str());
            m.append("` color range must be a table");
            return Err(m);
        },
    };
    let name = match table_lookup(t, "name") {
        Some(ParamValue::Text(name)) => name,
        _ => return Err(String::from_str("color range missing string `name`")),
    };
    let hsv = match table_lookup(t, "hsv") {
        Some(ParamValue::Array(hsv)) => hsv,
        _ => return Err(String::from_str("color range missing array `hsv`")),
    };
    let values = join_values(hsv)?;
    let mut s = String::from_str("color.");
    s.append(name.as_str());
    s.append("=");
    s.append(values.as_str());
    Ok(s)
}

fn push_entry_args(args: &mut Vec<String>, id: &String, key: &String, value: &ParamValue) -> (r: Result<(), String>)
    ensures
        match entry_args(id@, key@, *value) {
            Ok(b) => r is Ok && texts(final(args)@) == texts(old(args)@) + b,
            Err(m) => r matches Err(e) && e@ == m,
        },
{
    if *key == String::from_str("color_ranges") {
        let ranges = match value {
            ParamValue::Array(ranges) => ranges,
            _ => {
                let mut m = String::from_str("function `");
                m.append(id.as_str());
                m.append("` parameter `color_ranges` must be an array");
                return Err(m);
            },
        };
        let ghost start = texts(args@);
        let mut i: usize = 0;
        assert(entry_args(id@, key@, *value) == ranges_args(id@, ranges@));
        assert(ranges@.take(0) =~= Seq::<ParamValue>::empty());
        while i < ranges.len()
            invariant
                i <= ranges.len(),
                key@ == "color_ranges"@,
                entry_args(id@, key@, *value) == ranges_args(id@, ranges@),
                ranges_args(id@, ranges@.take(i as int)) matches Ok(a) && texts(args@) == start + a,
            decreases ranges.len() - i,
        {
            assert(ranges@.take(i + 1).drop_last() =~= ranges@.take(i as int));
            assert(ranges@.take(i + 1).last() == ranges@[i as int]);
            let ghost before = texts(args@);
            let arg = match range_argument(id, &ranges[i]) {
                Ok(a) => a,
                Err(e) => {
                    proof {
                        lemma_ranges_args_prefix(id@, ranges@, i + 1, e@);
                    }
                    return Err(e);
                },
            };
            args.push(arg);
            proof {
                let a = ranges_args(id@, ranges@.take(i as int))->Ok_0;
                assert(texts(args@) =~= before.push(arg@));
                assert(start + a.push(arg@) =~= (start + a).push(arg@));
            }
            i += 1;
        }
        assert(ranges@.take(i as int) =~= ranges@);
        Ok(())
    } else {
        let t = value_text(value)?;
        let mut s = key.clone();
        s.append("=");
        s.append(t.as_str());
        let ghost before = texts(args@);
        args.push(s);
        assert(texts(args@) =~= before + seq![s@]);
        Ok(())
    }
}

fn pin_arg(label: &str, pin: u8) -> (r: String)
    ensures
        r@ == label@ + int_decimal(pin as int),
{
    let mut s = String::from_str(label);
    let d = decimal_string(pin as i64);
    s.append(d.as_str());
    s
}

impl FunctionEntryConfig {
    /// The function's parameters as `key=value` arguments, in table order: each
    /// colour range of `color_ranges` becomes `color.<name>=<bounds>`; a
    /// function that reports on GPIO also gets its light pins.
    pub fn legacy_args(&self, gpio: &GpioConfig) -> (r: Result<Vec<String>, String>)
        ensures
            match legacy_args_spec(*self, *gpio) {
                Ok(a) => r matches Ok(v) && texts(v@) == a,
                Err(m) => r matches Err(e) && e@ == m,
            },
    {
        let t = match &self.params {
            ParamValue::Table(t) => t,
            _ => {
                let mut m = String::from_str("function `");
                m.append(self.function_id.as_str());
                m.append("` params must be a table");
                return Err(m);
            },
        };
        let mut args: Vec<String> = Vec::new();
        let mut i: usize = 0;
        assert(t@.take(0) =~= Seq::<(String, ParamValue)>::empty());
        assert(texts(args@) =~= Seq::<Seq<char>>::empty());
        while i < t.len()
            invariant
                i <= t.len(),
                self.params == ParamValue::Table(*t),
                table_args(self.function_id@, t@.take(i as int)) == Ok::<Seq<Seq<char>>, Seq<char>>(texts(args@)),
            decreases t.len() - i,
        {
            assert(t@.take(i + 1).drop_last() =~= t@.take(i as int));
            assert(t@.take(i + 1).last() == t@[i as int]);
            match push_entry_args(&mut args, &self.function_id, &t[i].0, &t[i].1) {
                Ok(()) => {},
                Err(e) => {
                    proof {
                        lemma_table_args_prefix(self.function_id@, t@, i + 1, e@);
                    }
                    return Err(e);
                },
            }
            i += 1;
        }
        assert(t@.take(i as int) =~= t@);
        if self.returns.gpio.is_some() {
            let color = match signal_lookup(&gpio.signals, "color") {
                Some(p) => p,
                None => return Err(String::from_str("message.gpio.signals.color is required")),
            };
            let qr = match signal_lookup(&gpio.signals, "qr") {
                Some(p) => p,
                None => return Err(String::from_str("message.gpio.signals.qr is required")),
            };
            let ghost before = texts(args@);
            args.push(pin_arg("color_light_pin=", color));
            args.push(pin_arg("qr_light_pin=", qr));
            args.push(pin_arg("gpio_light_pin=", gpio.run_pin));
            assert(texts(args@) =~= before + light_args(*gpio)->Ok_0);
        }
        Ok(args)
    }
}

/// A parameter table of plain values gives one `key=value` argument per entry,
/// in table order: strings and decimal texts as written, integers in decimal,
/// booleans as `true` or `false`; arrays, tables and date-times are refused.
pub proof fn lemma_plain_table_args(id: Seq<char>, t: Seq<(String, ParamValue)>)
    requires
        forall|i: int| 0 <= i < t.len() ==> (#[trigger] t[i]).0@ != "color_ranges"@,
        forall|i: int| 0 <= i < t.len() ==> match (#[trigger] t[i]).1 {
            ParamValue::Text(_) | ParamValue::Integer(_) | ParamValue::Float(_) | ParamValue::Boolean(_) => true,
            _ => false,
        },
    ensures
        table_args(id, t) matches Ok(a) && a.len() == t.len() && forall|i: int| 0 <= i < t.len() ==> #[trigger] a[i]
            == t[i].0@ + "="@ + match t[i].1 {
            ParamValue::Text(s) => s@,
            ParamValue::Integer(n) => int_decimal(n as int),
            ParamValue::Float(s) => s@,
            ParamValue::Boolean(b) => if b { "true"@ } else { "false"@ },
            _ => Seq::empty(),
        },
    decreases t.len(),
{
    if t.len() > 0 {
        let p = t.drop_last();
        assert forall|i: int| 0 <= i < p.len() implies (#[trigger] p[i]).0@ != "color_ranges"@ by {
            assert(p[i] == t[i]);
        }
        assert forall|i: int| 0 <= i < p.len() implies match (#[trigger] p[i]).1 {
            ParamValue::Text(_) | ParamValue::Integer(_) | ParamValue::Float(_) | ParamValue::Boolean(_) => true,
            _ => false,
        } by {
            assert(p[i] == t[i]);
        }
        lemma_plain_table_args(id, p);
        let n = t.len() - 1;
        assert(t[n].0@ != "color_ranges"@);
        let a = table_args(id, p)->Ok_0;
        let whole = table_args(id, t)->Ok_0;
        assert forall|i: int| 0 <= i < t.len() implies #[trigger] whole[i] == t[i].0@ + "="@ + match t[i].1 {
            ParamValue::Text(s) => s@,
            ParamValue::Integer(n) => int_decimal(n as int),
            ParamValue::Float(s) => s@,
            ParamValue::Boolean(b) => if b { "true"@ } else { "false"@ },
            _ => Seq::empty(),
        } by {
            if i < n {
                assert(whole[i] == a[i]);
                assert(p[i] == t[i]);
            }
        }
    }
}

/// A signal's pin is that of the first signal with its name: no pin is found
/// exactly when no signal has the name, and a pin found belongs to a signal
/// with the name before which none has it.
pub proof fn lemma_signal_pin_first_match(signals: Seq<GpioSignal>, name: Seq<char>)
    ensures
        signal_pin(signals, name) is None <==> forall|i: int| 0 <= i < signals.len() ==> (#[trigger] signals[i]).name@ != name,
        signal_pin(signals, name) matches Some(pin) ==> exists|i: int| 0 <= i < signals.len() && (#[trigger] signals[i]).name@ == name
            && signals[i].pin == pin && forall|j: int| 0 <= j < i ==> (#[trigger] signals[j]).name@ != name,
    decreases signals.len(),
{
    if signals.len() > 0 {
        let rest = signals.drop_first();
        lemma_signal_pin_first_match(rest, name);
        if signals[0].name@ != name {
            if let Some(pin) = signal_pin(rest, name) {
                let i = choose|i: int| 0 <= i < rest.len() && (#[trigger] rest[i]).name@ == name && rest[i].pin == pin
                    && forall|j: int| 0 <= j < i ==> (#[trigger] rest[j]).name@ != name;
                assert(signals[i + 1] == rest[i]);
                assert forall|j: int| 0 <= j < i + 1 implies (#[trigger] signals[j]).name@ != name by {
                    if j > 0 {
                        assert(signals[j] == rest[j - 1]);
                    }
                }
            } else {
                assert forall|i: int| 0 <= i < signals.len() implies (#[trigger] signals[i]).name@ != name by {
                    if i > 0 {
                        assert(signals[i] == rest[i - 1]);
                    }
                }
            }
        } else {
            assert(signals[0].name@ == name);
        }
    }
}

} // verus!
