//! Setting device options from the command line: which file entry each short
//! key names, and the list of entries to write.
use vstd::prelude::*;
use vstd::string::*;

use toml_edit::DocumentMut;

verus! {

/// The section and field of the device configuration that a short key names.
pub open spec fn key_target(key: Seq<char>) -> Option<(Seq<char>, Seq<char>)> {
    if key == "color_cam"@ {
        Some(("color_camera_config"@, "color_camera"@))
    } else if key == "qr_cam"@ {
        Some(("qr_camera_config"@, "qr_camera"@))
    } else if key == "cross_cam"@ {
        Some(("cross_camera_config"@, "cross_camera"@))
    } else if key == "serial"@ {
        Some(("gpio_config"@, "serial"@))
    } else {
        None
    }
}

/// Each short key names its own entry: a camera key `<name>_cam` names the
/// field `<name>_camera` of section `<name>_camera_config`, `serial` names the
/// field `serial` of section `gpio_config`, no other key names an entry, and
/// two different keys never name the same entry.
pub proof fn lemma_keys_name_their_entries(a: Seq<char>, b: Seq<char>)
    ensures
        forall|name: Seq<char>| #![trigger name + "_cam"@]
            (name == "color"@ || name == "qr"@ || name == "cross"@) ==> key_target(name + "_cam"@) == Some(
                (name + "_camera_config"@, name + "_camera"@),
            ),
        key_target("serial"@) == Some(("gpio_config"@, "serial"@)),
        key_target(a) is Some ==> (a == "color_cam"@ || a == "qr_cam"@ || a == "cross_cam"@ || a == "serial"@),
        a != b && key_target(a) is Some && key_target(b) is Some ==> key_target(a) != key_target(b),
{
    reveal_strlit("color");
    reveal_strlit("qr");
    reveal_strlit("cross");
    reveal_strlit("_cam");
    reveal_strlit("_camera");
    reveal_strlit("_camera_config");
    reveal_strlit("color_cam");
    reveal_strlit("qr_cam");
    reveal_strlit("cross_cam");
    reveal_strlit("serial");
    reveal_strlit("color_camera");
    reveal_strlit("qr_camera");
    reveal_strlit("cross_camera");
    reveal_strlit("color_camera_config");
    reveal_strlit("qr_camera_config");
    reveal_strlit("cross_camera_config");
    reveal_strlit("gpio_config");
    assert("color"@ + "_cam"@ =~= "color_cam"@);
    assert("qr"@ + "_cam"@ =~= "qr_cam"@);
    assert("cross"@ + "_cam"@ =~= "cross_cam"@);
    assert("color"@ + "_camera"@ =~= "color_camera"@);
    assert("qr"@ + "_camera"@ =~= "qr_camera"@);
    assert("cross"@ + "_camera"@ =~= "cross_camera"@);
    assert("color"@ + "_camera_config"@ =~= "color_camera_config"@);
    assert("qr"@ + "_camera_config"@ =~= "qr_camera_config"@);
    assert("cross"@ + "_camera_config"@ =~= "cross_camera_config"@);
    assert("qr_cam"@[0] != "color_cam"@[0]);
    assert("cross_cam"@[1] != "color_cam"@[1]);
    assert("cross_cam"@[0] != "qr_cam"@[0]);
    assert forall|name: Seq<char>| #![trigger name + "_cam"@]
        (name == "color"@ || name == "qr"@ || name == "cross"@) implies key_target(name + "_cam"@) == Some(
            (name + "_camera_config"@, name + "_camera"@),
        ) by {
        if name == "color"@ {
            assert(key_target("color_cam"@) == Some(("color_camera_config"@, "color_camera"@)));
        } else if name == "qr"@ {
            assert(key_target("qr_cam"@) == Some(("qr_camera_config"@, "qr_camera"@)));
        } else {
            assert(key_target("cross_cam"@) == Some(("cross_camera_config"@, "cross_camera"@)));
        }
    }
    assert("color_camera"@[0] != "qr_camera"@[0]);
    assert("color_camera"@[1] != "cross_camera"@[1]);
    assert("color_camera"@[0] != "serial"@[0]);
    assert("qr_camera"@[0] != "cross_camera"@[0]);
    assert("qr_camera"@[0] != "serial"@[0]);
    assert("cross_camera"@[0] != "serial"@[0]);
}

/// The section and field that a short key names, if it is one of the known keys.
pub fn key_parse(s: &str) -> (r: Option<(&'static str, &'static str)>)
    ensures
        match key_target(s@) {
            Some((section, field)) => r matches Some((a, b)) && a@ == section && b@ == field,
            None => r is None,
        },
{
    let key = String::from_str(s);
    if key == String::from_str("color_cam") {
        Some(("color_camera_config", "color_camera"))
    } else if key == String::from_str("qr_cam") {
        Some(("qr_camera_config", "qr_camera"))
    } else if key == String::from_str("cross_cam") {
        Some(("cross_camera_config", "cross_camera"))
    } else if key == String::from_str("serial") {
        Some(("gpio_config", "serial"))
    } else {
        None
    }
}

/// One entry to write: the section, the field and the new value.
#[derive(Debug, Clone)]
pub struct ConfigUpdate {
    pub section: String,
    pub field: String,
    pub value: String,
}

/// The message when the keys and values do not pair up.
pub open spec fn count_mismatch() -> Seq<char> {
    "num(key) is not equal to num(value), setting failed"@
}

/// The entries to write for `--key`/`--value` pairs, in order. Keys and values
/// that do not pair up are refused with the mismatch message; every key must
/// be a known one.
pub fn plan_updates(keys: &Vec<String>, values: &Vec<String>) -> (r: Result<Vec<ConfigUpdate>, String>)
    requires
        keys@.len() == values@.len() ==> forall|i: int| 0 <= i < keys@.len() ==> #[trigger] key_target(keys@[i]@) is Some,
    ensures
        keys@.len() != values@.len() ==> (r matches Err(e) && e@ == count_mismatch()),
        keys@.len() == values@.len() ==> (r matches Ok(u) && u@.len() == keys@.len() && forall|i: int|
            0 <= i < u@.len() ==> key_target(keys@[i]@) == Some((#[trigger] u@[i].section@, u@[i].field@))
                && u@[i].value@ == values@[i]@),
{
    if keys.len() != values.len() {
        return Err(String::from_str("num(key) is not equal to num(value), setting failed"));
    }
    let mut out: Vec<ConfigUpdate> = Vec::new();
    let mut i: usize = 0;
    while i < keys.len()
        invariant
            i <= keys.len(),
            keys@.len() == values@.len(),
            forall|j: int| 0 <= j < keys@.len() ==> #[trigger] key_target(keys@[j]@) is Some,
            out@.len() == i,
            forall|j: int| 0 <= j < i ==> key_target(keys@[j]@) == Some((#[trigger] out@[j].section@, out@[j].field@))
                && out@[j].value@ == values@[j]@,
        decreases keys.len() - i,
    {
        assert(key_target(keys@[i as int]@) is Some);
        let (a, b) = match key_parse(keys[i].as_str()) {
            Some(t) => t,
            None => {
                assert(false);
                return Err(String::new());
            },
        };
        out.push(ConfigUpdate { section: String::from_str(a), field: String::from_str(b), value: values[i].clone() });
        i += 1;
    }
    Ok(out)
}

/// The text toml_edit prints for `text` read as a TOML document, or `None`
/// when `text` is no TOML document.
pub uninterp spec fn toml_reprinted(text: Seq<char>) -> Option<Seq<char>>;

/// What toml_edit gives for `text` read as a TOML document whose entry
/// `field` of section `section` is set to the string `value`: the document
/// printed again and the entry's text before the change. `None` when `text`
/// is no TOML document or the section holds neither a table nor an inline
/// table.
pub uninterp spec fn toml_with_string(text: Seq<char>, section: Seq<char>, field: Seq<char>, value: Seq<char>) -> Option<(Seq<char>, Seq<char>)>;

/// Parses `text` with toml_edit (`str::parse::<DocumentMut>`) and prints the
/// document again (`DocumentMut`'s `Display`). The contract only names the
/// result: `None` exactly when the parse fails.
#[verifier::external_body]
fn reprint_toml(text: &str) -> (r: Option<String>)
    ensures
        match r {
            Some(t) => toml_reprinted(text@) == Some(t@),
            None => toml_reprinted(text@) is None,
        },
{
    match text.parse::<DocumentMut>() {
        Ok(doc) => Some(doc.to_string()),
        Err(_) => None,
    }
}

/// Parses `text` with toml_edit, reaches the entry with `Item::get_mut`
/// (section, then field; a missing section or field is inserted empty, a
/// section that holds a plain value or an array gives `None`), prints the
/// entry's old text, sets it to `toml_edit::value(value)` and prints the
/// document. The contract only names the result.
#[verifier::external_body]
fn set_toml_string(text: &str, section: &str, field: &str, value: &str) -> (r: Option<(String, String)>)
    ensures
        match r {
            Some((t, old)) => toml_with_string(text@, section@, field@, value@) == Some((t@, old@)),
            None => toml_with_string(text@, section@, field@, value@) is None,
        },
{
    let mut doc = text.parse::<DocumentMut>().ok()?;
    let item = doc.as_item_mut().get_mut(section)?.get_mut(field)?;
    let old = item.to_string();
    *item = toml_edit::value(value);
    Some((doc.to_string(), old))
}

/// Why the entries could not be written.
#[derive(Debug, Clone, PartialEq, Eq)]
pub enum UpdateError {
    /// Keys and values do not pair up.
    CountMismatch,
    /// The file is no TOML document.
    Unreadable,
    /// The section of this key holds no table to set a field in.
    NotATable { key: String },
}

impl UpdateError {
    /// The message reported for the error.
    pub fn message(&self) -> (r: String)
        ensures
            r@ == match self {
                UpdateError::CountMismatch => count_mismatch(),
                UpdateError::Unreadable => "TOML read failed"@,
                UpdateError::NotATable { key } => "cannot set `"@ + key@ + "`: its section is not a table"@,
            },
    {
        match self {
            UpdateError::CountMismatch => String::from_str("num(key) is not equal to num(value), setting failed"),
            UpdateError::Unreadable => String::from_str("TOML read failed"),
            UpdateError::NotATable { key } => {
                let mut s = String::from_str("cannot set `");
                s.append(key.as_str());
                s.append("`: its section is not a table");
                s
            },
        }
    }
}

/// The `(section, field, value)` entries that `--key`/`--value` pairs write,
/// in order.
pub open spec fn update_plan(keys: Seq<String>, values: Seq<String>) -> Seq<(Seq<char>, Seq<char>, Seq<char>)> {
    Seq::new(keys.len(), |i: int| update_entry(keys[i]@, values[i]@))
}

/// The `(section, field, value)` entry a known key and its value write.
pub open spec fn update_entry(key: Seq<char>, value: Seq<char>) -> (Seq<char>, Seq<char>, Seq<char>) {
    match key_target(key) {
        Some((section, field)) => (section, field, value),
        None => (Seq::empty(), Seq::empty(), value),
    }
}

/// Writing the entries of `plan` in turn into the document `text`: the text
/// after the last one and the old text of each entry, or the position of the
/// first entry that cannot be set.
pub open spec fn apply_plan(text: Seq<char>, plan: Seq<(Seq<char>, Seq<char>, Seq<char>)>) -> Result<(Seq<char>, Seq<Seq<char>>), int>
    decreases plan.len(),
{
    if plan.len() == 0 {
        Ok((text, Seq::empty()))
    } else {
        match apply_plan(text, plan.drop_last()) {
            Err(i) => Err(i),
            Ok((t, olds)) => match toml_with_string(t, plan.last().0, plan.last().1, plan.last().2) {
                None => Err(plan.len() - 1),
                Some((t2, old)) => Ok((t2, olds.push(old))),
            },
        }
    }
}

proof fn lemma_apply_plan_prefix(text: Seq<char>, plan: Seq<(Seq<char>, Seq<char>, Seq<char>)>, i: int)
    requires
        0 <= i < plan.len(),
    ensures
        plan.take(i + 1).drop_last() == plan.take(i),
        plan.take(i + 1).last() == plan[i],
{
    assert(plan.take(i + 1).drop_last() =~= plan.take(i));
}

proof fn lemma_apply_plan_err_stays(text: Seq<char>, plan: Seq<(Seq<char>, Seq<char>, Seq<char>)>, i: int, k: int)
    requires
        0 <= i <= k <= plan.len(),
        apply_plan(text, plan.take(i)) is Err,
    ensures
        apply_plan(text, plan.take(k)) == apply_plan(text, plan.take(i)),
    decreases k - i,
{
    if k > i {
        lemma_apply_plan_err_stays(text, plan, i, k - 1);
        lemma_apply_plan_prefix(text, plan, k - 1);
    }
}

/// Writes the `--key`/`--value` pairs into the TOML document `text`: the
/// document is read and printed by toml_edit, then each pair sets the string
/// field its key names, in order. Returns the new text and each entry's old
/// text; keys and values that do not pair up, a text that is no TOML
/// document, and a key whose section holds no table are refused. When they
/// pair up, every key must be a known one.
pub fn apply_updates(text: &str, keys: &Vec<String>, values: &Vec<String>) -> (r: Result<(String, Vec<String>), UpdateError>)
    requires
        keys@.len() == values@.len() ==> forall|i: int| 0 <= i < keys@.len() ==> #[trigger] key_target(keys@[i]@) is Some,
    ensures
        keys@.len() != values@.len() ==> r == Err::<(String, Vec<String>), UpdateError>(UpdateError::CountMismatch),
        keys@.len() == values@.len() ==> match toml_reprinted(text@) {
            None => r == Err::<(String, Vec<String>), UpdateError>(UpdateError::Unreadable),
            Some(start) => match apply_plan(start, update_plan(keys@, values@)) {
                Ok((t, olds)) => r matches Ok((nt, os)) && nt@ == t && os@.len() == olds.len()
                    && forall|j: int| 0 <= j < olds.len() ==> #[trigger] os@[j]@ == olds[j],
                Err(i) => 0 <= i < keys@.len() && (r matches Err(UpdateError::NotATable { key }) && key@ == keys@[i]@),
            },
        },
{
    let plan = match plan_updates(keys, values) {
        Ok(p) => p,
        Err(_) => return Err(UpdateError::CountMismatch),
    };
    let start = match reprint_toml(text) {
        Some(t) => t,
        None => return Err(UpdateError::Unreadable),
    };
    let ghost spec_plan = update_plan(keys@, values@);
    let mut current = start;
    let mut olds: Vec<String> = Vec::new();
    let mut i: usize = 0;
    assert(spec_plan.take(0) =~= Seq::<(Seq<char>, Seq<char>, Seq<char>)>::empty());
    while i < plan.len()
        invariant
            i <= plan@.len(),
            plan@.len() == keys@.len(),
            keys@.len() == values@.len(),
            spec_plan == update_plan(keys@, values@),
            toml_reprinted(text@) == Some(start@),
            forall|j: int| 0 <= j < plan@.len() ==> key_target(keys@[j]@) == Some((#[trigger] plan@[j].section@, plan@[j].field@))
                && plan@[j].value@ == values@[j]@,
            apply_plan(start@, spec_plan.take(i as int)) matches Ok((t, os)) && current@ == t && olds@.len() == os.len()
                && forall|j: int| 0 <= j < os.len() ==> #[trigger] olds@[j]@ == os[j],
        decreases plan@.len() - i,
    {
        proof {
            lemma_apply_plan_prefix(start@, spec_plan, i as int);
        }
        let u = &plan[i];
        assert(spec_plan[i as int] == (u.section@, u.field@, u.value@));
        match set_toml_string(current.as_str(), u.section.as_str(), u.field.as_str(), u.value.as_str()) {
            Some((next, old)) => {
                let ghost before = olds@;
                current = next;
                olds.push(old);
                assert forall|j: int| 0 <= j < olds@.len() implies #[trigger] olds@[j]@ == apply_plan(start@, spec_plan.take(i + 1))->Ok_0.1[j] by {
                    if j < before.len() {
                        assert(olds@[j] == before[j]);
                    }
                }
            },
            None => {
                proof {
                    lemma_apply_plan_err_stays(start@, spec_plan, i + 1, spec_plan.len() as int);
                    assert(spec_plan.take(spec_plan.len() as int) =~= spec_plan);
                }
                return Err(UpdateError::NotATable { key: keys[i].clone() });
            },
        }
        i += 1;
    }
    assert(spec_plan.take(spec_plan.len() as int) =~= spec_plan);
    Ok((current, olds))
}

/// Writing a plan in two parts is writing it at once: the second part is
/// written into the text the first part left, the old texts of both parts
/// follow each other, and a failure in the second part is reported at its
/// position in the whole plan. A plan written through has one old text per
/// entry.
pub proof fn lemma_apply_plan_in_parts(
    text: Seq<char>,
    p: Seq<(Seq<char>, Seq<char>, Seq<char>)>,
    q: Seq<(Seq<char>, Seq<char>, Seq<char>)>,
)
    ensures
        apply_plan(text, p + q) == match apply_plan(text, p) {
            Err(i) => Err(i),
            Ok((t, o)) => match apply_plan(t, q) {
                Err(j) => Err(p.len() + j),
                Ok((t2, o2)) => Ok((t2, o + o2)),
            },
        },
        apply_plan(text, p) matches Ok((_t, o)) ==> o.len() == p.len(),
    decreases q.len() + p.len(),
{
    if q.len() == 0 {
        assert(p + q =~= p);
        if let Ok((t, o)) = apply_plan(text, p) {
            assert(o + Seq::<Seq<char>>::empty() =~= o);
        }
    } else {
        let q0 = q.drop_last();
        lemma_apply_plan_in_parts(text, p, q0);
        assert((p + q).drop_last() =~= p + q0);
        assert((p + q).last() == q.last());
        if let Ok((t, o)) = apply_plan(text, p) {
            if let Ok((t2, o2)) = apply_plan(t, q0) {
                if let Some((t3, old)) = toml_with_string(t2, q.last().0, q.last().1, q.last().2) {
                    assert((o + o2).push(old) =~= o + o2.push(old));
                }
            }
        }
    }
    if p.len() > 0 {
        lemma_apply_plan_in_parts(text, p.drop_last(), Seq::empty());
    }
}

} // verus!
