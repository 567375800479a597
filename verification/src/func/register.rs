//! The declared functions and the registry built from the configuration.
use vstd::prelude::*;
use vstd::string::*;

use crate::config::runtime::{FunctionEntryConfig, FunctionsConfig};
use crate::func::output::TaskError;
use crate::func::tarits::{FuncWorkerMap, FunctionDef};

verus! {

/// The functions this program provides.
#[derive(Debug, Clone, Copy, PartialEq, Eq)]
pub enum FunctionKind {
    ColorDetect,
    QrDetect,
    BlackRingDetect,
    Cross,
    DebugFun,
}

/// The configuration id of a function.
pub open spec fn kind_id(k: FunctionKind) -> Seq<char> {
    match k {
        FunctionKind::ColorDetect => "color_detect"@,
        FunctionKind::QrDetect => "qr_detect"@,
        FunctionKind::BlackRingDetect => "black_ring_detect"@,
        FunctionKind::Cross => "cross"@,
        FunctionKind::DebugFun => "debug_fun"@,
    }
}

/// The declared functions, in declaration order.
pub open spec fn declared_kinds() -> Seq<FunctionKind> {
    seq![
        FunctionKind::ColorDetect,
        FunctionKind::QrDetect,
        FunctionKind::BlackRingDetect,
        FunctionKind::Cross,
        FunctionKind::DebugFun,
    ]
}

/// The declared function with configuration id `id`, if any.
pub open spec fn kind_of(id: Seq<char>) -> Option<FunctionKind> {
    if id == "color_detect"@ {
        Some(FunctionKind::ColorDetect)
    } else if id == "qr_detect"@ {
        Some(FunctionKind::QrDetect)
    } else if id == "black_ring_detect"@ {
        Some(FunctionKind::BlackRingDetect)
    } else if id == "cross"@ {
        Some(FunctionKind::Cross)
    } else if id == "debug_fun"@ {
        Some(FunctionKind::DebugFun)
    } else {
        None
    }
}

impl FunctionKind {
    /// The configuration id.
    pub fn id(&self) -> (r: &'static str)
        ensures
            r@ == kind_id(*self),
    {
        match self {
            FunctionKind::ColorDetect => "color_detect",
            FunctionKind::QrDetect => "qr_detect",
            FunctionKind::BlackRingDetect => "black_ring_detect",
            FunctionKind::Cross => "cross",
            FunctionKind::DebugFun => "debug_fun",
        }
    }
}

/// The declared functions, in declaration order.
pub fn function_descriptors() -> (r: Vec<FunctionKind>)
    ensures
        r@ == declared_kinds(),
{
    let r = vec![
        FunctionKind::ColorDetect,
        FunctionKind::QrDetect,
        FunctionKind::BlackRingDetect,
        FunctionKind::Cross,
        FunctionKind::DebugFun,
    ];
    assert(r@ =~= declared_kinds());
    r
}

/// The declared function with configuration id `id`, if any.
pub fn find_descriptor(id: &str) -> (r: Option<FunctionKind>)
    ensures
        r == kind_of(id@),
{
    let key = String::from_str(id);
    if key == String::from_str("color_detect") {
        Some(FunctionKind::ColorDetect)
    } else if key == String::from_str("qr_detect") {
        Some(FunctionKind::QrDetect)
    } else if key == String::from_str("black_ring_detect") {
        Some(FunctionKind::BlackRingDetect)
    } else if key == String::from_str("cross") {
        Some(FunctionKind::Cross)
    } else if key == String::from_str("debug_fun") {
        Some(FunctionKind::DebugFun)
    } else {
        None
    }
}

pub open spec fn entry_ids(entries: Seq<FunctionEntryConfig>) -> Seq<Seq<char>> {
    entries.map_values(|e: FunctionEntryConfig| e.function_id@)
}

/// Entry `j` names a declared function and its runner was built.
pub open spec fn built_ok<R, F: Fn(&FunctionEntryConfig, FunctionKind) -> Result<R, TaskError>>(
    build: F,
    entries: Seq<FunctionEntryConfig>,
    j: int,
) -> bool {
    &&& kind_of(entries[j].function_id@) is Some
    &&& exists|o: R| call_ensures(build, (&entries[j], kind_of(entries[j].function_id@)->0), Ok::<R, TaskError>(o))
}

/// Registration stops at entry `i` with `e`: its id names no declared function
/// (and `e` says so), or building its runner failed with `e`.
pub open spec fn fails_at<R, F: Fn(&FunctionEntryConfig, FunctionKind) -> Result<R, TaskError>>(
    build: F,
    entries: Seq<FunctionEntryConfig>,
    i: int,
    e: TaskError,
) -> bool {
    match kind_of(entries[i].function_id@) {
        None => e matches TaskError::UnknownFunction { function_id } && function_id@ == entries[i].function_id@,
        Some(k) => call_ensures(build, (&entries[i], k), Err::<R, TaskError>(e)),
    }
}

/// No later entry has the id of entry `i`: its definition is the one kept.
pub open spec fn last_entry(ids: Seq<Seq<char>>, i: int) -> bool {
    forall|j: int| i < j < ids.len() ==> ids[j] != ids[i]
}

/// Registers every configured function: each entry's id must name a declared
/// function, and `build` makes the runner of every entry, in order (also of
/// an entry whose id a later entry registers again). The first entry that
/// fails stops the registration with its error.
pub fn register_func<R: Clone, F: Fn(&FunctionEntryConfig, FunctionKind) -> Result<R, TaskError>>(
    cfg: &FunctionsConfig,
    build: F,
) -> (r: Result<FuncWorkerMap<R>, TaskError>)
    requires
        forall|e: &FunctionEntryConfig, k: FunctionKind| call_requires(build, (e, k)),
    ensures
        (exists|i: int| 0 <= i < cfg.entries@.len() && kind_of(#[trigger] entry_ids(cfg.entries@)[i]) is None)
            ==> r is Err,
        (forall|i: int| 0 <= i < cfg.entries@.len() ==> kind_of(#[trigger] entry_ids(cfg.entries@)[i]) is Some)
            && (forall|i: int, o: Result<R, TaskError>| 0 <= i < cfg.entries@.len() && #[trigger] call_ensures(
            build,
            (&cfg.entries@[i], kind_of(entry_ids(cfg.entries@)[i])->0),
            o,
        ) ==> o is Ok) ==> r is Ok,
        r is Ok ==> forall|j: int| 0 <= j < cfg.entries@.len() ==> built_ok(build, cfg.entries@, j),
        r matches Ok(m) ==> {
            &&& forall|k: Seq<char>| m@.contains_key(k) <==> entry_ids(cfg.entries@).contains(k)
            &&& forall|k: Seq<char>| m@.contains_key(k) ==> (#[trigger] m@[k]).func_id@ == k
            &&& forall|i: int| 0 <= i < cfg.entries@.len() && last_entry(entry_ids(cfg.entries@), i) ==> {
                &&& m@[entry_ids(cfg.entries@)[i]].returns@ == cfg.entries@[i].returns@
                &&& call_ensures(
                    build,
                    (&cfg.entries@[i], kind_of(entry_ids(cfg.entries@)[i])->0),
                    Ok::<R, TaskError>(m@[entry_ids(cfg.entries@)[i]].runner),
                )
            }
        },
        r matches Err(e) ==> exists|i: int| 0 <= i < cfg.entries@.len() && #[trigger] fails_at(build, cfg.entries@, i, e)
            && forall|j: int| 0 <= j < i ==> built_ok(build, cfg.entries@, j),
{
    let ghost ids = entry_ids(cfg.entries@);
    let mut map: FuncWorkerMap<R> = FuncWorkerMap::new();
    let mut i: usize = 0;
    while i < cfg.entries.len()
        invariant
            i <= cfg.entries.len(),
            ids == entry_ids(cfg.entries@),
            forall|e: &FunctionEntryConfig, k: FunctionKind| call_requires(build, (e, k)),
            forall|j: int| 0 <= j < i ==> kind_of(#[trigger] ids[j]) is Some,
            forall|j: int| 0 <= j < i ==> built_ok(build, cfg.entries@, j),
            forall|k: Seq<char>| map@.contains_key(k) <==> ids.take(i as int).contains(k),
            forall|k: Seq<char>| map@.contains_key(k) ==> (#[trigger] map@[k]).func_id@ == k,
            forall|j: int| 0 <= j < i && last_entry(ids.take(i as int), j) ==> {
                &&& map@[ids[j]].returns@ == cfg.entries@[j].returns@
                &&& call_ensures(build, (&cfg.entries@[j], kind_of(ids[j])->0), Ok::<R, TaskError>(map@[ids[j]].runner))
            },
        decreases cfg.entries.len() - i,
    {
        let entry = &cfg.entries[i];
        assert(ids[i as int] == entry.function_id@);
        let kind = match find_descriptor(entry.function_id.as_str()) {
            Some(k) => k,
            None => {
                assert(ids.contains(entry.function_id@));
                let e = TaskError::UnknownFunction { function_id: entry.function_id.clone() };
                assert(fails_at(build, cfg.entries@, i as int, e));
                return Err(e);
            },
        };
        let runner = match build(entry, kind) {
            Ok(runner) => runner,
            Err(e) => {
                assert(cfg.entries@[i as int] == *entry);
                assert(fails_at(build, cfg.entries@, i as int, e));
                return Err(e);
            },
        };
        let ghost built = runner;
        assert(call_ensures(build, (&cfg.entries@[i as int], kind_of(ids[i as int])->0), Ok::<R, TaskError>(built)));
        assert(built_ok(build, cfg.entries@, i as int));
        let ghost before = map@;
        let def = FunctionDef::new(entry.function_id.as_str(), entry.returns.duplicate(), runner);
        let ghost d = def;
        assert(d.returns@ == cfg.entries@[i as int].returns@ && d.runner == built);
        map.add(entry.function_id.as_str(), def);
        assert(map@[ids[i as int]] == d);
        assert(ids.take(i + 1) =~= ids.take(i as int).push(ids[i as int]));
        let ghost prev = ids.take(i as int);
        let ghost next = ids.take(i + 1);
        assert(map@ == before.insert(ids[i as int], map@[ids[i as int]]));
        assert forall|k: Seq<char>| map@.contains_key(k) <==> next.contains(k) by {
            if k == ids[i as int] {
                assert(next[i as int] == k);
            } else {
                if next.contains(k) {
                    let w = choose|w: int| 0 <= w < next.len() && #[trigger] next[w] == k;
                    assert(w < i);
                    assert(prev[w] == k);
                    assert(prev.contains(k));
                }
                if prev.contains(k) {
                    let w = choose|w: int| 0 <= w < prev.len() && #[trigger] prev[w] == k;
                    assert(next[w] == k);
                    assert(next.contains(k));
                }
                assert(before.contains_key(k) <==> prev.contains(k));
            }
        }
        assert forall|j: int| 0 <= j < i + 1 && last_entry(next, j) implies {
            &&& map@[ids[j]].returns@ == cfg.entries@[j].returns@
            &&& call_ensures(build, (&cfg.entries@[j], kind_of(ids[j])->0), Ok::<R, TaskError>(map@[ids[j]].runner))
        } by {
            if j < i {
                assert(next[i as int] == ids[i as int]);
                assert(next[j] == ids[j]);
                assert(ids[j] != ids[i as int]);
                assert(prev[j] == ids[j]);
                assert(prev.contains(ids[j]));
                assert(before.contains_key(ids[j]));
                assert(map@[ids[j]] == before[ids[j]]);
                assert forall|m: int| j < m < prev.len() implies prev[m] != prev[j] by {
                    assert(next[m] == prev[m]);
                }
                assert(last_entry(prev, j));
            } else {
                assert(j == i);
                assert(map@[ids[j]] == d);
            }
        }
        i += 1;
    }
    assert(ids.take(i as int) =~= ids);
    Ok(map)
}

/// Each declared function is found by its own configuration id and by no
/// other: looking up the id of a kind finds that kind, an id that finds a kind
/// is that kind's id, and the declared list holds every kind. The ids are
/// those of the configuration file.
pub proof fn lemma_kind_found_by_its_id(k: FunctionKind, id: Seq<char>)
    ensures
        kind_of(kind_id(k)) == Some(k),
        kind_of(id) matches Some(j) ==> id == kind_id(j),
        declared_kinds().contains(k),
        kind_id(FunctionKind::ColorDetect) == "color_detect"@,
        kind_id(FunctionKind::QrDetect) == "qr_detect"@,
        kind_id(FunctionKind::BlackRingDetect) == "black_ring_detect"@,
        kind_id(FunctionKind::Cross) == "cross"@,
        kind_id(FunctionKind::DebugFun) == "debug_fun"@,
{
    reveal_strlit("color_detect");
    reveal_strlit("qr_detect");
    reveal_strlit("black_ring_detect");
    reveal_strlit("cross");
    reveal_strlit("debug_fun");
    let d = declared_kinds();
    match k {
        FunctionKind::ColorDetect => assert(d[0] == k),
        FunctionKind::QrDetect => {
            assert("qr_detect"@[0] != "color_detect"@[0]);
            assert(d[1] == k);
        },
        FunctionKind::BlackRingDetect => {
            assert("black_ring_detect"@.len() != "color_detect"@.len());
            assert("black_ring_detect"@.len() != "qr_detect"@.len());
            assert(d[2] == k);
        },
        FunctionKind::Cross => {
            assert("cross"@.len() != "color_detect"@.len());
            assert("cross"@.len() != "qr_detect"@.len());
            assert("cross"@.len() != "black_ring_detect"@.len());
            assert(d[3] == k);
        },
        FunctionKind::DebugFun => {
            assert("debug_fun"@[0] != "color_detect"@[0]);
            assert("debug_fun"@[0] != "qr_detect"@[0]);
            assert("debug_fun"@[0] != "black_ring_detect"@[0]);
            assert("debug_fun"@[0] != "cross"@[0]);
            assert(d[4] == k);
        },
    }
}

} // verus!
