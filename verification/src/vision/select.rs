//! Choosing among per-frame readings: the best-scored frame, and confirmation
//! of a name seen in enough consecutive frames.
use vstd::prelude::*;
use vstd::string::*;

use crate::text::{nat_decimal, push_decimal_u64};

verus! {

/// Whether a reading with `score` replaces the best one so far: it does when
/// there is none yet, or when it scores strictly higher (ties keep the earlier).
pub fn improves_best(current: Option<u8>, score: u8) -> (r: bool)
    ensures
        r == match current {
            None => true,
            Some(c) => score > c,
        },
{
    match current {
        None => true,
        Some(c) => score > c,
    }
}

/// `j` is the first position holding the highest score.
pub open spec fn first_best(scores: Seq<u8>, j: int) -> bool {
    &&& 0 <= j < scores.len()
    &&& forall|k: int| 0 <= k < scores.len() ==> scores[k] <= scores[j]
    &&& forall|k: int| 0 <= k < j ==> scores[k] < scores[j]
}

/// The position of the reading kept after all frames: the first one with the
/// highest score, or none when there was no frame.
pub fn best_by_score(scores: &Vec<u8>) -> (r: Option<usize>)
    ensures
        r is None <==> scores@.len() == 0,
        r matches Some(j) ==> first_best(scores@, j as int),
{
    let mut best: Option<usize> = None;
    let mut i: usize = 0;
    while i < scores.len()
        invariant
            i <= scores.len(),
            best is None <==> i == 0,
            best matches Some(j) ==> first_best(scores@.take(i as int), j as int),
        decreases scores.len() - i,
    {
        let current = match best {
            Some(j) => Some(scores[j]),
            None => None,
        };
        if improves_best(current, scores[i]) {
            best = Some(i);
        }
        proof {
            let t = scores@.take(i + 1);
            assert(t =~= scores@.take(i as int).push(scores@[i as int]));
        }
        i += 1;
    }
    assert(scores@.take(i as int) =~= scores@);
    best
}

/// The letter a ring contains, told by the number of holes of the shape inside:
/// none is `C`, one is `A`, two is `B`; any other count is not a letter.
pub open spec fn letter_of(holes: nat) -> Option<Seq<char>> {
    if holes == 0 {
        Some("C"@)
    } else if holes == 1 {
        Some("A"@)
    } else if holes == 2 {
        Some("B"@)
    } else {
        None
    }
}

/// The letter for a hole count.
pub fn letter_from_holes(holes: usize) -> (r: Option<String>)
    ensures
        match r {
            Some(s) => letter_of(holes as nat) == Some(s@),
            None => letter_of(holes as nat) is None,
        },
{
    if holes == 0 {
        Some(String::from_str("C"))
    } else if holes == 1 {
        Some(String::from_str("A"))
    } else if holes == 2 {
        Some(String::from_str("B"))
    } else {
        None
    }
}

/// The length of the run of equal names that ends the readings (zero when the
/// last frame had no name).
pub open spec fn trailing_run(dets: Seq<Option<Seq<char>>>) -> nat
    decreases dets.len(),
{
    if dets.len() == 0 {
        0
    } else {
        match dets.last() {
            None => 0,
            Some(n) => if dets.len() >= 2 && dets[dets.len() - 2] == Some(n) {
                trailing_run(dets.drop_last()) + 1
            } else {
                1
            },
        }
    }
}

/// The name read in the last frame, if any.
pub open spec fn last_reading(dets: Seq<Option<Seq<char>>>) -> Option<Seq<char>> {
    if dets.len() == 0 {
        None
    } else {
        dets.last()
    }
}

/// Confirmation of a reading: the candidate name and how many consecutive
/// frames have read it.
#[derive(Debug, Clone)]
pub struct ConfirmTracker {
    pub candidate: Option<String>,
    pub consecutive: usize,
}

impl ConfirmTracker {
    /// The candidate name as text.
    pub open spec fn candidate_text(&self) -> Option<Seq<char>> {
        match self.candidate {
            Some(s) => Some(s@),
            None => None,
        }
    }

    /// The tracker stands for the readings `dets`.
    pub open spec fn tracks(&self, dets: Seq<Option<Seq<char>>>) -> bool {
        &&& self.candidate_text() == last_reading(dets)
        &&& self.consecutive == trailing_run(dets)
    }

    /// A tracker before the first frame.
    pub fn new() -> (r: Self)
        ensures
            r.tracks(seq![]),
    {
        ConfirmTracker { candidate: None, consecutive: 0 }
    }

    /// Takes one frame's reading; the result tells whether the name is now
    /// confirmed, i.e. read in at least `confirm_frames` consecutive frames.
    pub fn step(&mut self, reading: Option<&str>, confirm_frames: usize) -> (confirmed: bool)
        requires
            old(self).consecutive < usize::MAX,
        ensures
            match reading {
                None => final(self).candidate is None && final(self).consecutive == 0 && !confirmed,
                Some(n) => final(self).candidate_text() == Some(n@)
                    && final(self).consecutive == (if old(self).candidate_text() == Some(n@) {
                        old(self).consecutive + 1
                    } else {
                        1
                    })
                    && confirmed == (final(self).consecutive >= confirm_frames),
            },
    {
        match reading {
            None => {
                self.candidate = None;
                self.consecutive = 0;
                false
            },
            Some(n) => {
                let name = String::from_str(n);
                let same = match &self.candidate {
                    Some(c) => *c == name,
                    None => false,
                };
                if same {
                    self.consecutive = self.consecutive + 1;
                } else {
                    self.candidate = Some(name);
                    self.consecutive = 1;
                }
                self.consecutive >= confirm_frames
            },
        }
    }
}

/// Feeding frames one by one keeps the tracker equal to its readings: after
/// each step the count is the length of the final run of equal names, and a
/// name is confirmed exactly when that run reaches `confirm_frames`.
pub proof fn lemma_step_tracks(
    before: ConfirmTracker,
    after: ConfirmTracker,
    dets: Seq<Option<Seq<char>>>,
    reading: Option<Seq<char>>,
)
    requires
        before.tracks(dets),
        match reading {
            None => after.candidate is None && after.consecutive == 0,
            Some(n) => after.candidate_text() == Some(n) && after.consecutive == (if before.candidate_text()
                == Some(n) {
                before.consecutive + 1
            } else {
                1
            }),
        },
    ensures
        after.tracks(dets.push(reading)),
{
    let d = dets.push(reading);
    assert(d.drop_last() =~= dets);
    if dets.len() > 0 {
        assert(d[d.len() - 2] == dets.last());
    }
}

/// The colour counter's next state after one frame's colour name: the first
/// name of a run is adopted, the same name again counts one more, a different
/// name clears the counter.
pub open spec fn stable_next(best: Seq<char>, count: int, name: Seq<char>) -> (Seq<char>, int) {
    if count == 0 {
        (name, 1)
    } else if best == name {
        (best, count + 1)
    } else {
        (Seq::empty(), 0)
    }
}

/// The last `count` readings are all `best`.
pub open spec fn run_of(readings: Seq<Seq<char>>, best: Seq<char>, count: int) -> bool {
    &&& 0 <= count <= readings.len()
    &&& forall|k: int| readings.len() - count <= k < readings.len() ==> #[trigger] readings[k] == best
}

/// A colour counted over successive frames, reported once it has been read in
/// `stable_count` frames in a row.
#[derive(Debug, Clone)]
pub struct StableReading {
    pub best: String,
    pub count: i32,
}

impl StableReading {
    /// A counter before the first frame.
    pub fn new() -> (r: Self)
        ensures
            r.best@.len() == 0,
            r.count == 0,
    {
        StableReading { best: String::new(), count: 0 }
    }

    /// Takes one frame's colour name; returns the colour once it has been read
    /// `stable_count` times in a row.
    pub fn step(&mut self, name: String, stable_count: i32) -> (r: Option<String>)
        requires
            0 <= old(self).count < i32::MAX,
        ensures
            (final(self).best@, final(self).count as int) == stable_next(old(self).best@, old(self).count as int, name@),
            match r {
                Some(s) => final(self).count >= stable_count && s@ == final(self).best@,
                None => final(self).count < stable_count,
            },
    {
        if self.count == 0 {
            self.best = name;
            self.count = 1;
        } else if self.best == name {
            self.count = self.count + 1;
        } else {
            self.best = String::new();
            self.count = 0;
        }
        if self.count >= stable_count {
            Some(self.best.clone())
        } else {
            None
        }
    }
}

/// Each frame keeps the counter honest: after any sequence of readings, the
/// counted colour is the reading of the last `count` frames. So a colour is
/// reported only when it was read in the last `stable_count` frames in a row.
pub proof fn lemma_stable_run(readings: Seq<Seq<char>>, best: Seq<char>, count: int, name: Seq<char>)
    requires
        run_of(readings, best, count),
    ensures
        run_of(readings.push(name), stable_next(best, count, name).0, stable_next(best, count, name).1),
{
    let r = readings.push(name);
    assert forall|k: int| r.len() - stable_next(best, count, name).1 <= k < r.len() implies #[trigger] r[k]
        == stable_next(best, count, name).0 by {
        if k < readings.len() {
            assert(r[k] == readings[k]);
        }
    }
}

/// Whether a bounding box (`x`, `y`, `width`, `height`) comes within `margin`
/// pixels of the edges of a `frame_width` x `frame_height` frame.
pub fn touches_frame_edge(x: i32, y: i32, width: i32, height: i32, frame_width: i32, frame_height: i32, margin: i32) -> (r: bool)
    requires
        i32::MIN <= x + width <= i32::MAX,
        i32::MIN <= y + height <= i32::MAX,
        i32::MIN <= frame_width - margin <= i32::MAX,
        i32::MIN <= frame_height - margin <= i32::MAX,
    ensures
        r == (x <= margin || y <= margin || x + width >= frame_width - margin || y + height >= frame_height - margin),
{
    x <= margin || y <= margin || x + width >= frame_width - margin || y + height >= frame_height - margin
}

/// The failure of a confirmation that did not happen in the allowed frames:
/// `<subject> was not confirmed within <max_frames> frames`.
pub fn not_confirmed(subject: &str, max_frames: usize) -> (r: String)
    ensures
        r@ == subject@ + " was not confirmed within "@ + nat_decimal(max_frames as nat) + " frames"@,
{
    let mut s = String::from_str(subject);
    s.append(" was not confirmed within ");
    push_decimal_u64(&mut s, max_frames as u64);
    s.append(" frames");
    s
}

/// The failure of a QR search that found no code in the allowed frames.
pub fn qr_not_detected(max_frames: usize) -> (r: String)
    ensures
        r@ == "qr code was not detected within "@ + nat_decimal(max_frames as nat) + " frames"@,
{
    let mut s = String::from_str("qr code was not detected within ");
    push_decimal_u64(&mut s, max_frames as u64);
    s.append(" frames");
    s
}

} // verus!
