//! Input sources: UART command frames read from a byte stream, and web debug
//! triggers, both turned into events through their bindings.
use vstd::prelude::*;
use vstd::string::*;

use crate::config::binding::{DebugBinding, UartBinding};
use crate::init::task_dispatch::Event;

verus! {

/// The first byte of a UART command frame.
pub const FRAME_HEAD: u8 = 0xAA;

/// The last byte of a UART command frame.
pub const FRAME_TAIL: u8 = 0x55;

/// The most bytes kept while waiting for the rest of a frame.
pub const MAX_PENDING: usize = 64;

/// A UART command: `[0xAA, cmd, param, 0x55]` on the wire.
#[derive(Debug, Clone, Copy, PartialEq, Eq)]
pub struct UartFrame {
    pub cmd: u8,
    pub param: u8,
}

/// The four bytes of a frame.
pub open spec fn frame_bytes(cmd: u8, param: u8) -> Seq<u8> {
    seq![FRAME_HEAD, cmd, param, FRAME_TAIL]
}

/// Reads frames from bytes: bytes before a head are dropped; a head whose
/// fourth byte is not a tail is dropped and reading goes on from the next byte;
/// fewer than four bytes starting with a head are kept for later. The result
/// is the frames read, in order, and the bytes kept.
pub open spec fn scan(p: Seq<u8>) -> (Seq<UartFrame>, Seq<u8>)
    decreases p.len(),
{
    if p.len() == 0 {
        (Seq::empty(), Seq::empty())
    } else if p[0] != FRAME_HEAD {
        scan(p.drop_first())
    } else if p.len() < 4 {
        (Seq::empty(), p)
    } else if p[3] != FRAME_TAIL {
        scan(p.drop_first())
    } else {
        let rest = scan(p.subrange(4, p.len() as int));
        (seq![UartFrame { cmd: p[1], param: p[2] }] + rest.0, rest.1)
    }
}

/// What reading a chunk does: the chunk is appended to the kept bytes and the
/// frames are read out of them; bytes left over beyond `MAX_PENDING` are
/// discarded (the overflow is reported), otherwise they are kept.
pub open spec fn receive(pending: Seq<u8>, chunk: Seq<u8>) -> (Seq<UartFrame>, Seq<u8>, bool) {
    let read = scan(pending + chunk);
    if read.1.len() > MAX_PENDING {
        (read.0, Seq::empty(), true)
    } else {
        (read.0, read.1, false)
    }
}

/// The bytes of the stream not yet read into a frame.
pub struct FrameDecoder {
    pending: Vec<u8>,
}

impl View for FrameDecoder {
    type V = Seq<u8>;

    closed spec fn view(&self) -> Seq<u8> {
        self.pending@
    }
}

proof fn lemma_scan_skip(s: Seq<u8>, i: int)
    requires
        0 <= i < s.len(),
    ensures
        s.subrange(i, s.len() as int)[0] == s[i],
        s.subrange(i, s.len() as int).drop_first() =~= s.subrange(i + 1, s.len() as int),
        i + 4 <= s.len() ==> s.subrange(i, s.len() as int).subrange(4, s.len() - i) =~= s.subrange(i + 4, s.len() as int),
{
}

/// The frames of `s` read so far are `done` and the rest of `s` from `i` is
/// still to be read.
spec fn scan_split(s: Seq<u8>, i: int, done: Seq<UartFrame>) -> bool {
    &&& scan(s).0 == done + scan(s.subrange(i, s.len() as int)).0
    &&& scan(s).1 == scan(s.subrange(i, s.len() as int)).1
}

/// Reads all the frames out of `all`, returning them and the bytes to keep.
fn scan_bytes(all: &Vec<u8>) -> (r: (Vec<UartFrame>, Vec<u8>))
    ensures
        r.0@ == scan(all@).0,
        r.1@ == scan(all@).1,
{
    let mut frames: Vec<UartFrame> = Vec::new();
    let mut i: usize = 0;
    let n = all.len();
    assert(all@.subrange(0, n as int) =~= all@);
    while i < n
        invariant
            n == all@.len(),
            i <= n,
            scan_split(all@, i as int, frames@),
        decreases n - i,
    {
        proof {
            lemma_scan_skip(all@, i as int);
        }
        if all[i] != FRAME_HEAD {
            i += 1;
        } else if n - i < 4 {
            let mut kept: Vec<u8> = Vec::new();
            let mut j = i;
            while j < n
                invariant
                    n == all@.len(),
                    i <= j <= n,
                    kept@ =~= all@.subrange(i as int, j as int),
                decreases n - j,
            {
                kept.push(all[j]);
                j += 1;
            }
            assert(frames@ + Seq::<UartFrame>::empty() =~= frames@);
            return (frames, kept);
        } else if all[i + 3] != FRAME_TAIL {
            i += 1;
        } else {
            let f = UartFrame { cmd: all[i + 1], param: all[i + 2] };
            let ghost before = frames@;
            frames.push(f);
            proof {
                let rest = all@.subrange(i + 4, n as int);
                assert(frames@ + scan(rest).0 =~= before + (seq![f] + scan(rest).0));
            }
            i += 4;
        }
    }
    assert(all@.subrange(n as int, n as int) =~= Seq::<u8>::empty());
    assert(frames@ + Seq::<UartFrame>::empty() =~= frames@);
    (frames, Vec::new())
}

impl FrameDecoder {
    /// A decoder with nothing kept.
    pub fn new() -> (r: Self)
        ensures
            r@ == Seq::<u8>::empty(),
    {
        FrameDecoder { pending: Vec::new() }
    }

    /// Reads a chunk of the stream: returns the frames it completes, in order,
    /// and whether the kept bytes overflowed and were discarded.
    pub fn push(&mut self, chunk: &[u8]) -> (r: (Vec<UartFrame>, bool))
        ensures
            (r.0@, final(self)@, r.1) == receive(old(self)@, chunk@),
    {
        let mut all: Vec<u8> = Vec::new();
        let mut k: usize = 0;
        while k < self.pending.len()
            invariant
                k <= self.pending.len(),
                all@ =~= self.pending@.subrange(0, k as int),
            decreases self.pending.len() - k,
        {
            all.push(self.pending[k]);
            k += 1;
        }
        let mut j: usize = 0;
        while j < chunk.len()
            invariant
                j <= chunk@.len(),
                all@ =~= self.pending@ + chunk@.subrange(0, j as int),
            decreases chunk@.len() - j,
        {
            all.push(chunk[j]);
            j += 1;
        }
        assert(chunk@.subrange(0, chunk@.len() as int) =~= chunk@);
        let (frames, kept) = scan_bytes(&all);
        if kept.len() > MAX_PENDING {
            self.pending = Vec::new();
            (frames, true)
        } else {
            self.pending = kept;
            (frames, false)
        }
    }
}

/// The event of a UART frame: the first UART binding whose key is the frame's
/// command, with the frame's parameter as runtime parameter.
pub open spec fn uart_binding_for(bindings: Seq<UartBinding>, cmd: u8) -> Option<UartBinding>
    decreases bindings.len(),
{
    if bindings.len() == 0 {
        None
    } else if bindings[0].source_key == cmd {
        Some(bindings[0])
    } else {
        uart_binding_for(bindings.drop_first(), cmd)
    }
}

/// The event of a UART frame, when a binding listens to its command; other
/// commands (such as the reserved stop and heartbeat) start no task.
pub fn uart_event(bindings: &Vec<UartBinding>, frame: UartFrame) -> (r: Option<Event>)
    ensures
        match uart_binding_for(bindings@, frame.cmd) {
            Some(b) => r matches Some(Event::UsualEvent { task_id, function_id, device_id, runtime_param })
                && task_id@ == b.task_id@ && function_id@ == b.function_id@ && device_id@ == b.device_id@
                && runtime_param == frame.param,
            None => r is None,
        },
{
    let mut i: usize = 0;
    assert(bindings@.subrange(0, bindings@.len() as int) =~= bindings@);
    while i < bindings.len()
        invariant
            i <= bindings.len(),
            uart_binding_for(bindings@, frame.cmd) == uart_binding_for(
                bindings@.subrange(i as int, bindings@.len() as int),
                frame.cmd,
            ),
        decreases bindings.len() - i,
    {
        let ghost rest = bindings@.subrange(i as int, bindings@.len() as int);
        assert(rest[0] == bindings@[i as int]);
        assert(rest.drop_first() =~= bindings@.subrange(i + 1, bindings@.len() as int));
        if bindings[i].source_key == frame.cmd {
            let b = &bindings[i];
            return Some(Event::UsualEvent {
                task_id: b.task_id.clone(),
                function_id: b.function_id.clone(),
                device_id: b.device_id.clone(),
                runtime_param: frame.param,
            });
        }
        i += 1;
    }
    assert(bindings@.subrange(i as int, bindings@.len() as int).len() == 0);
    None
}

/// The first web debug binding with this key.
pub open spec fn debug_binding_for(bindings: Seq<DebugBinding>, key: Seq<char>) -> Option<DebugBinding>
    decreases bindings.len(),
{
    if bindings.len() == 0 {
        None
    } else if bindings[0].source_key@ == key {
        Some(bindings[0])
    } else {
        debug_binding_for(bindings.drop_first(), key)
    }
}

/// The status of a debug trigger whose key is not bound.
pub const STATUS_NOT_FOUND: u16 = 404;

/// The status of a debug trigger whose event was queued.
pub const STATUS_ACCEPTED: u16 = 202;

/// The status of a debug trigger whose event could not be queued.
pub const STATUS_UNAVAILABLE: u16 = 503;

/// The event a web debug trigger produces: an ordinary task event for the
/// binding of `source_key` (runtime parameter zero), or not found.
pub fn debug_event(bindings: &Vec<DebugBinding>, source_key: &str) -> (r: Result<Event, u16>)
    ensures
        match debug_binding_for(bindings@, source_key@) {
            Some(b) => r matches Ok(Event::UsualEvent { task_id, function_id, device_id, runtime_param })
                && task_id@ == b.task_id@ && function_id@ == b.function_id@ && device_id@ == b.device_id@
                && runtime_param == 0,
            None => r == Err::<Event, u16>(STATUS_NOT_FOUND),
        },
{
    let key = String::from_str(source_key);
    let mut i: usize = 0;
    assert(bindings@.subrange(0, bindings@.len() as int) =~= bindings@);
    while i < bindings.len()
        invariant
            i <= bindings.len(),
            key@ == source_key@,
            debug_binding_for(bindings@, source_key@) == debug_binding_for(
                bindings@.subrange(i as int, bindings@.len() as int),
                source_key@,
            ),
        decreases bindings.len() - i,
    {
        let ghost rest = bindings@.subrange(i as int, bindings@.len() as int);
        assert(rest[0] == bindings@[i as int]);
        assert(rest.drop_first() =~= bindings@.subrange(i + 1, bindings@.len() as int));
        if bindings[i].source_key == key {
            let b = &bindings[i];
            return Ok(Event::UsualEvent {
                task_id: b.task_id.clone(),
                function_id: b.function_id.clone(),
                device_id: b.device_id.clone(),
                runtime_param: 0,
            });
        }
        i += 1;
    }
    assert(bindings@.subrange(i as int, bindings@.len() as int).len() == 0);
    Err(STATUS_NOT_FOUND)
}

/// The status answered to a debug trigger whose event was handed to the task
/// queue: accepted, or unavailable when the queue is closed.
pub fn trigger_status(queued: bool) -> (r: u16)
    ensures
        r == if queued { STATUS_ACCEPTED } else { STATUS_UNAVAILABLE },
{
    if queued {
        STATUS_ACCEPTED
    } else {
        STATUS_UNAVAILABLE
    }
}

/// A frame on its own reads back as exactly that frame, with nothing kept.
pub proof fn lemma_frame_round_trip(cmd: u8, param: u8)
    ensures
        scan(frame_bytes(cmd, param)) == (seq![UartFrame { cmd, param }], Seq::<u8>::empty()),
{
    let b = frame_bytes(cmd, param);
    assert(b.subrange(4, 4) =~= Seq::<u8>::empty());
    assert(scan(Seq::<u8>::empty()) == (Seq::<UartFrame>::empty(), Seq::<u8>::empty()));
    assert(seq![UartFrame { cmd, param }] + Seq::<UartFrame>::empty() =~= seq![UartFrame { cmd, param }]);
}

/// Frames that follow each other are read one after the other: a frame in
/// front of any bytes is read first, then the bytes as if alone.
pub proof fn lemma_frame_then_rest(cmd: u8, param: u8, rest: Seq<u8>)
    ensures
        scan(frame_bytes(cmd, param) + rest) == (seq![UartFrame { cmd, param }] + scan(rest).0, scan(rest).1),
{
    let s = frame_bytes(cmd, param) + rest;
    assert(s[0] == FRAME_HEAD);
    assert(s[3] == FRAME_TAIL);
    assert(s.subrange(4, s.len() as int) =~= rest);
}

/// Bytes before a frame that hold no head byte are dropped as noise.
pub proof fn lemma_noise_dropped(noise: Seq<u8>, rest: Seq<u8>)
    requires
        forall|i: int| 0 <= i < noise.len() ==> noise[i] != FRAME_HEAD,
    ensures
        scan(noise + rest) == scan(rest),
    decreases noise.len(),
{
    if noise.len() > 0 {
        let s = noise + rest;
        assert(s[0] == noise[0]);
        assert(s.drop_first() =~= noise.drop_first() + rest);
        lemma_noise_dropped(noise.drop_first(), rest);
    } else {
        assert(noise + rest =~= rest);
    }
}

/// A frame cut anywhere is kept until its rest arrives: its first one, two or
/// three bytes read no frame and are all kept.
pub proof fn lemma_partial_frame_kept(cmd: u8, param: u8, k: int)
    requires
        1 <= k < 4,
    ensures
        scan(frame_bytes(cmd, param).take(k)) == (Seq::<UartFrame>::empty(), frame_bytes(cmd, param).take(k)),
{
    let p = frame_bytes(cmd, param).take(k);
    assert(p[0] == FRAME_HEAD);
}

/// Reading bytes in two parts reads the same frames as reading them at once:
/// the second part is read after the bytes the first part left kept.
pub proof fn lemma_scan_concat(s: Seq<u8>, t: Seq<u8>)
    ensures
        scan(s + t) == (scan(s).0 + scan(scan(s).1 + t).0, scan(scan(s).1 + t).1),
    decreases s.len(),
{
    let st = s + t;
    if s.len() == 0 {
        assert(st =~= t);
        assert(scan(s).1 + t =~= t);
        assert(scan(s).0 + scan(t).0 =~= scan(t).0);
    } else if s[0] != FRAME_HEAD {
        assert(st[0] == s[0]);
        assert(st.drop_first() =~= s.drop_first() + t);
        lemma_scan_concat(s.drop_first(), t);
    } else if s.len() < 4 {
        assert(scan(s).0 + scan(s + t).0 =~= scan(s + t).0);
    } else if s[3] != FRAME_TAIL {
        assert(st[0] == s[0]);
        assert(st[3] == s[3]);
        assert(st.drop_first() =~= s.drop_first() + t);
        lemma_scan_concat(s.drop_first(), t);
    } else {
        let r = s.subrange(4, s.len() as int);
        assert(st[0] == s[0] && st[1] == s[1] && st[2] == s[2] && st[3] == s[3]);
        assert(st.subrange(4, st.len() as int) =~= r + t);
        lemma_scan_concat(r, t);
        let f = seq![UartFrame { cmd: s[1], param: s[2] }];
        assert(f + (scan(r).0 + scan(scan(r).1 + t).0) =~= (f + scan(r).0) + scan(scan(r).1 + t).0);
    }
}

/// Reading keeps at most the first three bytes of a frame: a head byte and
/// what followed it, never a whole frame.
pub proof fn lemma_kept_is_partial_frame(p: Seq<u8>)
    ensures
        scan(p).1.len() < 4,
        scan(p).1.len() > 0 ==> scan(p).1[0] == FRAME_HEAD,
    decreases p.len(),
{
    if p.len() > 0 {
        if p[0] != FRAME_HEAD {
            lemma_kept_is_partial_frame(p.drop_first());
        } else if p.len() >= 4 {
            if p[3] != FRAME_TAIL {
                lemma_kept_is_partial_frame(p.drop_first());
            } else {
                lemma_kept_is_partial_frame(p.subrange(4, p.len() as int));
            }
        }
    }
}

/// The kept bytes never overflow: after any chunk at most three bytes are
/// kept, well under `MAX_PENDING`.
pub proof fn lemma_pending_stays_bounded(pending: Seq<u8>, chunk: Seq<u8>)
    ensures
        !receive(pending, chunk).2,
        receive(pending, chunk).1.len() < 4,
{
    lemma_kept_is_partial_frame(pending + chunk);
}

/// A stream read in two chunks gives the frames of the whole stream, in order,
/// and keeps what reading the whole stream keeps.
pub proof fn lemma_chunks_read_as_one(pending: Seq<u8>, a: Seq<u8>, b: Seq<u8>)
    ensures
        receive(pending, a).0 + receive(receive(pending, a).1, b).0 == scan(pending + a + b).0,
        receive(receive(pending, a).1, b).1 == scan(pending + a + b).1,
{
    lemma_pending_stays_bounded(pending, a);
    lemma_pending_stays_bounded(receive(pending, a).1, b);
    lemma_scan_concat(pending + a, b);
}

/// A UART command starts the task of the first binding listening to it: the
/// binding found carries the command and no earlier binding does, and no
/// binding is found exactly when none carries the command.
pub proof fn lemma_uart_binding_is_first_match(bindings: Seq<UartBinding>, cmd: u8)
    ensures
        uart_binding_for(bindings, cmd) is None <==> forall|i: int| 0 <= i < bindings.len() ==> (#[trigger] bindings[i]).source_key != cmd,
        uart_binding_for(bindings, cmd) matches Some(b) ==> exists|i: int| 0 <= i < bindings.len() && #[trigger] bindings[i] == b
            && b.source_key == cmd && forall|j: int| 0 <= j < i ==> bindings[j].source_key != cmd,
    decreases bindings.len(),
{
    if bindings.len() > 0 {
        let rest = bindings.drop_first();
        lemma_uart_binding_is_first_match(rest, cmd);
        if bindings[0].source_key != cmd {
            if let Some(b) = uart_binding_for(rest, cmd) {
                let i = choose|i: int| 0 <= i < rest.len() && #[trigger] rest[i] == b && b.source_key == cmd
                    && forall|j: int| 0 <= j < i ==> rest[j].source_key != cmd;
                assert(bindings[i + 1] == b);
                assert forall|j: int| 0 <= j < i + 1 implies bindings[j].source_key != cmd by {
                    if j > 0 {
                        assert(bindings[j] == rest[j - 1]);
                    }
                }
            } else {
                assert forall|i: int| 0 <= i < bindings.len() implies (#[trigger] bindings[i]).source_key != cmd by {
                    if i > 0 {
                        assert(bindings[i] == rest[i - 1]);
                    }
                }
            }
        }
    }
}

/// A web debug trigger starts the task of the first binding with its key: the
/// binding found carries the key and no earlier binding does, and no binding
/// is found (the trigger is answered "not found") exactly when none carries it.
pub proof fn lemma_debug_binding_is_first_match(bindings: Seq<DebugBinding>, key: Seq<char>)
    ensures
        debug_binding_for(bindings, key) is None <==> forall|i: int| 0 <= i < bindings.len() ==> (#[trigger] bindings[i]).source_key@ != key,
        debug_binding_for(bindings, key) matches Some(b) ==> exists|i: int| 0 <= i < bindings.len() && #[trigger] bindings[i] == b
            && b.source_key@ == key && forall|j: int| 0 <= j < i ==> bindings[j].source_key@ != key,
    decreases bindings.len(),
{
    if bindings.len() > 0 {
        let rest = bindings.drop_first();
        lemma_debug_binding_is_first_match(rest, key);
        if bindings[0].source_key@ != key {
            if let Some(b) = debug_binding_for(rest, key) {
                let i = choose|i: int| 0 <= i < rest.len() && #[trigger] rest[i] == b && b.source_key@ == key
                    && forall|j: int| 0 <= j < i ==> rest[j].source_key@ != key;
                assert(bindings[i + 1] == b);
                assert forall|j: int| 0 <= j < i + 1 implies bindings[j].source_key@ != key by {
                    if j > 0 {
                        assert(bindings[j] == rest[j - 1]);
                    }
                }
            } else {
                assert forall|i: int| 0 <= i < bindings.len() implies (#[trigger] bindings[i]).source_key@ != key by {
                    if i > 0 {
                        assert(bindings[i] == rest[i - 1]);
                    }
                }
            }
        }
    }
}

} // verus!
