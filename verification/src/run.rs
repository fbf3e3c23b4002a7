//! Bounded command output: a head+tail clipper that never splits a
//! UTF-8 character.
//!
//! Long or chatty commands are the other context hog. A stream is kept
//! whole while it fits its head and tail budgets; past that, the first
//! `head_cap` bytes and the last `tail_cap` bytes are kept (cut back to
//! character boundaries) with a marker that counts the elided bytes.

use vstd::prelude::*;

use crate::text::{
    lemma_encode_concat, lemma_utf8_len_ascii, utf8_len, chars_of, dec, dec_chars, is_valid_utf8, push_chars, push_str_chars, string_from, trim,
    trim_chars, utf8_text,
};

verus! {

broadcast use vstd::utf8::encode_utf8_valid_utf8, vstd::utf8::encode_utf8_decode_utf8;

/// Default wall-clock budget per command.
pub const DEFAULT_TIMEOUT_SECS: u64 = 120;

/// Default captured-output budget per stream (stdout and stderr each).
pub const OUTPUT_CAP_BYTES: usize = 8192;

/// Default head portion of [`OUTPUT_CAP_BYTES`] (remainder is tail).
pub const OUTPUT_HEAD_BYTES: usize = 2048;

/// Default tail portion of [`OUTPUT_CAP_BYTES`].
pub const OUTPUT_TAIL_BYTES: usize = 6144;

/// Run errors: spawn failures only. Nonzero exits and timeouts are data
/// (see [`RunHit`]), not errors.
#[derive(Debug, Clone, PartialEq, Eq)]
pub enum Error {
    /// Spawn failed or the workspace is not a directory.
    Io(String),
    /// Empty program.
    EmptyProgram,
}

impl Error {
    /// Human-readable message.
    pub fn message(&self) -> (r: String)
        ensures
            r@ == match self {
                Error::Io(m) => "io: "@ + m@,
                Error::EmptyProgram => "invalid input: empty program"@,
            },
    {
        let mut out: Vec<char> = Vec::new();
        match self {
            Error::Io(m) => {
                push_str_chars(&mut out, "io: ");
                push_str_chars(&mut out, m.as_str());
            },
            Error::EmptyProgram => {
                push_str_chars(&mut out, "invalid input: empty program");
            },
        }
        string_from(out.as_slice())
    }
}

/// What to do after one poll of a running command.
#[derive(Debug, Clone, Copy, PartialEq, Eq, Structural)]
pub enum RunStep {
    /// It exited with this code (`-1` when it has none, as when a signal
    /// ended it).
    Exited(i32),
    /// It ran past its budget: kill it and report `-1`.
    TimedOut,
    /// Keep waiting.
    Wait,
}

/// The wall-clock budget in seconds: at least one second.
pub open spec fn budget_secs(timeout_secs: u64) -> nat {
    if timeout_secs < 1 {
        1
    } else {
        timeout_secs as nat
    }
}

/// One poll of a running command. `exited` is what the poll saw:
/// `Some(code)` once the process has exited (`code` is `None` when it has
/// no exit code), `None` while it runs; `elapsed_ms` is the time since the
/// start. A command runs until its budget of whole seconds is used up.
pub fn poll_step(exited: Option<Option<i32>>, elapsed_ms: u64, timeout_secs: u64) -> (r: RunStep)
    ensures
        r == match exited {
            Some(Some(c)) => RunStep::Exited(c),
            Some(None) => RunStep::Exited(-1i32),
            None => if elapsed_ms / 1000 >= budget_secs(timeout_secs) {
                RunStep::TimedOut
            } else {
                RunStep::Wait
            },
        },
{
    match exited {
        Some(Some(c)) => RunStep::Exited(c),
        Some(None) => RunStep::Exited(-1),
        None => {
            let budget: u64 = if timeout_secs < 1 {
                1
            } else {
                timeout_secs
            };
            if elapsed_ms / 1000 >= budget {
                RunStep::TimedOut
            } else {
                RunStep::Wait
            }
        },
    }
}

/// One bounded execution.
#[derive(Debug, Clone, PartialEq, Eq)]
pub struct RunHit {
    /// Process exit code (`-1` when killed on timeout).
    pub code: i32,
    /// Stdout, head+tail clipped to the budget.
    pub stdout: String,
    /// Stderr, head+tail clipped to the budget.
    pub stderr: String,
    /// True when the process was killed for exceeding the budget.
    pub timed_out: bool,
    /// Wall time in whole milliseconds.
    pub elapsed_ms: u64,
}

/// Refuses an empty (or all-whitespace) program name.
pub fn check_program(program: &str) -> (r: Result<(), Error>)
    ensures
        r is Err <==> trim(program@).len() == 0,
        r matches Err(e) ==> e == Error::EmptyProgram,
{
    let cs = chars_of(program);
    let t = trim_chars(cs.as_slice());
    if t.len() == 0 {
        Err(Error::EmptyProgram)
    } else {
        Ok(())
    }
}

/// Split `output_cap` into head and tail budgets (a quarter for the head).
pub fn head_tail_caps(output_cap: usize) -> (r: (usize, usize))
    ensures
        r.0 == output_cap / 4,
        r.1 == output_cap - output_cap / 4,
        r.0 + r.1 == output_cap,
{
    let head = output_cap / 4;
    (head, output_cap - head)
}

// ---------------------------------------------------------------------
// Specifications
// ---------------------------------------------------------------------

/// The last `n` bytes of `s` (all of `s` when shorter).
pub open spec fn last_n(s: Seq<u8>, n: nat) -> Seq<u8> {
    if s.len() <= n {
        s
    } else {
        s.skip(s.len() - n)
    }
}

/// A UTF-8 continuation byte (`10xxxxxx`).
pub open spec fn is_cont(b: u8) -> bool {
    0x80 <= b && b <= 0xbf
}

/// Continuation bytes at the front of `b` (at most three).
pub open spec fn snap_start(b: Seq<u8>) -> nat {
    if b.len() > 0 && is_cont(b[0]) {
        if b.len() > 1 && is_cont(b[1]) {
            if b.len() > 2 && is_cont(b[2]) {
                3
            } else {
                2
            }
        } else {
            1
        }
    } else {
        0
    }
}

/// Length of the longest valid UTF-8 prefix of `b` that drops at most
/// three trailing bytes (0 when there is none).
pub open spec fn snap_end(b: Seq<u8>) -> nat {
    let n = b.len();
    if n == 0 {
        0
    } else if vstd::utf8::valid_utf8(b) {
        n
    } else if n >= 1 && vstd::utf8::valid_utf8(b.take(n - 1)) {
        (n - 1) as nat
    } else if n >= 2 && vstd::utf8::valid_utf8(b.take(n - 2)) {
        (n - 2) as nat
    } else if n >= 3 && vstd::utf8::valid_utf8(b.take(n - 3)) {
        (n - 3) as nat
    } else {
        0
    }
}

/// The stream fits its budgets and is returned whole.
pub open spec fn within_budget(stream: Seq<u8>, head_cap: nat, tail_cap: nat) -> bool {
    stream.len() <= head_cap + tail_cap
}

/// The parts of a clipped stream: head bytes kept, tail window, its kept
/// range, and the count of elided bytes.
pub open spec fn clip_parts(stream: Seq<u8>, head_cap: nat, tail_cap: nat) -> (
    nat,
    Seq<u8>,
    nat,
    nat,
    int,
) {
    let head = stream.take(head_cap as int);
    let he = snap_end(head);
    let w = last_n(stream.skip(head_cap as int), tail_cap);
    let ts = snap_start(w);
    let te = if snap_end(w) >= ts {
        snap_end(w)
    } else {
        ts
    };
    (he, w, ts, te, stream.len() - he - (te - ts))
}

/// The text a clipper returns for `stream`.
pub open spec fn clipped(stream: Seq<u8>, head_cap: nat, tail_cap: nat) -> Seq<char> {
    if stream.len() == 0 {
        Seq::empty()
    } else if within_budget(stream, head_cap, tail_cap) {
        vstd::utf8::decode_utf8(stream)
    } else {
        let (he, w, ts, te, elided) = clip_parts(stream, head_cap, tail_cap);
        vstd::utf8::decode_utf8(stream.take(he as int)) + "... ["@ + dec(elided as nat)
            + " bytes elided] ..."@ + vstd::utf8::decode_utf8(w.subrange(ts as int, te as int))
    }
}

// ---------------------------------------------------------------------
// Tail ring
// ---------------------------------------------------------------------

/// Keeps the last `cap` bytes pushed.
pub struct TailRing {
    cap: usize,
    buf: Vec<u8>,
    start: usize,
    len: usize,
    pushed: Ghost<Seq<u8>>,
}

impl TailRing {
    /// Internal consistency of the ring.
    pub closed spec fn wf(&self) -> bool {
        &&& self.len == self.buf@.len()
        &&& self.len <= self.cap
        &&& self.len < self.cap ==> self.start == 0
        &&& self.start == 0 || self.start < self.cap
        &&& self.view() == last_n(self.pushed@, self.cap as nat)
    }

    /// Every byte pushed so far, oldest first.
    pub closed spec fn pushed(&self) -> Seq<u8> {
        self.pushed@
    }

    /// The kept bytes, oldest first.
    pub closed spec fn view(&self) -> Seq<u8> {
        if self.len < self.cap {
            self.buf@
        } else {
            self.buf@.skip(self.start as int) + self.buf@.take(self.start as int)
        }
    }

    /// Capacity.
    pub closed spec fn capacity(&self) -> nat {
        self.cap as nat
    }

    /// An empty ring of capacity `cap`.
    pub fn new(cap: usize) -> (r: TailRing)
        ensures
            r.wf(),
            r.view() == Seq::<u8>::empty(),
            r.pushed() == Seq::<u8>::empty(),
            r.capacity() == cap,
    {
        let r = TailRing { cap, buf: Vec::new(), start: 0, len: 0, pushed: Ghost(Seq::empty()) };
        assert(r.buf@.skip(0) + r.buf@.take(0) =~= Seq::<u8>::empty());
        r
    }

    /// Pushes one byte, dropping the oldest when full.
    pub fn push(&mut self, b: u8)
        requires
            old(self).wf(),
        ensures
            final(self).wf(),
            final(self).capacity() == old(self).capacity(),
            final(self).view() == last_n(old(self).view().push(b), old(self).capacity()),
            final(self).pushed() == old(self).pushed().push(b),
    {
        let ghost v0 = self.view();
        let ghost p0 = self.pushed@;
        proof {
            lemma_last_n_push(p0, b, self.cap as nat);
        }
        self.pushed = Ghost(p0.push(b));
        if self.cap == 0 {
            assert(last_n(v0.push(b), 0) =~= Seq::<u8>::empty());
            assert(self.view() =~= Seq::<u8>::empty());
            return;
        }
        if self.len < self.cap {
            self.buf.push(b);
            self.len = self.len + 1;
            if self.len == self.cap {
                assert(self.buf@.skip(0) + self.buf@.take(0) =~= self.buf@);
            }
        } else {
            let s = self.start;
            let ghost old_buf = self.buf@;
            self.buf.set(s, b);
            self.start = if s + 1 == self.cap {
                0
            } else {
                s + 1
            };
            assert(v0 == old_buf.skip(s as int) + old_buf.take(s as int));
            assert(last_n(v0.push(b), self.cap as nat) =~= v0.drop_first().push(b));
            assert(self.view() =~= v0.drop_first().push(b));
        }
    }

    /// The kept bytes, oldest first: the last `capacity` bytes pushed (all
    /// of them while fewer were pushed, none when the capacity is 0).
    pub fn ordered(&self) -> (r: Vec<u8>)
        requires
            self.wf(),
        ensures
            r@ == self.view(),
            r@ == last_n(self.pushed(), self.capacity()),
    {
        let mut out: Vec<u8> = Vec::new();
        if self.len < self.cap {
            let mut i: usize = 0;
            while i < self.len
                invariant
                    i <= self.len,
                    self.len == self.buf@.len(),
                    out@ == self.buf@.take(i as int),
                decreases self.len - i,
            {
                out.push(self.buf[i]);
                assert(self.buf@.take(i + 1) == self.buf@.take(i as int).push(self.buf@[i as int]));
                i = i + 1;
            }
            assert(self.buf@.take(self.len as int) == self.buf@);
            return out;
        }
        let mut i: usize = self.start;
        while i < self.len
            invariant
                self.start <= i <= self.len,
                self.len == self.buf@.len(),
                out@ == self.buf@.subrange(self.start as int, i as int),
            decreases self.len - i,
        {
            out.push(self.buf[i]);
            assert(self.buf@.subrange(self.start as int, i + 1) == self.buf@.subrange(
                self.start as int,
                i as int,
            ).push(self.buf@[i as int]));
            i = i + 1;
        }
        let ghost mid = out@;
        let mut j: usize = 0;
        while j < self.start
            invariant
                j <= self.start <= self.len,
                self.len == self.buf@.len(),
                out@ == mid + self.buf@.take(j as int),
            decreases self.start - j,
        {
            out.push(self.buf[j]);
            assert(self.buf@.take(j + 1) == self.buf@.take(j as int).push(self.buf@[j as int]));
            j = j + 1;
        }
        assert(mid == self.buf@.skip(self.start as int));
        out
    }
}

// ---------------------------------------------------------------------
// Stream clipper
// ---------------------------------------------------------------------

/// Head+tail clipper over a byte stream.
pub struct StreamClipper {
    head_cap: usize,
    tail_cap: usize,
    head: Vec<u8>,
    tail: TailRing,
    total: usize,
    stream: Ghost<Seq<u8>>,
}

impl StreamClipper {
    /// All bytes pushed so far.
    pub closed spec fn stream(&self) -> Seq<u8> {
        self.stream@
    }

    /// The head budget.
    pub closed spec fn head_budget(&self) -> nat {
        self.head_cap as nat
    }

    /// The tail budget.
    pub closed spec fn tail_budget(&self) -> nat {
        self.tail_cap as nat
    }

    /// Internal consistency: the head holds the first bytes, the ring the
    /// last bytes after the head.
    pub closed spec fn wf(&self) -> bool {
        let s = self.stream@;
        &&& self.total == s.len()
        &&& self.head@ == s.take(self.head@.len() as int)
        &&& self.head@.len() == (if s.len() <= self.head_cap {
            s.len()
        } else {
            self.head_cap as nat
        })
        &&& self.tail.wf()
        &&& self.tail.capacity() == self.tail_cap
        &&& self.tail.view() == last_n(s.skip(self.head@.len() as int), self.tail_cap as nat)
    }

    /// An empty clipper with the given budgets.
    pub fn new(head_cap: usize, tail_cap: usize) -> (r: StreamClipper)
        ensures
            r.wf(),
            r.stream() == Seq::<u8>::empty(),
            r.head_budget() == head_cap,
            r.tail_budget() == tail_cap,
    {
        let r = StreamClipper {
            head_cap,
            tail_cap,
            head: Vec::new(),
            tail: TailRing::new(tail_cap),
            total: 0,
            stream: Ghost(Seq::empty()),
        };
        assert(last_n(Seq::<u8>::empty().skip(0), tail_cap as nat) =~= Seq::<u8>::empty());
        r
    }

    /// Appends a chunk of output.
    pub fn push(&mut self, chunk: &[u8])
        requires
            old(self).wf(),
            old(self).stream().len() + chunk@.len() <= usize::MAX,
        ensures
            final(self).wf(),
            final(self).stream() == old(self).stream() + chunk@,
            final(self).head_budget() == old(self).head_budget(),
            final(self).tail_budget() == old(self).tail_budget(),
    {
        let ghost s0 = self.stream@;
        let mut i: usize = 0;
        while i < chunk.len()
            invariant
                i <= chunk.len(),
                self.wf(),
                self.stream@ == s0 + chunk@.take(i as int),
                s0.len() + chunk@.len() <= usize::MAX,
                self.head_cap == old(self).head_cap,
                self.tail_cap == old(self).tail_cap,
            decreases chunk.len() - i,
        {
            let b = chunk[i];
            let ghost s = self.stream@;
            let ghost hl = self.head@.len();
            self.total = self.total + 1;
            self.stream = Ghost(s.push(b));
            if self.head.len() < self.head_cap {
                self.head.push(b);
                assert(s.len() == hl);
                assert(self.head@ =~= s.push(b).take(self.head@.len() as int));
                assert(s.push(b).skip(self.head@.len() as int) =~= Seq::<u8>::empty());
                assert(s.skip(hl as int) =~= Seq::<u8>::empty());
                assert(last_n(Seq::<u8>::empty(), self.tail_cap as nat) =~= Seq::<u8>::empty());
            } else {
                let ghost t0 = self.tail.view();
                self.tail.push(b);
                assert(s.push(b).skip(hl as int) =~= s.skip(hl as int).push(b));
                assert(self.head@ =~= s.push(b).take(hl as int));
                proof {
                    lemma_last_n_push(s.skip(hl as int), b, self.tail_cap as nat);
                }
            }
            assert(chunk@.take(i + 1) == chunk@.take(i as int).push(b));
            i = i + 1;
        }
        assert(chunk@.take(chunk.len() as int) == chunk@);
    }

    /// The clipped text, or an empty text for a stream that fits its
    /// budgets but is not valid UTF-8 (which cannot come back whole).
    pub fn finish_or_empty(&self) -> (r: String)
        requires
            self.wf(),
        ensures
            r@ == (if within_budget(self.stream(), self.head_budget(), self.tail_budget())
                && !vstd::utf8::valid_utf8(self.stream()) {
                Seq::<char>::empty()
            } else {
                clipped(self.stream(), self.head_budget(), self.tail_budget())
            }),
    {
        let ghost s = self.stream@;
        if self.total <= self.head_cap || self.total - self.head_cap <= self.tail_cap {
            let tail_bytes = self.tail.ordered();
            let mut all: Vec<u8> = Vec::new();
            push_bytes(&mut all, self.head.as_slice());
            if self.total > self.head_cap {
                push_bytes(&mut all, tail_bytes.as_slice());
                assert(s.skip(self.head_cap as int).len() <= self.tail_cap);
            }
            assert(all@ =~= s);
            if !is_valid_utf8(all.as_slice()) {
                return String::new();
            }
        }
        self.finish()
    }

    /// The clipped text: the whole stream when it fits the budgets,
    /// otherwise head, marker with the elided byte count, and tail.
    pub fn finish(&self) -> (r: String)
        requires
            self.wf(),
            within_budget(self.stream(), self.head_budget(), self.tail_budget())
                ==> vstd::utf8::valid_utf8(self.stream()),
        ensures
            r@ == clipped(self.stream(), self.head_budget(), self.tail_budget()),
    {
        let ghost s = self.stream@;
        if self.total == 0 {
            return String::new();
        }
        if self.total <= self.head_cap {
            assert(self.head@ == s);
            return bytes_to_str(self.head.as_slice());
        }
        let tail_bytes = self.tail.ordered();
        if self.total - self.head_cap <= self.tail_cap {
            let mut combined: Vec<u8> = Vec::new();
            push_bytes(&mut combined, self.head.as_slice());
            push_bytes(&mut combined, tail_bytes.as_slice());
            assert(s.skip(self.head_cap as int).len() <= self.tail_cap);
            assert(combined@ =~= s);
            return bytes_to_str(combined.as_slice());
        }
        let head_end = snap_end_of(self.head.as_slice());
        let tail_start = snap_start_of(tail_bytes.as_slice());
        let tail_end0 = snap_end_of(tail_bytes.as_slice());
        let tail_end = if tail_end0 >= tail_start {
            tail_end0
        } else {
            tail_start
        };
        proof {
            assert(self.head@ == s.take(self.head_cap as int));
            lemma_snap_start_le(tail_bytes@);
            lemma_snap_end_le(tail_bytes@);
            lemma_snap_end_le(self.head@);
            lemma_snap_end_valid(self.head@);
            lemma_tail_slice_valid(tail_bytes@);
        }
        let elided = self.total - head_end - (tail_end - tail_start);
        let head_part = sub_bytes(self.head.as_slice(), 0, head_end);
        let tail_part = sub_bytes(tail_bytes.as_slice(), tail_start, tail_end);
        assert(head_part@ == s.take(head_end as int));
        let head_s = bytes_to_str(head_part.as_slice());
        let tail_s = bytes_to_str(tail_part.as_slice());
        let mut out: Vec<char> = Vec::new();
        push_str_chars(&mut out, head_s.as_str());
        push_str_chars(&mut out, "... [");
        let d = dec_chars(elided as u64);
        push_chars(&mut out, d.as_slice());
        push_str_chars(&mut out, " bytes elided] ...");
        push_str_chars(&mut out, tail_s.as_str());
        string_from(out.as_slice())
    }
}

/// What a tail ring of capacity `cap` holds after `bs` was pushed into it
/// one byte at a time, starting empty (each push as [`TailRing::push`]
/// states it).
pub open spec fn ring_after(cap: nat, bs: Seq<u8>) -> Seq<u8>
    decreases bs.len(),
{
    if bs.len() == 0 {
        Seq::empty()
    } else {
        last_n(ring_after(cap, bs.drop_last()).push(bs.last()), cap)
    }
}

/// A tail ring keeps exactly the last `cap` bytes pushed into it, oldest
/// first (all of them while fewer were pushed, none when `cap` is 0);
/// [`TailRing::ordered`] returns them.
pub proof fn law_tail_ring_keeps_last(cap: nat, bs: Seq<u8>)
    ensures
        ring_after(cap, bs) == last_n(bs, cap),
        ring_after(cap, bs) == bs.subrange(bs.len() - (if bs.len() <= cap {
            bs.len()
        } else {
            cap
        }), bs.len() as int),
    decreases bs.len(),
{
    if bs.len() > 0 {
        law_tail_ring_keeps_last(cap, bs.drop_last());
        lemma_last_n_push(bs.drop_last(), bs.last(), cap);
        assert(bs.drop_last().push(bs.last()) == bs);
    }
    assert(bs.subrange(0, bs.len() as int) == bs);
}

proof fn lemma_last_n_push(s: Seq<u8>, b: u8, n: nat)
    ensures
        last_n(s.push(b), n) == last_n(last_n(s, n).push(b), n),
{
    if s.len() + 1 <= n {
    } else if s.len() <= n {
        assert(s.len() == n);
        assert(last_n(s.push(b), n) =~= s.push(b).skip(1));
    } else {
        assert(last_n(s.push(b), n) =~= last_n(s, n).push(b).skip(1));
    }
}

/// Appends `b` to `out`.
fn push_bytes(out: &mut Vec<u8>, b: &[u8])
    ensures
        final(out)@ == old(out)@ + b@,
{
    let mut i: usize = 0;
    while i < b.len()
        invariant
            i <= b.len(),
            out@ == old(out)@ + b@.take(i as int),
        decreases b.len() - i,
    {
        out.push(b[i]);
        assert(b@.take(i + 1) == b@.take(i as int).push(b@[i as int]));
        i = i + 1;
    }
    assert(b@.take(b.len() as int) == b@);
}

/// `b[from..to]` as a vector.
fn sub_bytes(b: &[u8], from: usize, to: usize) -> (r: Vec<u8>)
    requires
        from <= to <= b.len(),
    ensures
        r@ == b@.subrange(from as int, to as int),
{
    let mut out: Vec<u8> = Vec::new();
    let mut i = from;
    while i < to
        invariant
            from <= i <= to <= b.len(),
            out@ == b@.subrange(from as int, i as int),
        decreases to - i,
    {
        out.push(b[i]);
        assert(b@.subrange(from as int, i + 1) == b@.subrange(from as int, i as int).push(
            b@[i as int],
        ));
        i = i + 1;
    }
    out
}

/// Text of valid UTF-8 bytes.
fn bytes_to_str(b: &[u8]) -> (r: String)
    requires
        vstd::utf8::valid_utf8(b@),
    ensures
        r@ == vstd::utf8::decode_utf8(b@),
{
    match utf8_text(vstd::slice::slice_to_vec(b)) {
        Some(s) => s,
        None => {
            assert(false);
            String::new()
        },
    }
}

/// A UTF-8 continuation byte.
pub fn is_utf8_continuation(b: u8) -> (r: bool)
    ensures
        r == is_cont(b),
{
    assert(((b & 0xc0u8) == 0x80u8) == (0x80u8 <= b && b <= 0xbfu8)) by (bit_vector);
    (b & 0xc0u8) == 0x80u8
}

/// Skip up to three leading UTF-8 continuation bytes.
fn snap_start_of(b: &[u8]) -> (r: usize)
    ensures
        r == snap_start(b@),
{
    let mut i: usize = 0;
    while i < b.len() && i < 3 && is_utf8_continuation(b[i])
        invariant
            i <= 3,
            i <= b.len(),
            forall|j: int| 0 <= j < i ==> is_cont(b@[j]),
        decreases 3 - i,
    {
        i = i + 1;
    }
    i
}

/// Length of a valid UTF-8 prefix, dropping at most three trailing bytes.
fn snap_end_of(b: &[u8]) -> (r: usize)
    ensures
        r == snap_end(b@),
{
    let n = b.len();
    if n == 0 {
        return 0;
    }
    if is_valid_utf8(b) {
        return n;
    }
    let max_trim: usize = if n < 3 {
        n
    } else {
        3
    };
    let mut trim: usize = 1;
    while trim <= max_trim
        invariant
            1 <= trim <= max_trim + 1,
            max_trim <= 3,
            max_trim <= n,
            n == b@.len(),
            max_trim == (if n < 3 {
                n
            } else {
                3
            }),
            !vstd::utf8::valid_utf8(b@),
            forall|t: int|
                1 <= t < trim ==> !vstd::utf8::valid_utf8(#[trigger] b@.take(n - t)),
        decreases max_trim + 1 - trim,
    {
        let end = n - trim;
        let prefix = sub_bytes(b, 0, end);
        assert(prefix@ == b@.take(end as int));
        if is_valid_utf8(prefix.as_slice()) {
            return end;
        }
        trim = trim + 1;
    }
    proof {
        if n <= 3 {
            assert(b@.take(0) == Seq::<u8>::empty());
            assert(vstd::utf8::valid_utf8(Seq::<u8>::empty()));
            assert(!vstd::utf8::valid_utf8(b@.take(n - n)));
        }
    }
    0
}

proof fn lemma_snap_start_le(b: Seq<u8>)
    ensures
        snap_start(b) <= b.len(),
        snap_start(b) <= 3,
{
}

proof fn lemma_snap_end_le(b: Seq<u8>)
    ensures
        snap_end(b) <= b.len(),
{
}

proof fn lemma_snap_end_valid(b: Seq<u8>)
    ensures
        vstd::utf8::valid_utf8(b.take(snap_end(b) as int)),
{
    assert(b.take(b.len() as int) == b);
    assert(b.take(0) == Seq::<u8>::empty());
    assert(vstd::utf8::valid_utf8(Seq::<u8>::empty()));
}

/// A non-empty byte string that opens with a continuation byte is not
/// valid UTF-8.
proof fn lemma_cont_first_invalid(b: Seq<u8>)
    requires
        b.len() > 0,
        is_cont(b[0]),
    ensures
        !vstd::utf8::valid_utf8(b),
{
    vstd::utf8::utf8_byte_ranges_bitwise(b[0]);
}

/// The kept tail slice is valid UTF-8: when the window opens inside a
/// character, nothing of it is kept.
proof fn lemma_tail_slice_valid(w: Seq<u8>)
    ensures
        ({
            let ts = snap_start(w);
            let te = if snap_end(w) >= ts {
                snap_end(w)
            } else {
                ts
            };
            vstd::utf8::valid_utf8(w.subrange(ts as int, te as int))
        }),
{
    let ts = snap_start(w);
    lemma_snap_end_valid(w);
    lemma_snap_end_le(w);
    assert(w.subrange(0, snap_end(w) as int) == w.take(snap_end(w) as int));
    if ts > 0 {
        if snap_end(w) > 0 {
            let e = snap_end(w);
            assert(w.take(e as int)[0] == w[0]);
            lemma_cont_first_invalid(w.take(e as int));
        }
        assert(w.subrange(ts as int, ts as int) == Seq::<u8>::empty());
        assert(vstd::utf8::valid_utf8(Seq::<u8>::empty()));
    }
}

/// Every byte of a clipped stream is accounted for: the bytes kept at the
/// head, the bytes kept at the tail and the elided count add up to the
/// stream's length; the head keeps at most `head_cap` bytes from the start
/// of the stream, the tail at most `tail_cap` contiguous bytes from its end
/// region, and both kept parts are valid UTF-8.
pub proof fn law_clip_accounts_for_every_byte(stream: Seq<u8>, head_cap: nat, tail_cap: nat)
    requires
        !within_budget(stream, head_cap, tail_cap),
    ensures
        ({
            let (he, w, ts, te, elided) = clip_parts(stream, head_cap, tail_cap);
            let off = stream.len() - w.len();
            &&& he <= head_cap
            &&& ts <= te <= w.len()
            &&& te - ts <= tail_cap
            &&& elided >= 0
            &&& he + (te - ts) + elided == stream.len()
            &&& head_cap <= off
            &&& w == stream.subrange(off, stream.len() as int)
            &&& vstd::utf8::valid_utf8(stream.take(he as int))
            &&& vstd::utf8::valid_utf8(w.subrange(ts as int, te as int))
        }),
{
    let head = stream.take(head_cap as int);
    let w = last_n(stream.skip(head_cap as int), tail_cap);
    lemma_snap_end_le(head);
    lemma_snap_end_le(w);
    lemma_snap_start_le(w);
    lemma_snap_end_valid(head);
    lemma_tail_slice_valid(w);
    let he = snap_end(head);
    assert(head.take(he as int) == stream.take(he as int));
    if stream.skip(head_cap as int).len() <= tail_cap {
        assert(w == stream.subrange(head_cap as int, stream.len() as int));
    } else {
        assert(w =~= stream.subrange(stream.len() - tail_cap, stream.len() as int));
    }
}

/// A stream that fits its budgets comes back unchanged.
pub proof fn law_clip_keeps_small_streams(stream: Seq<u8>, head_cap: nat, tail_cap: nat)
    requires
        within_budget(stream, head_cap, tail_cap),
        vstd::utf8::valid_utf8(stream),
    ensures
        vstd::utf8::encode_utf8(clipped(stream, head_cap, tail_cap)) == stream,
{
    vstd::utf8::decode_utf8_encode_utf8(stream);
    if stream.len() == 0 {
        assert(vstd::utf8::valid_utf8(stream));
    }
}

proof fn lemma_dec_ascii(n: nat)
    ensures
        forall|i: int| 0 <= i < dec(n).len() ==> (dec(n)[i] as u32) < 0x80,
    decreases n,
{
    if n >= 10 {
        lemma_dec_ascii(n / 10);
        assert forall|i: int| 0 <= i < dec(n).len() implies (dec(n)[i] as u32) < 0x80 by {
            if i < dec(n / 10).len() {
                assert(dec(n)[i] == dec(n / 10)[i]);
            }
        }
    }
}

/// A clipped stream's text holds exactly the kept head bytes, the kept
/// tail bytes and the marker `... [N bytes elided] ...`, so its length is
/// bounded by the two budgets plus the marker.
pub proof fn law_clipped_output_is_bounded(stream: Seq<u8>, head_cap: nat, tail_cap: nat)
    requires
        !within_budget(stream, head_cap, tail_cap),
    ensures
        ({
            let (he, w, ts, te, elided) = clip_parts(stream, head_cap, tail_cap);
            let out = clipped(stream, head_cap, tail_cap);
            &&& utf8_len(out) == he + (te - ts) + 23 + dec(elided as nat).len()
            &&& utf8_len(out) <= head_cap + tail_cap + 23 + dec(elided as nat).len()
        }),
{
    law_clip_accounts_for_every_byte(stream, head_cap, tail_cap);
    let (he, w, ts, te, elided) = clip_parts(stream, head_cap, tail_cap);
    let head = stream.take(he as int);
    let tail = w.subrange(ts as int, te as int);
    let hd = vstd::utf8::decode_utf8(head);
    let td = vstd::utf8::decode_utf8(tail);
    vstd::utf8::decode_utf8_encode_utf8(head);
    vstd::utf8::decode_utf8_encode_utf8(tail);
    let open = "... ["@;
    let close = " bytes elided] ..."@;
    let d = dec(elided as nat);
    reveal_strlit("... [");
    reveal_strlit(" bytes elided] ...");
    lemma_dec_ascii(elided as nat);
    lemma_utf8_len_ascii(open);
    lemma_utf8_len_ascii(close);
    lemma_utf8_len_ascii(d);
    lemma_encode_concat(hd, open);
    lemma_encode_concat(hd + open, d);
    lemma_encode_concat(hd + open + d, close);
    lemma_encode_concat(hd + open + d + close, td);
}

/// The characters hold U+FFFD, the replacement character.
pub open spec fn has_replacement(s: Seq<char>) -> bool {
    exists|i: int| 0 <= i < s.len() && (s[i] as u32) == 0xFFFD
}

/// The bytes hold `EF BF BD`, the UTF-8 encoding of U+FFFD.
pub open spec fn has_replacement_bytes(b: Seq<u8>) -> bool {
    exists|p: int| replacement_at(b, p)
}

/// `EF BF BD` starts at `p` in `b`.
pub open spec fn replacement_at(b: Seq<u8>, p: int) -> bool {
    0 <= p && p + 3 <= b.len() && b[p] == 0xefu8 && b[p + 1] == 0xbfu8 && b[p + 2] == 0xbdu8
}

proof fn lemma_width3_fffd(b0: u8, b1: u8, b2: u8)
    requires
        0xe0u8 <= b0 <= 0xefu8,
        0x80u8 <= b1 <= 0xbfu8,
        0x80u8 <= b2 <= 0xbfu8,
    ensures
        ((((b0 & 0x0Fu8) as u32) << 12u32) | (((b1 & 0x3fu8) as u32) << 6u32) | ((b2
            & 0x3fu8) as u32) == 0xFFFDu32) <==> (b0 == 0xefu8 && b1 == 0xbfu8 && b2 == 0xbdu8),
{
    assert(((((b0 & 0x0Fu8) as u32) << 12u32) | (((b1 & 0x3fu8) as u32) << 6u32) | ((b2
        & 0x3fu8) as u32) == 0xFFFDu32) <==> (b0 == 0xefu8 && b1 == 0xbfu8 && b2 == 0xbdu8)
        && 0xe0u8 <= b0 <= 0xefu8 && 0x80u8 <= b1 <= 0xbfu8 && 0x80u8 <= b2 <= 0xbfu8)
        by (bit_vector)
        requires
            0xe0u8 <= b0 <= 0xefu8,
            0x80u8 <= b1 <= 0xbfu8,
            0x80u8 <= b2 <= 0xbfu8,
    ;
}

proof fn lemma_narrow_not_fffd(b0: u8, b1: u8)
    ensures
        ((b0 & 0x7Fu8) as u32) <= 0x7fu32,
        ((((b0 & 0x1Fu8) as u32) << 6u32) | ((b1 & 0x3fu8) as u32)) <= 0x7ffu32,
{
    assert(((b0 & 0x7Fu8) as u32) <= 0x7fu32) by (bit_vector);
    assert(((((b0 & 0x1Fu8) as u32) << 6u32) | ((b1 & 0x3fu8) as u32)) <= 0x7ffu32) by (bit_vector);
}

/// The first scalar of valid bytes is U+FFFD exactly when they open with
/// `EF BF BD`.
proof fn lemma_first_scalar_fffd(x: Seq<u8>)
    requires
        vstd::utf8::valid_utf8(x),
        x.len() > 0,
    ensures
        (vstd::utf8::decode_first_scalar(x) == 0xFFFDu32) <==> replacement_at(x, 0),
{
    lemma_narrow_not_fffd(x[0], if x.len() > 1 { x[1] } else { 0u8 });
    if vstd::utf8::is_leading_byte_width_3(x[0]) && !vstd::utf8::is_leading_byte_width_1(x[0])
        && !vstd::utf8::is_leading_byte_width_2(x[0]) {
        lemma_width3_fffd(x[0], x[1], x[2]);
    }
}

/// U+FFFD is the one scalar encoded as `EF BF BD`.
proof fn lemma_scalar_fffd(c: u32)
    requires
        vstd::utf8::is_scalar(c),
    ensures
        (vstd::utf8::encode_scalar(c) == seq![0xefu8, 0xbfu8, 0xbdu8]) <==> c == 0xFFFDu32,
{
    let e = vstd::utf8::encode_scalar(c);
    assert((0xE0u8 | ((0xFFFDu32 >> 12u32) & 0x0Fu32) as u8) == 0xefu8) by (bit_vector);
    assert((0x80u8 | ((0xFFFDu32 >> 6u32) & 0x3Fu32) as u8) == 0xbfu8) by (bit_vector);
    assert((0x80u8 | (0xFFFDu32 & 0x3Fu32) as u8) == 0xbdu8) by (bit_vector);
    if c == 0xFFFDu32 {
        assert(e =~= seq![0xefu8, 0xbfu8, 0xbdu8]);
    }
    if e == seq![0xefu8, 0xbfu8, 0xbdu8] {
        assert(e.len() == 3);
        assert(!vstd::utf8::has_width_1_encoding(c));
        assert(!vstd::utf8::has_width_2_encoding(c));
        assert(vstd::utf8::has_width_3_encoding(c));
        assert(e[0] == (0xE0u8 | ((c >> 12u32) & 0x0Fu32) as u8));
        assert(e[1] == (0x80u8 | ((c >> 6u32) & 0x3Fu32) as u8));
        assert(e[2] == (0x80u8 | (c & 0x3Fu32) as u8));
        assert(((0xE0u8 | ((c >> 12u32) & 0x0Fu32) as u8) == 0xefu8 && (0x80u8 | ((c >> 6u32)
            & 0x3Fu32) as u8) == 0xbfu8 && (0x80u8 | (c & 0x3Fu32) as u8) == 0xbdu8 && c
            <= 0xFFFFu32) ==> c == 0xFFFDu32) by (bit_vector);
    }
}

/// Valid bytes that decode to a U+FFFD hold its encoding.
proof fn lemma_replacement_bytes(x: Seq<u8>) -> (p: int)
    requires
        vstd::utf8::valid_utf8(x),
        has_replacement(vstd::utf8::decode_utf8(x)),
    ensures
        replacement_at(x, p),
    decreases x.len(),
{
    let d = vstd::utf8::decode_utf8(x);
    let i = choose|i: int| 0 <= i < d.len() && (d[i] as u32) == 0xFFFD;
    let u = vstd::utf8::decode_first_scalar(x);
    let k = vstd::utf8::length_of_first_scalar(x);
    let rest = vstd::utf8::pop_first_scalar(x);
    assert(d == seq![u as char] + vstd::utf8::decode_utf8(rest));
    lemma_first_scalar_fffd(x);
    if i == 0 {
        vstd::utf8::decode_utf8_first_scalar(x);
        vstd::utf8::char_is_scalar(u as char);
        lemma_scalar_fffd((u as char) as u32);
        assert(x.subrange(0, k) == seq![0xefu8, 0xbfu8, 0xbdu8]);
        assert(x[0] == x.subrange(0, k)[0]);
        assert(x[1] == x.subrange(0, k)[1]);
        assert(x[2] == x.subrange(0, k)[2]);
        0
    } else {
        assert(vstd::utf8::decode_utf8(rest)[i - 1] == d[i]);
        let q = lemma_replacement_bytes(rest);
        assert(rest[q] == x[q + k]);
        assert(rest[q + 1] == x[q + k + 1]);
        assert(rest[q + 2] == x[q + k + 2]);
        q + k
    }
}

/// Valid bytes that hold the encoding of U+FFFD decode to a U+FFFD.
proof fn lemma_replacement_chars(v: Seq<u8>, p: int)
    requires
        vstd::utf8::valid_utf8(v),
        replacement_at(v, p),
    ensures
        has_replacement(vstd::utf8::decode_utf8(v)),
    decreases v.len(),
{
    let d = vstd::utf8::decode_utf8(v);
    let u = vstd::utf8::decode_first_scalar(v);
    let k = vstd::utf8::length_of_first_scalar(v);
    let rest = vstd::utf8::pop_first_scalar(v);
    assert(d == seq![u as char] + vstd::utf8::decode_utf8(rest));
    lemma_first_scalar_fffd(v);
    if p == 0 {
        vstd::utf8::decode_utf8_first_scalar(v);
        vstd::utf8::char_is_scalar(u as char);
        lemma_scalar_fffd((u as char) as u32);
        assert(v.subrange(0, k) =~= seq![0xefu8, 0xbfu8, 0xbdu8]);
        assert(d[0] == u as char);
    } else if p < k {
        assert(0x80u8 <= v[p] <= 0xbfu8);
    } else {
        assert(rest[p - k] == v[p]);
        assert(rest[p - k + 1] == v[p + 1]);
        assert(rest[p - k + 2] == v[p + 2]);
        lemma_replacement_chars(rest, p - k);
        let j = choose|j: int|
            0 <= j < vstd::utf8::decode_utf8(rest).len() && (vstd::utf8::decode_utf8(rest)[j]
                as u32) == 0xFFFD;
        assert(d[j + 1] == vstd::utf8::decode_utf8(rest)[j]);
    }
}

/// Valid UTF-8 that holds no U+FFFD keeps none when clipped: the kept
/// head and tail are pieces of the stream, and the marker is ASCII. A
/// stream that fits its budgets comes back decoded whole; a longer one
/// is the kept head, the marker with the elided count, and the kept tail,
/// whose byte lengths add up to the stream's.
pub proof fn law_clipped_output_has_no_replacement(stream: Seq<u8>, head_cap: nat, tail_cap: nat)
    requires
        vstd::utf8::valid_utf8(stream),
        !has_replacement(vstd::utf8::decode_utf8(stream)),
    ensures
        !has_replacement(clipped(stream, head_cap, tail_cap)),
        within_budget(stream, head_cap, tail_cap) ==> clipped(stream, head_cap, tail_cap)
            == vstd::utf8::decode_utf8(stream),
        !within_budget(stream, head_cap, tail_cap) ==> ({
            let (he, w, ts, te, elided) = clip_parts(stream, head_cap, tail_cap);
            &&& clipped(stream, head_cap, tail_cap) == vstd::utf8::decode_utf8(stream.take(he as int))
                + "... ["@ + dec(elided as nat) + " bytes elided] ..."@ + vstd::utf8::decode_utf8(
                w.subrange(ts as int, te as int),
            )
            &&& he + (te - ts) + elided == stream.len()
        }),
{
    if stream.len() == 0 {
        assert(clipped(stream, head_cap, tail_cap) =~= Seq::<char>::empty());
        return;
    }
    if within_budget(stream, head_cap, tail_cap) {
        return;
    }
    law_clip_accounts_for_every_byte(stream, head_cap, tail_cap);
    let (he, w, ts, te, elided) = clip_parts(stream, head_cap, tail_cap);
    let off = stream.len() - w.len();
    let h = stream.take(he as int);
    let t = w.subrange(ts as int, te as int);
    let hd = vstd::utf8::decode_utf8(h);
    let td = vstd::utf8::decode_utf8(t);
    let open = "... ["@;
    let close = " bytes elided] ..."@;
    let d = dec(elided as nat);
    reveal_strlit("... [");
    reveal_strlit(" bytes elided] ...");
    lemma_dec_ascii(elided as nat);
    let out = clipped(stream, head_cap, tail_cap);
    assert(out == hd + open + d + close + td);
    if has_replacement(out) {
        let i = choose|i: int| 0 <= i < out.len() && (out[i] as u32) == 0xFFFD;
        if i < hd.len() {
            assert(out[i] == hd[i]);
            let p = lemma_replacement_bytes(h);
            assert(replacement_at(stream, p)) by {
                assert(stream[p] == h[p]);
                assert(stream[p + 1] == h[p + 1]);
                assert(stream[p + 2] == h[p + 2]);
            }
            lemma_replacement_chars(stream, p);
        } else if i < hd.len() + open.len() + d.len() + close.len() {
            let j = i - hd.len();
            if j < open.len() {
                assert(out[i] == open[j]);
            } else if j < open.len() + d.len() {
                assert(out[i] == d[j - open.len()]);
            } else {
                assert(out[i] == close[j - open.len() - d.len()]);
            }
        } else {
            let j = i - (hd.len() + open.len() + d.len() + close.len());
            assert(out[i] == td[j]);
            assert(has_replacement(td));
            let p = lemma_replacement_bytes(t);
            let q = off + ts + p;
            assert(replacement_at(stream, q)) by {
                assert(t[p] == stream[q]);
                assert(t[p + 1] == stream[q + 1]);
                assert(t[p + 2] == stream[q + 2]);
            }
            lemma_replacement_chars(stream, q);
        }
    }
}

/// Head+tail clip of a string to `cap` bytes (a quarter for the head).
pub fn clip_utf8(s: &str, cap: usize) -> (r: String)
    ensures
        r@ == clipped(vstd::utf8::encode_utf8(s@), (cap / 4) as nat, (cap - cap / 4) as nat),
{
    let (h, t) = head_tail_caps(cap);
    let mut c = StreamClipper::new(h, t);
    let bytes = s.as_bytes();
    let n: usize = bytes.len();
    assert(c.stream().len() + bytes@.len() == n);
    c.push(bytes);
    assert(c.stream() == vstd::utf8::encode_utf8(s@));
    c.finish()
}

} // verus!
