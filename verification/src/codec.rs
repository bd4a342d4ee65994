//! Frame codec: byte-level helpers shared by the whole driver, framing of
//! outbound commands, and decoding of inbound response lines.
//!
//! The device terminates each reply with a line feed; a carriage return is
//! never a terminator on its own.  A decoded line is trimmed of surrounding
//! blank bytes before it is handed on.

use vstd::prelude::*;
use vstd::slice::{slice_index_get, slice_subrange, slice_to_vec};
use vstd::string::*;

verus! {

/// Carriage return, the first byte of the outbound terminator.
pub const CR: u8 = 13;

/// Line feed: second byte of the outbound terminator, and the only byte that
/// ends an inbound line.
pub const LF: u8 = 10;

/// Blank bytes stripped from both ends of a decoded line: space, tab,
/// vertical tab, form feed, carriage return and line feed.
pub open spec fn is_blank(b: u8) -> bool {
    b == 32 || b == 9 || b == 10 || b == 11 || b == 12 || b == 13
}

/// Index of the first occurrence of `t` in `s`, or `-1` when absent.
pub open spec fn first_at(s: Seq<u8>, t: u8) -> int
    decreases s.len(),
{
    if s.len() == 0 {
        -1
    } else if s[0] == t {
        0
    } else {
        let r = first_at(s.drop_first(), t);
        if r < 0 {
            -1
        } else {
            r + 1
        }
    }
}

pub proof fn lemma_first_at_found(s: Seq<u8>, t: u8, i: int)
    requires
        0 <= i < s.len(),
        s[i] == t,
        forall|j: int| 0 <= j < i ==> s[j] != t,
    ensures
        first_at(s, t) == i,
    decreases i,
{
    if i > 0 {
        lemma_first_at_found(s.drop_first(), t, i - 1);
    }
}

pub proof fn lemma_first_at_in(s: Seq<u8>, t: u8)
    ensures
        first_at(s, t) >= 0 ==> 0 <= first_at(s, t) < s.len() && s[first_at(s, t)] == t,
        first_at(s, t) >= 0 ==> forall|j: int| 0 <= j < first_at(s, t) ==> s[j] != t,
        first_at(s, t) < 0 ==> forall|j: int| 0 <= j < s.len() ==> s[j] != t,
    decreases s.len(),
{
    if s.len() > 0 && s[0] != t {
        lemma_first_at_in(s.drop_first(), t);
        let r = first_at(s, t);
        if r >= 0 {
            assert forall|j: int| 0 <= j < r implies s[j] != t by {
                if j > 0 {
                    assert(s.drop_first()[j - 1] == s[j]);
                }
            }
        } else {
            assert forall|j: int| 0 <= j < s.len() implies s[j] != t by {
                if j > 0 {
                    assert(s.drop_first()[j - 1] == s[j]);
                }
            }
        }
    }
}

pub proof fn lemma_first_at_absent(s: Seq<u8>, t: u8)
    requires
        forall|j: int| 0 <= j < s.len() ==> s[j] != t,
    ensures
        first_at(s, t) == -1,
    decreases s.len(),
{
    if s.len() > 0 {
        lemma_first_at_absent(s.drop_first(), t);
    }
}

/// Index of the first occurrence of `t` in `v`, or `v.len()` when absent.
pub fn find_byte(v: &[u8], t: u8) -> (r: usize)
    ensures
        r <= v@.len(),
        r < v@.len() ==> first_at(v@, t) == r,
        r == v@.len() ==> first_at(v@, t) == -1,
{
    let n = v.len();
    let mut i: usize = 0;
    while i < n && *slice_index_get(v, i) != t
        invariant
            i <= n,
            n == v@.len(),
            forall|j: int| 0 <= j < i ==> v@[j] != t,
        decreases n - i,
    {
        i = i + 1;
    }
    proof {
        if i < v@.len() {
            lemma_first_at_found(v@, t, i as int);
        } else {
            lemma_first_at_absent(v@, t);
        }
    }
    i
}

/// `s` with its leading blank bytes removed.
pub open spec fn trim_front(s: Seq<u8>) -> Seq<u8>
    decreases s.len(),
{
    if s.len() > 0 && is_blank(s[0]) {
        trim_front(s.drop_first())
    } else {
        s
    }
}

/// `s` with its trailing blank bytes removed.
pub open spec fn trim_back(s: Seq<u8>) -> Seq<u8>
    decreases s.len(),
{
    if s.len() > 0 && is_blank(s.last()) {
        trim_back(s.drop_last())
    } else {
        s
    }
}

/// `s` with blank bytes removed from both ends.
pub open spec fn trim_spec(s: Seq<u8>) -> Seq<u8> {
    trim_front(trim_back(s))
}

/// Trailing blanks do not change a trimmed line.
pub proof fn lemma_trim_push_blank(s: Seq<u8>, b: u8)
    requires
        is_blank(b),
    ensures
        trim_spec(s.push(b)) == trim_spec(s),
{
    assert(s.push(b).drop_last() =~= s);
}

pub proof fn lemma_trim_front_skip(s: Seq<u8>, k: int)
    requires
        0 <= k <= s.len(),
        forall|j: int| 0 <= j < k ==> is_blank(s[j]),
        k == s.len() || !is_blank(s[k]),
    ensures
        trim_front(s) =~= s.skip(k),
    decreases k,
{
    if k > 0 {
        lemma_trim_front_skip(s.drop_first(), k - 1);
    }
}

pub proof fn lemma_trim_back_take(s: Seq<u8>, k: int)
    requires
        0 <= k <= s.len(),
        forall|j: int| k <= j < s.len() ==> is_blank(s[j]),
        k == 0 || !is_blank(s[k - 1]),
    ensures
        trim_back(s) =~= s.take(k),
    decreases s.len() - k,
{
    if k < s.len() {
        lemma_trim_back_take(s.drop_last(), k);
    }
}

/// `v` with blank bytes removed from both ends.
pub fn trim(v: &[u8]) -> (r: Vec<u8>)
    ensures
        r@ == trim_spec(v@),
{
    let n = v.len();
    let mut start: usize = 0;
    while start < n && is_blank_byte(*slice_index_get(v, start))
        invariant
            start <= n,
            n == v@.len(),
            forall|j: int| 0 <= j < start ==> is_blank(v@[j]),
        decreases n - start,
    {
        start = start + 1;
    }
    let mut end: usize = n;
    while end > start && is_blank_byte(*slice_index_get(v, end - 1))
        invariant
            start <= end <= n,
            n == v@.len(),
            forall|j: int| 0 <= j < start ==> is_blank(v@[j]),
            forall|j: int| end <= j < n ==> is_blank(v@[j]),
        decreases end,
    {
        end = end - 1;
    }
    proof {
        if start == n {
            lemma_trim_back_take(v@, 0);
        } else {
            lemma_trim_back_take(v@, end as int);
            lemma_trim_front_skip(v@.take(end as int), start as int);
        }
        assert(trim_spec(v@) =~= v@.subrange(start as int, end as int));
    }
    slice_to_vec(slice_subrange(v, start, end))
}

/// Executable form of [`is_blank`].
pub fn is_blank_byte(b: u8) -> (r: bool)
    ensures
        r == is_blank(b),
{
    b == 32 || b == 9 || b == 10 || b == 11 || b == 12 || b == 13
}

/// `s` restricted to its ASCII bytes.  Stray framing glyphs observed from the
/// device are multi-byte sequences whose bytes all lie above 127, so dropping
/// the non-ASCII bytes is the response-sanitization step applied before a
/// reply is parsed.
pub open spec fn keep_ascii(s: Seq<u8>) -> Seq<u8>
    decreases s.len(),
{
    if s.len() == 0 {
        Seq::empty()
    } else if s.last() < 128 {
        keep_ascii(s.drop_last()).push(s.last())
    } else {
        keep_ascii(s.drop_last())
    }
}

/// `v` restricted to its ASCII bytes.
pub fn sanitize(v: &[u8]) -> (r: Vec<u8>)
    ensures
        r@ == keep_ascii(v@),
{
    let n = v.len();
    let mut out: Vec<u8> = Vec::new();
    let mut i: usize = 0;
    while i < n
        invariant
            i <= n,
            n == v@.len(),
            out@ == keep_ascii(v@.take(i as int)),
        decreases n - i,
    {
        let b = *slice_index_get(v, i);
        proof {
            assert(v@.take(i + 1).drop_last() =~= v@.take(i as int));
            assert(v@.take(i + 1).last() == v@[i as int]);
        }
        if b < 128 {
            out.push(b);
        }
        i = i + 1;
    }
    proof {
        assert(v@.take(n as int) =~= v@);
    }
    out
}

/// Frame an outbound command: its UTF-8 bytes followed by the two-byte
/// carriage-return/line-feed terminator.
pub fn encode(cmd: &str) -> (frame: Vec<u8>)
    ensures
        frame@ == cmd.spec_bytes() + seq![CR, LF],
{
    let mut frame = cmd.as_bytes_vec();
    frame.push(CR);
    frame.push(LF);
    proof {
        assert(frame@ =~= cmd.spec_bytes() + seq![CR, LF]);
    }
    frame
}

/// The line that decoding takes from the front of `input`: the trimmed bytes
/// before the first line feed; when no line feed is present, the whole input
/// trimmed (a partial reply observed before the timeout), or nothing at all
/// when the input is empty.
pub open spec fn decoded_line(input: Seq<u8>) -> Option<Seq<u8>> {
    let i = first_at(input, LF);
    if i >= 0 {
        Some(trim_spec(input.take(i)))
    } else if input.len() == 0 {
        None
    } else {
        Some(trim_spec(input))
    }
}

/// How many bytes of `input` decoding one line consumes: everything up to and
/// including the first line feed, or the whole input when none is present.
pub open spec fn line_consumed(input: Seq<u8>) -> int {
    let i = first_at(input, LF);
    if i >= 0 {
        i + 1
    } else {
        input.len() as int
    }
}

/// Decode one response line from the bytes the transport yielded.
///
/// `input` stands for every byte the device makes available before the read
/// deadline; the result pairs the decoded line (if any) with the number of
/// bytes consumed from the front of `input`.
pub fn decode_line(input: &[u8]) -> (r: (Option<Vec<u8>>, usize))
    ensures
        r.1 == line_consumed(input@),
        r.0 is Some <==> decoded_line(input@) is Some,
        r.0 is Some ==> r.0.unwrap()@ == decoded_line(input@).unwrap(),
{
    let i = find_byte(input, LF);
    if i < input.len() {
        let line = trim(slice_subrange(input, 0, i));
        proof {
            assert(input@.subrange(0, i as int) =~= input@.take(i as int));
        }
        (Some(line), i + 1)
    } else if input.len() == 0 {
        (None, 0)
    } else {
        (Some(trim(input)), input.len())
    }
}

/// Decoding a terminator-ended payload recovers the payload, trimmed, and
/// consumes it whole.
pub proof fn lemma_decode_terminated(payload: Seq<u8>)
    requires
        !payload.contains(LF),
    ensures
        decoded_line(payload.push(LF)) == Some(trim_spec(payload)),
        line_consumed(payload.push(LF)) == payload.len() + 1,
{
    let s = payload.push(LF);
    assert forall|j: int| 0 <= j < payload.len() implies s[j] != LF by {
        assert(payload[j] == s[j]);
    }
    lemma_first_at_found(s, LF, payload.len() as int);
    assert(s.take(payload.len() as int) =~= payload);
}

/// The two decoding paths agree: feeding a stream's bytes one at a time
/// into a [`LineAccumulator`] — stopping at the first terminator, or at the
/// stream's end on a timeout — and closing it yields exactly the line that
/// [`decode_line`] takes from the whole stream.  The accumulated buffer is
/// the consumed prefix of the stream; this lemma says what closing it
/// returns.
pub proof fn lemma_accumulator_matches_decode(s: Seq<u8>)
    ensures
        first_at(s, LF) >= 0 ==> s.take(line_consumed(s)) == s.take(first_at(s, LF)).push(LF),
        first_at(s, LF) >= 0 ==> Some(trim_spec(s.take(line_consumed(s)))) == decoded_line(s),
        first_at(s, LF) < 0 && s.len() > 0 ==> Some(trim_spec(s.take(line_consumed(s))))
            == decoded_line(s),
        first_at(s, LF) < 0 && s.len() == 0 ==> decoded_line(s) is None,
{
    let i = first_at(s, LF);
    lemma_first_at_in(s, LF);
    if i >= 0 {
        assert(s.take(i + 1) =~= s.take(i).push(LF));
        lemma_trim_push_blank(s.take(i), LF);
    } else if s.len() > 0 {
        assert(s.take(s.len() as int) =~= s);
    }
}

/// Round trip of the codec: in the byte stream made of an encoded command
/// echoed back followed by a terminated reply, the first decoded line is the
/// command text and the line decoded from the remainder is the trimmed
/// reply.
pub proof fn lemma_encode_decode_round_trip(cmd: Seq<u8>, reply: Seq<u8>)
    requires
        !cmd.contains(LF),
        !reply.contains(LF),
    ensures
        decoded_line((cmd + seq![CR, LF]) + reply.push(LF)) == Some(trim_spec(cmd)),
        line_consumed((cmd + seq![CR, LF]) + reply.push(LF)) == cmd.len() as int + 2,
        ((cmd + seq![CR, LF]) + reply.push(LF)).skip(cmd.len() as int + 2) =~= reply.push(LF),
        decoded_line(reply.push(LF)) == Some(trim_spec(reply)),
{
    let s = (cmd + seq![CR, LF]) + reply.push(LF);
    assert forall|j: int| 0 <= j < cmd.len() + 1 implies s[j] != LF by {
        if j < cmd.len() as int {
            assert(s[j] == cmd[j]);
        } else {
            assert(s[j] == CR);
        }
    }
    assert(s[cmd.len() as int + 1] == LF);
    lemma_first_at_found(s, LF, cmd.len() as int + 1);
    assert(s.take(cmd.len() as int + 1) =~= cmd.push(CR));
    lemma_trim_push_blank(cmd, CR);
    lemma_decode_terminated(reply);
}

/// Byte-at-a-time accumulator behind [`decode_line`]: the caller feeds it each
/// byte read from the transport and closes it on the terminator, on the read
/// deadline, or on a read error.
pub struct LineAccumulator {
    buf: Vec<u8>,
}

impl LineAccumulator {
    pub closed spec fn view(&self) -> Seq<u8> {
        self.buf@
    }

    pub fn new() -> (r: LineAccumulator)
        ensures
            r@ == Seq::<u8>::empty(),
    {
        LineAccumulator { buf: Vec::new() }
    }

    pub fn is_empty(&self) -> (r: bool)
        ensures
            r == (self@.len() == 0),
    {
        self.buf.len() == 0
    }

    /// Record one received byte; the result says whether the byte ends the
    /// line.
    pub fn push(&mut self, b: u8) -> (done: bool)
        ensures
            final(self)@ == old(self)@.push(b),
            done == (b == LF),
    {
        self.buf.push(b);
        b == LF
    }

    /// Close the accumulator: nothing when no byte was received, otherwise
    /// the trimmed accumulated bytes.
    pub fn finish(self) -> (r: Option<Vec<u8>>)
        ensures
            r is Some <==> self@.len() > 0,
            r is Some ==> r.unwrap()@ == trim_spec(self@),
    {
        if self.buf.len() == 0 {
            None
        } else {
            Some(trim(self.buf.as_slice()))
        }
    }
}

} // verus!
