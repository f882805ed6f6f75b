//! Streaming RESP2 codec: arrays of bulk strings in, RESP replies out.
//!
//! The decoder is a three-state machine (`ArrayLen -> BulkLen -> BulkData`)
//! whose state and partially collected arguments persist across calls, so a
//! frame split at any byte boundary parses exactly as one delivered whole.
//! The spec-level [`decode`] function is the single source of truth for what
//! a buffer means; the executable parser is proved to follow it step by step,
//! and [`lemma_decode_split`] shows that feeding the bytes in pieces cannot
//! change the command that comes out.

use vstd::prelude::*;

use crate::iobuf::{buf_advance, buf_byte_at, buf_bytes, buf_len, buf_take};

verus! {

/// RESP parser errors surfaced to the server for client responses.
#[derive(Debug, Clone, Copy, PartialEq, Eq, Structural)]
pub enum RespError {
    /// The input is not valid RESP2 for the supported subset.
    Protocol,
}

/// The decoder's position inside one logical command.
#[derive(Debug, Clone, Copy, PartialEq, Eq, Structural)]
pub enum ParseState {
    /// Waiting for an array header line (`*<count>`).
    ArrayLen,
    /// Waiting for a bulk-string header line (`$<len>`).
    BulkLen,
    /// Waiting for the bulk payload plus its trailing CRLF.
    BulkData,
}

/// Mathematical state of the decoder between calls.
pub struct ParserModel {
    /// Position inside the current frame.
    pub state: ParseState,
    /// Arguments collected so far for the current frame.
    pub args: Seq<Seq<u8>>,
    /// Bulk strings still owed to the current frame.
    pub remaining: nat,
    /// Payload length of the bulk string being awaited.
    pub bulk_len: nat,
}

/// What one decoding attempt yields.
pub enum DecodeOutcome {
    /// The buffer ends before the frame does; nothing is lost.
    NeedMore,
    /// A whole frame decoded to this command vector.
    Command(Seq<Seq<u8>>),
    /// The bytes are not valid RESP2; the connection is desynchronized.
    Fail,
}

/// The outcome of one decoding attempt together with the decoder state and
/// the unconsumed bytes it leaves behind.
pub struct DecodeStep {
    /// What the attempt produced.
    pub outcome: DecodeOutcome,
    /// Decoder state after the attempt.
    pub model: ParserModel,
    /// Bytes left in the buffer after the attempt.
    pub rest: Seq<u8>,
}

/// The decoder state a fresh parser starts in.
pub open spec fn init_model() -> ParserModel {
    ParserModel { state: ParseState::ArrayLen, args: Seq::empty(), remaining: 0, bulk_len: 0 }
}

/// States that owe at least one more bulk string really owe one.
pub open spec fn wf_model(m: ParserModel) -> bool {
    (m.state is BulkLen || m.state is BulkData) ==> m.remaining >= 1
}

/// Position of the first line terminator at or after `i`: the least index
/// `j >= i` with a `\n` at `j` preceded by a `\r` at `j - 1`.
pub open spec fn find_line_end_from(s: Seq<u8>, i: int) -> Option<int>
    recommends
        1 <= i,
    decreases s.len() - i,
{
    if i >= s.len() {
        None
    } else if s[i] == 10 && s[i - 1] == 13 {
        Some(i)
    } else {
        find_line_end_from(s, i + 1)
    }
}

/// Position of the first line terminator of the buffer.  The scan starts at
/// index 1, since the `\r` must fit before the `\n`.
pub open spec fn find_line_end(s: Seq<u8>) -> Option<int> {
    find_line_end_from(s, 1)
}

/// A found terminator lies inside the buffer and really is a CRLF.
pub proof fn lemma_find_line_end_from_range(s: Seq<u8>, i: int)
    requires
        1 <= i,
    ensures
        find_line_end_from(s, i) matches Some(j) ==> i <= j < s.len() && s[j] == 10 && s[j - 1]
            == 13,
    decreases s.len() - i,
{
    if i < s.len() && !(s[i] == 10 && s[i - 1] == 13) {
        lemma_find_line_end_from_range(s, i + 1);
    }
}

/// Appending bytes does not move an already-found line terminator, and the
/// line before it stays the same.
pub proof fn lemma_find_line_end_from_extend(s: Seq<u8>, ext: Seq<u8>, i: int)
    requires
        1 <= i,
        find_line_end_from(s, i) is Some,
    ensures
        find_line_end_from(s + ext, i) == find_line_end_from(s, i),
    decreases s.len() - i,
{
    lemma_find_line_end_from_range(s, i);
    assert((s + ext).len() == s.len() + ext.len());
    assert((s + ext)[i] == s[i] && (s + ext)[i - 1] == s[i - 1]);
    if !(s[i] == 10 && s[i - 1] == 13) {
        lemma_find_line_end_from_extend(s, ext, i + 1);
    }
}

/// All bytes are ASCII decimal digits.
pub open spec fn all_digits(s: Seq<u8>) -> bool {
    forall|i: int| 0 <= i < s.len() ==> 48 <= #[trigger] s[i] <= 57
}

/// Multiplication by ten, saturating at the machine word.
pub open spec fn sat_mul10(v: nat) -> nat {
    if v * 10 > usize::MAX {
        usize::MAX as nat
    } else {
        v * 10
    }
}

/// Addition, saturating at the machine word.
pub open spec fn sat_add(v: nat, d: nat) -> nat {
    if v + d > usize::MAX {
        usize::MAX as nat
    } else {
        v + d
    }
}

/// Decimal value of a digit string, accumulated left to right with
/// saturating arithmetic, starting from `acc`.
pub open spec fn dec_value_from(s: Seq<u8>, acc: nat) -> nat
    decreases s.len(),
{
    if s.len() == 0 {
        acc
    } else {
        dec_value_from(s.skip(1), sat_add(sat_mul10(acc), (s[0] - 48) as nat))
    }
}

/// Decimal value of a digit string, saturating at the machine word.
pub open spec fn dec_value(s: Seq<u8>) -> nat {
    dec_value_from(s, 0)
}

/// A header line carries its tag byte and then at least one decimal digit.
pub open spec fn line_ok(line: Seq<u8>, tag: u8) -> bool {
    line.len() >= 2 && line[0] == tag && all_digits(line.skip(1))
}

/// Parses a non-negative decimal number, saturating instead of overflowing.
///
/// Accepts exactly the non-empty all-digit strings; anything else is a
/// protocol error.
pub fn parse_usize(data: &[u8]) -> (r: Result<usize, RespError>)
    ensures
        data@.len() > 0 && all_digits(data@) ==> (r matches Ok(v) && v == dec_value(data@)),
        !(data@.len() > 0 && all_digits(data@)) ==> r == Err::<usize, RespError>(
            RespError::Protocol,
        ),
{
    if data.len() == 0 {
        return Err(RespError::Protocol);
    }
    let n = data.len();
    let mut value: usize = 0;
    let mut i: usize = 0;
    proof {
        assert(data@.skip(0) =~= data@);
    }
    while i < n
        invariant
            n == data@.len(),
            i <= n,
            forall|j: int| 0 <= j < i ==> 48 <= #[trigger] data@[j] <= 57,
            dec_value_from(data@, 0) == dec_value_from(data@.skip(i as int), value as nat),
        decreases n - i,
    {
        let b = data[i];
        if b < 48 || b > 57 {
            return Err(RespError::Protocol);
        }
        let ghost pre = value as nat;
        let wide: u128 = (value as u128) * 10 + ((b - 48) as u128);
        if wide > (usize::MAX as u128) {
            value = usize::MAX;
        } else {
            value = wide as usize;
        }
        proof {
            assert(value as nat == sat_add(sat_mul10(pre), (data@[i as int] - 48) as nat));
            assert(data@.skip(i as int)[0] == data@[i as int]);
            assert(data@.skip(i as int).skip(1) =~= data@.skip(i as int + 1));
        }
        i += 1;
    }
    proof {
        assert(data@.skip(n as int).len() == 0);
    }
    Ok(value)
}

/// Removes and returns the first CRLF-terminated line of the buffer, or
/// leaves the buffer untouched when no terminator has arrived yet.
fn read_line(buf: &mut bytes::BytesMut) -> (r: Option<Vec<u8>>)
    ensures
        ({
            let s = buf_bytes(*old(buf));
            match r {
                None => buf_bytes(*final(buf)) == s && find_line_end(s) is None,
                Some(line) => {
                    &&& find_line_end(s) is Some
                    &&& line@ == s.take(find_line_end(s)->Some_0 - 1)
                    &&& buf_bytes(*final(buf)) == s.skip(find_line_end(s)->Some_0 + 1)
                },
            }
        }),
{
    let ghost s = buf_bytes(*old(buf));
    let n = buf_len(buf);
    let mut idx: usize = 1;
    while idx < n
        invariant
            s == buf_bytes(*old(buf)),
            buf_bytes(*buf) == s,
            n == s.len(),
            1 <= idx,
            find_line_end(s) == find_line_end_from(s, idx as int),
        decreases n - idx,
    {
        if buf_byte_at(buf, idx) == 10 && buf_byte_at(buf, idx - 1) == 13 {
            proof {
                assert(find_line_end_from(s, idx as int) == Some(idx as int));
            }
            let line = buf_take(buf, idx - 1);
            buf_advance(buf, 2);
            proof {
                assert(s.skip(idx - 1).skip(2) =~= s.skip(idx as int + 1));
            }
            return Some(line);
        }
        proof {
            assert(find_line_end_from(s, idx as int) == find_line_end_from(s, idx as int + 1));
        }
        idx += 1;
    }
    proof {
        assert(find_line_end_from(s, idx as int) is None);
    }
    None
}

/// One decoding attempt: consumes whole lines and bulk payloads from `input`
/// until a command completes, the bytes run out, or the bytes are invalid.
///
/// `NeedMore` leaves the unread bytes exactly as they were; a command hands
/// back its argument vector and resets the state for the next frame.
pub open spec fn decode(m: ParserModel, input: Seq<u8>) -> DecodeStep
    decreases input.len(),
    via decode_decreases
{
    match m.state {
        ParseState::ArrayLen => {
            if find_line_end(input) is None {
                DecodeStep { outcome: DecodeOutcome::NeedMore, model: m, rest: input }
            } else {
                let j = find_line_end(input)->Some_0;
                let line = input.take(j - 1);
                let rest = input.skip(j + 1);
                if !line_ok(line, 42) {
                    DecodeStep { outcome: DecodeOutcome::Fail, model: m, rest }
                } else {
                    let count = dec_value(line.skip(1));
                    if count == 0 {
                        DecodeStep {
                            outcome: DecodeOutcome::Command(Seq::empty()),
                            model: ParserModel {
                                state: ParseState::ArrayLen,
                                args: Seq::empty(),
                                remaining: 0,
                                bulk_len: m.bulk_len,
                            },
                            rest,
                        }
                    } else {
                        decode(
                            ParserModel {
                                state: ParseState::BulkLen,
                                args: Seq::empty(),
                                remaining: count,
                                bulk_len: m.bulk_len,
                            },
                            rest,
                        )
                    }
                }
            }
        },
        ParseState::BulkLen => {
            if find_line_end(input) is None {
                DecodeStep { outcome: DecodeOutcome::NeedMore, model: m, rest: input }
            } else {
                let j = find_line_end(input)->Some_0;
                let line = input.take(j - 1);
                let rest = input.skip(j + 1);
                if !line_ok(line, 36) {
                    DecodeStep { outcome: DecodeOutcome::Fail, model: m, rest }
                } else {
                    decode(
                        ParserModel {
                            state: ParseState::BulkData,
                            args: m.args,
                            remaining: m.remaining,
                            bulk_len: dec_value(line.skip(1)),
                        },
                        rest,
                    )
                }
            }
        },
        ParseState::BulkData => {
            if input.len() < m.bulk_len + 2 {
                DecodeStep { outcome: DecodeOutcome::NeedMore, model: m, rest: input }
            } else {
                let data = input.take(m.bulk_len as int);
                let rest = input.skip(m.bulk_len + 2int);
                if input[m.bulk_len as int] != 13 || input[m.bulk_len as int + 1] != 10 {
                    DecodeStep { outcome: DecodeOutcome::Fail, model: m, rest }
                } else {
                    let args2 = m.args.push(data);
                    if m.remaining <= 1 {
                        DecodeStep {
                            outcome: DecodeOutcome::Command(args2),
                            model: ParserModel {
                                state: ParseState::ArrayLen,
                                args: Seq::empty(),
                                remaining: 0,
                                bulk_len: m.bulk_len,
                            },
                            rest,
                        }
                    } else {
                        decode(
                            ParserModel {
                                state: ParseState::BulkLen,
                                args: args2,
                                remaining: (m.remaining - 1) as nat,
                                bulk_len: m.bulk_len,
                            },
                            rest,
                        )
                    }
                }
            }
        },
    }
}

#[via_fn]
proof fn decode_decreases(m: ParserModel, input: Seq<u8>) {
    match find_line_end(input) {
        Some(j) => {
            lemma_find_line_end_from_range(input, 1);
        },
        None => {},
    }
}


/// RESP2 parser for arrays of bulk strings.
///
/// State and partially collected arguments persist across calls, so a frame
/// split at any byte boundary parses exactly as one delivered whole.
#[derive(Debug)]
pub struct RespParser {
    state: ParseState,
    args: Vec<Vec<u8>>,
    remaining: usize,
    bulk_len: usize,
}

impl View for RespParser {
    type V = ParserModel;

    closed spec fn view(&self) -> ParserModel {
        ParserModel {
            state: self.state,
            args: self.args.deep_view(),
            remaining: self.remaining as nat,
            bulk_len: self.bulk_len as nat,
        }
    }
}

impl RespParser {
    /// The parser's counters match what its state still owes.
    pub closed spec fn wf(&self) -> bool {
        wf_model(self@)
    }

    /// Creates a new parser in the initial state.
    pub fn new() -> (r: RespParser)
        ensures
            r@ == init_model(),
            r.wf(),
    {
        let r = RespParser {
            state: ParseState::ArrayLen,
            args: Vec::new(),
            remaining: 0,
            bulk_len: 0,
        };
        proof {
            assert(r@.args =~= init_model().args);
        }
        r
    }

    /// Attempts to parse a single command from the buffer.
    ///
    /// Returns `Ok(None)` if more data is required; the buffer keeps every
    /// byte the decoder has not consumed.  The result, the new parser state
    /// and the bytes left behind are exactly what [`decode`] says for the
    /// state and buffer the call started from.
    pub fn parse(&mut self, buf: &mut bytes::BytesMut) -> (r: Result<
        Option<Vec<Vec<u8>>>,
        RespError,
    >)
        requires
            old(self).wf(),
        ensures
            final(self).wf(),
            ({
                let step = decode(old(self)@, buf_bytes(*old(buf)));
                match r {
                    Ok(opt) => match opt {
                        None => step.outcome is NeedMore && final(self)@ == step.model
                            && buf_bytes(*final(buf)) == step.rest,
                        Some(cmd) => step.outcome == DecodeOutcome::Command(cmd.deep_view())
                            && final(self)@ == step.model && buf_bytes(*final(buf)) == step.rest,
                    },
                    Err(e) => step.outcome is Fail && e == RespError::Protocol,
                }
            }),
    {
        loop
            invariant
                self.wf(),
                old(self).wf(),
                decode(self@, buf_bytes(*buf)) == decode(old(self)@, buf_bytes(*old(buf))),
            decreases buf_bytes(*buf).len(),
        {
            let ghost m0 = self@;
            let ghost pre = buf_bytes(*buf);
            match self.state {
                ParseState::ArrayLen => {
                    let line_opt = read_line(buf);
                    let line = match line_opt {
                        Some(line) => line,
                        None => {
                            return Ok(None);
                        },
                    };
                    proof {
                        lemma_find_line_end_from_range(pre, 1);
                    }
                    if line.len() < 2 || line[0] != 42 {
                        return Err(RespError::Protocol);
                    }
                    let digits = vstd::slice::slice_subrange(line.as_slice(), 1, line.len());
                    proof {
                        assert(digits@ =~= line@.skip(1));
                    }
                    let count = match parse_usize(digits) {
                        Ok(c) => c,
                        Err(_) => {
                            proof {
                                assert(!line_ok(line@, 42));
                            }
                            return Err(RespError::Protocol);
                        },
                    };
                    self.args.clear();
                    self.remaining = count;
                    if count == 0 {
                        self.state = ParseState::ArrayLen;
                        let out: Vec<Vec<u8>> = Vec::new();
                        proof {
                            assert(out.deep_view() =~~= Seq::<Seq<u8>>::empty());
                            assert(self@.args =~~= Seq::<Seq<u8>>::empty());
                        }
                        return Ok(Some(out));
                    }
                    self.state = ParseState::BulkLen;
                    proof {
                        assert(self@.args =~~= Seq::<Seq<u8>>::empty());
                        assert(self@ == (ParserModel {
                            state: ParseState::BulkLen,
                            args: Seq::empty(),
                            remaining: count as nat,
                            bulk_len: m0.bulk_len,
                        }));
                    }
                },
                ParseState::BulkLen => {
                    let line_opt = read_line(buf);
                    let line = match line_opt {
                        Some(line) => line,
                        None => {
                            return Ok(None);
                        },
                    };
                    proof {
                        lemma_find_line_end_from_range(pre, 1);
                    }
                    if line.len() < 2 || line[0] != 36 {
                        return Err(RespError::Protocol);
                    }
                    let digits = vstd::slice::slice_subrange(line.as_slice(), 1, line.len());
                    proof {
                        assert(digits@ =~= line@.skip(1));
                    }
                    let len = match parse_usize(digits) {
                        Ok(c) => c,
                        Err(_) => {
                            proof {
                                assert(!line_ok(line@, 36));
                            }
                            return Err(RespError::Protocol);
                        },
                    };
                    self.bulk_len = len;
                    self.state = ParseState::BulkData;
                },
                ParseState::BulkData => {
                    let blen = self.bulk_len;
                    let total = buf_len(buf);
                    if total < blen || total - blen < 2 {
                        return Ok(None);
                    }
                    let c1 = buf_byte_at(buf, blen);
                    let c2 = buf_byte_at(buf, blen + 1);
                    if c1 != 13 || c2 != 10 {
                        return Err(RespError::Protocol);
                    }
                    let data = buf_take(buf, blen);
                    buf_advance(buf, 2);
                    proof {
                        assert(pre.skip(blen as int).skip(2) =~= pre.skip(blen + 2int));
                    }
                    let ghost old_args = self@.args;
                    self.args.push(data);
                    proof {
                        assert(self@.args =~~= old_args.push(data@));
                    }
                    self.remaining = self.remaining - 1;
                    if self.remaining == 0 {
                        self.state = ParseState::ArrayLen;
                        let mut out: Vec<Vec<u8>> = Vec::new();
                        core::mem::swap(&mut out, &mut self.args);
                        proof {
                            assert(out.deep_view() =~~= old_args.push(data@));
                            assert(self@.args =~~= Seq::<Seq<u8>>::empty());
                        }
                        return Ok(Some(out));
                    }
                    self.state = ParseState::BulkLen;
                },
            }
        }
    }
}


/// Feeding more bytes cannot change what the decoder already decided.
///
/// If a buffer stalls with `NeedMore`, decoding the extended buffer from the
/// original state equals resuming from the stalled state with the extension
/// appended to the leftover; a command or a failure already decided stays
/// exactly as it was, with the extension appended to the leftover bytes.
pub proof fn lemma_decode_extend(m: ParserModel, input: Seq<u8>, ext: Seq<u8>)
    ensures
        ({
            let step = decode(m, input);
            match step.outcome {
                DecodeOutcome::NeedMore => decode(m, input + ext) == decode(
                    step.model,
                    step.rest + ext,
                ),
                DecodeOutcome::Command(cmd) => decode(m, input + ext) == (DecodeStep {
                    outcome: step.outcome,
                    model: step.model,
                    rest: step.rest + ext,
                }),
                DecodeOutcome::Fail => decode(m, input + ext).outcome is Fail,
            }
        }),
    decreases input.len(),
{
    let step = decode(m, input);
    match m.state {
        ParseState::ArrayLen | ParseState::BulkLen => {
            if find_line_end(input) is None {
                // The stalled state is the input state itself.
            } else {
                let j = find_line_end(input)->Some_0;
                lemma_find_line_end_from_range(input, 1);
                lemma_find_line_end_from_extend(input, ext, 1);
                let line = input.take(j - 1);
                let rest = input.skip(j + 1);
                assert((input + ext).take(j - 1) =~= line);
                assert((input + ext).skip(j + 1) =~= rest + ext);
                if m.state is ArrayLen {
                    if line_ok(line, 42) && dec_value(line.skip(1)) > 0 {
                        let m2 = ParserModel {
                            state: ParseState::BulkLen,
                            args: Seq::empty(),
                            remaining: dec_value(line.skip(1)),
                            bulk_len: m.bulk_len,
                        };
                        lemma_decode_extend(m2, rest, ext);
                    }
                } else {
                    if line_ok(line, 36) {
                        let m2 = ParserModel {
                            state: ParseState::BulkData,
                            args: m.args,
                            remaining: m.remaining,
                            bulk_len: dec_value(line.skip(1)),
                        };
                        lemma_decode_extend(m2, rest, ext);
                    }
                }
            }
        },
        ParseState::BulkData => {
            if input.len() < m.bulk_len + 2 {
                if (input + ext).len() < m.bulk_len + 2 {
                    assert((input + ext).take(input.len() as int) =~= input);
                }
            } else {
                let rest = input.skip(m.bulk_len + 2int);
                assert((input + ext)[m.bulk_len as int] == input[m.bulk_len as int]);
                assert((input + ext)[m.bulk_len as int + 1] == input[m.bulk_len as int + 1]);
                assert((input + ext).take(m.bulk_len as int) =~= input.take(m.bulk_len as int));
                assert((input + ext).skip(m.bulk_len + 2int) =~= rest + ext);
                if input[m.bulk_len as int] == 13 && input[m.bulk_len as int + 1] == 10
                    && m.remaining > 1 {
                    let m2 = ParserModel {
                        state: ParseState::BulkLen,
                        args: m.args.push(input.take(m.bulk_len as int)),
                        remaining: (m.remaining - 1) as nat,
                        bulk_len: m.bulk_len,
                    };
                    lemma_decode_extend(m2, rest, ext);
                }
            }
        },
    }
}

/// Splitting a buffer at any byte boundary cannot change the decoded
/// command.
///
/// If the whole buffer decodes to a command, then decoding any prefix never
/// fails; either the prefix already yields that same command, or it stalls
/// and resuming with the rest of the bytes yields that same command, with
/// the same decoder state and leftover either way.  Applied repeatedly this
/// covers a frame split into arbitrarily many deliveries.
pub proof fn lemma_decode_split(m: ParserModel, bytes: Seq<u8>, i: int)
    requires
        0 <= i <= bytes.len(),
        decode(m, bytes).outcome is Command,
    ensures
        ({
            let whole = decode(m, bytes);
            let first = decode(m, bytes.take(i));
            &&& !(first.outcome is Fail)
            &&& (first.outcome is NeedMore ==> decode(first.model, first.rest + bytes.skip(i))
                == whole)
            &&& (first.outcome is Command ==> first.outcome == whole.outcome && first.model
                == whole.model && first.rest + bytes.skip(i) == whole.rest)
        }),
{
    lemma_decode_extend(m, bytes.take(i), bytes.skip(i));
    assert(bytes.take(i) + bytes.skip(i) =~= bytes);
}

/// A `*0` frame decodes to an empty command vector, not an error, whatever
/// bytes follow it; the decoder is back at its initial state.
pub proof fn lemma_empty_array_frame(m: ParserModel, tail: Seq<u8>)
    requires
        m.state is ArrayLen,
    ensures
        ({
            let step = decode(m, seq![42u8, 48u8, 13u8, 10u8] + tail);
            &&& step.outcome == DecodeOutcome::Command(Seq::<Seq<u8>>::empty())
            &&& step.rest == tail
        }),
{
    let s = seq![42u8, 48u8, 13u8, 10u8] + tail;
    assert(s[0] == 42 && s[1] == 48 && s[2] == 13 && s[3] == 10);
    reveal_with_fuel(find_line_end_from, 4);
    assert(find_line_end_from(s, 1) == Some(3int));
    let line = s.take(2);
    assert(line =~= seq![42u8, 48u8]);
    assert(line.skip(1) =~= seq![48u8]);
    reveal_with_fuel(dec_value_from, 3);
    assert(dec_value(seq![48u8]) == 0) by {
        assert(seq![48u8].skip(1) =~= Seq::<u8>::empty());
    }
    assert(s.skip(4) =~= tail);
}


/// Decimal digits of `n`, most significant first, no leading zeros.
pub open spec fn dec_digits(n: nat) -> Seq<u8>
    decreases n,
{
    if n < 10 {
        seq![(48 + n) as u8]
    } else {
        dec_digits(n / 10).push((48 + n % 10) as u8)
    }
}

/// Decimal rendering of a signed number: a minus sign and then the digits
/// of the magnitude.
pub open spec fn int_digits(i: int) -> Seq<u8> {
    if i < 0 {
        seq![45u8] + dec_digits((-i) as nat)
    } else {
        dec_digits(i as nat)
    }
}

/// Renders an unsigned number in decimal.
pub fn format_u64(n: u64) -> (r: Vec<u8>)
    ensures
        r@ == dec_digits(n as nat),
{
    let mut low_first: Vec<u8> = Vec::new();
    let mut cur = n;
    loop
        invariant_except_break
            cur > 0 || (cur == 0 && n == 0 && low_first@.len() == 0),
            (cur == n && low_first@.len() == 0) || (low_first@.len() > 0 && cur > 0 && dec_digits(
                n as nat,
            ) == dec_digits(cur as nat) + low_first@.reverse()),
        ensures
            low_first@.len() > 0 && dec_digits(n as nat) == low_first@.reverse(),
        decreases cur,
    {
        let d = (cur % 10) as u8 + 48;
        let ghost pre = low_first@;
        low_first.push(d);
        proof {
            assert(low_first@.reverse() =~= seq![d] + pre.reverse());
            if pre.len() == 0 {
                assert(seq![d] + pre.reverse() =~= seq![d]);
                if cur >= 10 {
                    assert(dec_digits(cur as nat) =~= dec_digits((cur / 10) as nat) + seq![d]);
                } else {
                    assert(dec_digits(cur as nat) =~= seq![d]);
                }
            } else {
                if cur >= 10 {
                    assert(dec_digits((cur / 10) as nat).push(d) + pre.reverse() =~= dec_digits(
                        (cur / 10) as nat,
                    ) + (seq![d] + pre.reverse()));
                }
                if 0 < cur < 10 {
                    assert(dec_digits(cur as nat) + pre.reverse() =~= seq![d] + pre.reverse());
                }
            }
        }
        cur = cur / 10;
        if cur == 0 {
            break;
        }
    }
    let mut out: Vec<u8> = Vec::new();
    let k = low_first.len();
    let mut i: usize = 0;
    while i < k
        invariant
            k == low_first@.len(),
            i <= k,
            out@ =~= low_first@.reverse().take(i as int),
        decreases k - i,
    {
        out.push(low_first[k - 1 - i]);
        proof {
            assert(out@ =~= low_first@.reverse().take(i + 1int));
        }
        i += 1;
    }
    proof {
        assert(low_first@.reverse().take(k as int) =~= low_first@.reverse());
    }
    out
}

/// Appends every byte of `src` to `dst`.
pub(crate) fn push_all(dst: &mut Vec<u8>, src: &[u8])
    ensures
        final(dst)@ == old(dst)@ + src@,
{
    let n = src.len();
    let mut i: usize = 0;
    while i < n
        invariant
            n == src@.len(),
            i <= n,
            dst@ =~= old(dst)@ + src@.take(i as int),
        decreases n - i,
    {
        dst.push(src[i]);
        i += 1;
    }
    proof {
        assert(old(dst)@ + src@.take(n as int) =~= old(dst)@ + src@);
    }
}

/// Encodes a simple status reply: `+<msg>\r\n`.
pub fn encode_simple(msg: &[u8]) -> (r: Vec<u8>)
    ensures
        r@ == seq![43u8] + msg@ + seq![13u8, 10u8],
{
    let mut out: Vec<u8> = Vec::new();
    out.push(43);
    push_all(&mut out, msg);
    out.push(13);
    out.push(10);
    proof {
        assert(out@ =~= seq![43u8] + msg@ + seq![13u8, 10u8]);
    }
    out
}

/// Encodes an error reply: `-ERR <msg>\r\n`.
pub fn encode_error(msg: &[u8]) -> (r: Vec<u8>)
    ensures
        r@ == seq![45u8, 69u8, 82u8, 82u8, 32u8] + msg@ + seq![13u8, 10u8],
{
    let mut out: Vec<u8> = Vec::new();
    out.push(45);
    out.push(69);
    out.push(82);
    out.push(82);
    out.push(32);
    push_all(&mut out, msg);
    out.push(13);
    out.push(10);
    proof {
        assert(out@ =~= seq![45u8, 69u8, 82u8, 82u8, 32u8] + msg@ + seq![13u8, 10u8]);
    }
    out
}

/// Encodes the nil bulk reply: `$-1\r\n`.
pub fn encode_nil() -> (r: Vec<u8>)
    ensures
        r@ == seq![36u8, 45u8, 49u8, 13u8, 10u8],
{
    let mut out: Vec<u8> = Vec::new();
    out.push(36);
    out.push(45);
    out.push(49);
    out.push(13);
    out.push(10);
    proof {
        assert(out@ =~= seq![36u8, 45u8, 49u8, 13u8, 10u8]);
    }
    out
}

/// Encodes an integer reply: `:<n>\r\n`.
pub fn encode_integer(n: i64) -> (r: Vec<u8>)
    ensures
        r@ == seq![58u8] + int_digits(n as int) + seq![13u8, 10u8],
{
    let mut out: Vec<u8> = Vec::new();
    out.push(58);
    let mag: u64;
    if n >= 0 {
        mag = n as u64;
    } else {
        out.push(45);
        mag = ((-(n + 1)) as u64) + 1;
    }
    let digits = format_u64(mag);
    push_all(&mut out, digits.as_slice());
    out.push(13);
    out.push(10);
    proof {
        assert(out@ =~= seq![58u8] + int_digits(n as int) + seq![13u8, 10u8]);
    }
    out
}

/// Encodes a bulk reply: `$<len>\r\n<bytes>\r\n`, the length measured in
/// bytes.
pub fn encode_bulk(data: &[u8]) -> (r: Vec<u8>)
    ensures
        r@ == seq![36u8] + dec_digits(data@.len()) + seq![13u8, 10u8] + data@ + seq![13u8, 10u8],
{
    let mut out: Vec<u8> = Vec::new();
    out.push(36);
    let digits = format_u64(data.len() as u64);
    push_all(&mut out, digits.as_slice());
    out.push(13);
    out.push(10);
    push_all(&mut out, data);
    out.push(13);
    out.push(10);
    proof {
        assert(out@ =~= seq![36u8] + dec_digits(data@.len()) + seq![13u8, 10u8] + data@ + seq![
            13u8,
            10u8,
        ]);
    }
    out
}

} // verus!
