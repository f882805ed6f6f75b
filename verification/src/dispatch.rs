//! Command dispatcher: maps a decoded command vector to one engine operation
//! and a RESP reply.
//!
//! The command name is matched case-insensitively against a fixed table.
//! Every engine-level error becomes a RESP error line built from the error's
//! stable label; translation never closes the connection.  The spec-level
//! [`dispatch_model`] says, for every command vector, exactly which reply
//! comes back and how the store changes.

use vstd::prelude::*;
use vstd::string::StringSliceAdditionalSpecFns;

use crate::engine::{deadline_of, live_at, EntryModel, KVEngine, TtlStatus};
use crate::error::{spec_label_bytes, HkvError};
use crate::resp::{
    all_digits, dec_digits, dec_value, encode_bulk, encode_error, encode_integer, encode_nil,
    format_u64, int_digits, parse_usize, push_all,
};
use crate::types::{MAX_KEY_SIZE, MAX_VALUE_SIZE};

verus! {

/// The line terminator.
pub open spec fn crlf() -> Seq<u8> {
    seq![13u8, 10u8]
}

/// `+OK\r\n`.
pub open spec fn ok_reply() -> Seq<u8> {
    seq![43u8, 79u8, 75u8] + crlf()
}

/// `+PONG\r\n`.
pub open spec fn pong_reply() -> Seq<u8> {
    seq![43u8, 80u8, 79u8, 78u8, 71u8] + crlf()
}

/// `-ERR <label>\r\n`.
pub open spec fn err_reply(e: HkvError) -> Seq<u8> {
    seq![45u8, 69u8, 82u8, 82u8, 32u8] + spec_label_bytes(e) + crlf()
}

/// `:<n>\r\n`.
pub open spec fn int_reply(i: int) -> Seq<u8> {
    seq![58u8] + int_digits(i) + crlf()
}

/// `$<len>\r\n<bytes>\r\n`.
pub open spec fn bulk_reply(b: Seq<u8>) -> Seq<u8> {
    seq![36u8] + dec_digits(b.len()) + crlf() + b + crlf()
}

/// `$-1\r\n`.
pub open spec fn nil_reply() -> Seq<u8> {
    seq![36u8, 45u8, 49u8] + crlf()
}

/// ASCII upper-casing, byte for byte.
pub open spec fn upper_bytes(s: Seq<u8>) -> Seq<u8> {
    s.map_values(
        |b: u8|
            if 97 <= b && b <= 122 {
                (b - 32) as u8
            } else {
                b
            },
    )
}

/// `seconds * 1000`, saturating at the largest representable instant.
pub open spec fn sat_ms(seconds: nat) -> u64 {
    if seconds * 1000 > u64::MAX {
        u64::MAX
    } else {
        (seconds * 1000) as u64
    }
}

/// Remaining whole seconds, rounding any fraction up.
pub open spec fn ceil_secs(ms: u64) -> int {
    ms as int / 1000 + if ms as int % 1000 == 0 {
        0int
    } else {
        1int
    }
}

/// The text served by INFO: the engine identifier plus the request counters.
pub open spec fn info_text(requests_total: u64, errors_total: u64) -> Seq<u8> {
    "engine:hybridkv".spec_bytes() + crlf() + "requests_total:".spec_bytes() + dec_digits(
        requests_total as nat,
    ) + crlf() + "errors_total:".spec_bytes() + dec_digits(errors_total as nat) + crlf()
}

/// What one dispatched command yields: the reply bytes and the store left
/// behind.
pub struct DispatchOutcome {
    /// The RESP reply to send back.
    pub reply: Seq<u8>,
    /// The engine content after the command.
    pub store: Map<Seq<u8>, EntryModel>,
}

/// The dispatcher's whole behaviour: for a store, a decoded command vector,
/// the current instant and the request counters, the reply that goes out and
/// the store that remains.
pub open spec fn dispatch_model(
    s: Map<Seq<u8>, EntryModel>,
    args: Seq<Seq<u8>>,
    now: u64,
    requests_total: u64,
    errors_total: u64,
) -> DispatchOutcome {
    if args.len() == 0 {
        DispatchOutcome { reply: err_reply(HkvError::InvalidInput), store: s }
    } else {
        let cmd = upper_bytes(args[0]);
        if cmd == seq![80u8, 73u8, 78u8, 71u8] {  // PING
            if args.len() == 1 {
                DispatchOutcome { reply: pong_reply(), store: s }
            } else {
                DispatchOutcome { reply: err_reply(HkvError::InvalidInput), store: s }
            }
        } else if cmd == seq![83u8, 69u8, 84u8] {  // SET
            if args.len() != 3 {
                DispatchOutcome { reply: err_reply(HkvError::InvalidInput), store: s }
            } else if args[1].len() > MAX_KEY_SIZE {
                DispatchOutcome { reply: err_reply(HkvError::KeyTooLong), store: s }
            } else if args[2].len() > MAX_VALUE_SIZE {
                DispatchOutcome { reply: err_reply(HkvError::ValueTooLong), store: s }
            } else {
                DispatchOutcome {
                    reply: ok_reply(),
                    store: s.insert(args[1], EntryModel { value: args[2], expiry: None }),
                }
            }
        } else if cmd == seq![71u8, 69u8, 84u8] {  // GET
            if args.len() != 2 {
                DispatchOutcome { reply: err_reply(HkvError::InvalidInput), store: s }
            } else if s.contains_key(args[1]) && live_at(s[args[1]], now) {
                DispatchOutcome { reply: bulk_reply(s[args[1]].value), store: s }
            } else {
                DispatchOutcome { reply: nil_reply(), store: s.remove(args[1]) }
            }
        } else if cmd == seq![68u8, 69u8, 76u8] {  // DEL
            if args.len() != 2 {
                DispatchOutcome { reply: err_reply(HkvError::InvalidInput), store: s }
            } else {
                DispatchOutcome {
                    reply: int_reply(
                        if s.contains_key(args[1]) {
                            1int
                        } else {
                            0int
                        },
                    ),
                    store: s.remove(args[1]),
                }
            }
        } else if cmd == seq![69u8, 88u8, 80u8, 73u8, 82u8, 69u8] {  // EXPIRE
            if args.len() != 3 {
                DispatchOutcome { reply: err_reply(HkvError::InvalidInput), store: s }
            } else if !(args[2].len() > 0 && all_digits(args[2])) {
                DispatchOutcome { reply: err_reply(HkvError::InvalidInput), store: s }
            } else {
                let ttl_ms = sat_ms(dec_value(args[2]));
                if s.contains_key(args[1]) && live_at(s[args[1]], now) {
                    DispatchOutcome {
                        reply: int_reply(1),
                        store: s.insert(
                            args[1],
                            EntryModel {
                                value: s[args[1]].value,
                                expiry: Some(deadline_of(now, ttl_ms)),
                            },
                        ),
                    }
                } else {
                    DispatchOutcome { reply: int_reply(0), store: s.remove(args[1]) }
                }
            }
        } else if cmd == seq![84u8, 84u8, 76u8] {  // TTL
            if args.len() != 2 {
                DispatchOutcome { reply: err_reply(HkvError::InvalidInput), store: s }
            } else if s.contains_key(args[1]) && live_at(s[args[1]], now) {
                match s[args[1]].expiry {
                    None => DispatchOutcome { reply: int_reply(-1), store: s },
                    Some(deadline) => DispatchOutcome {
                        reply: int_reply(ceil_secs((deadline - now) as u64)),
                        store: s,
                    },
                }
            } else {
                DispatchOutcome { reply: int_reply(-2), store: s.remove(args[1]) }
            }
        } else if cmd == seq![73u8, 78u8, 70u8, 79u8] {  // INFO
            if args.len() != 1 {
                DispatchOutcome { reply: err_reply(HkvError::InvalidInput), store: s }
            } else {
                DispatchOutcome {
                    reply: bulk_reply(info_text(requests_total, errors_total)),
                    store: s,
                }
            }
        } else {
            DispatchOutcome { reply: err_reply(HkvError::UnsupportedCommand), store: s }
        }
    }
}

/// ASCII upper-casing, byte for byte.
fn to_upper(s: &[u8]) -> (r: Vec<u8>)
    ensures
        r@ == upper_bytes(s@),
{
    let n = s.len();
    let mut out: Vec<u8> = Vec::new();
    let mut i: usize = 0;
    while i < n
        invariant
            n == s@.len(),
            i <= n,
            out@ =~= upper_bytes(s@).take(i as int),
        decreases n - i,
    {
        let b = s[i];
        if 97 <= b && b <= 122 {
            out.push(b - 32);
        } else {
            out.push(b);
        }
        proof {
            assert(out@ =~= upper_bytes(s@).take(i + 1int));
        }
        i += 1;
    }
    proof {
        assert(upper_bytes(s@).take(n as int) =~= upper_bytes(s@));
    }
    out
}

/// Compares a byte slice against three given bytes.
fn eq3(s: &[u8], b0: u8, b1: u8, b2: u8) -> (r: bool)
    ensures
        r == (s@ == seq![b0, b1, b2]),
{
    let r = s.len() == 3 && s[0] == b0 && s[1] == b1 && s[2] == b2;
    proof {
        if r {
            assert(s@ =~= seq![b0, b1, b2]);
        }
    }
    r
}

/// Compares a byte slice against four given bytes.
fn eq4(s: &[u8], b0: u8, b1: u8, b2: u8, b3: u8) -> (r: bool)
    ensures
        r == (s@ == seq![b0, b1, b2, b3]),
{
    let r = s.len() == 4 && s[0] == b0 && s[1] == b1 && s[2] == b2 && s[3] == b3;
    proof {
        if r {
            assert(s@ =~= seq![b0, b1, b2, b3]);
        }
    }
    r
}

/// Compares a byte slice against six given bytes.
fn eq6(s: &[u8], b0: u8, b1: u8, b2: u8, b3: u8, b4: u8, b5: u8) -> (r: bool)
    ensures
        r == (s@ == seq![b0, b1, b2, b3, b4, b5]),
{
    let r = s.len() == 6 && s[0] == b0 && s[1] == b1 && s[2] == b2 && s[3] == b3 && s[4] == b4
        && s[5] == b5;
    proof {
        if r {
            assert(s@ =~= seq![b0, b1, b2, b3, b4, b5]);
        }
    }
    r
}

/// Builds the RESP error line for an engine error.
fn reply_error(e: HkvError) -> (r: Vec<u8>)
    ensures
        r@ == err_reply(e),
{
    encode_error(e.label().as_bytes())
}

/// Runs one decoded command against the engine and builds its RESP reply.
///
/// The reply and the store transition are exactly [`dispatch_model`] of the
/// starting store, the arguments, the instant, and the two request counters
/// served by INFO.
pub fn dispatch<E: KVEngine>(
    engine: &mut E,
    args: &Vec<Vec<u8>>,
    now_ms: u64,
    requests_total: u64,
    errors_total: u64,
) -> (reply: Vec<u8>)
    requires
        old(engine).inv(),
    ensures
        final(engine).inv(),
        ({
            let o = dispatch_model(
                old(engine).store(),
                args.deep_view(),
                now_ms,
                requests_total,
                errors_total,
            );
            reply@ == o.reply && final(engine).store() == o.store
        }),
{
    proof {
        assert forall|i: int| 0 <= i < args@.len() implies #[trigger] args.deep_view()[i]
            == args@[i]@ by {
            assert(args@[i].deep_view() =~= args@[i]@);
        }
    }
    if args.len() == 0 {
        return reply_error(HkvError::InvalidInput);
    }
    let up = to_upper(args[0].as_slice());
    let c = up.as_slice();
    if eq4(c, 80, 73, 78, 71) {
        // PING
        if args.len() == 1 {
            let mut out: Vec<u8> = Vec::new();
            out.push(43);
            out.push(80);
            out.push(79);
            out.push(78);
            out.push(71);
            out.push(13);
            out.push(10);
            proof {
                assert(out@ =~= pong_reply());
            }
            out
        } else {
            reply_error(HkvError::InvalidInput)
        }
    } else if eq3(c, 83, 69, 84) {
        // SET
        if args.len() != 3 {
            return reply_error(HkvError::InvalidInput);
        }
        let key = crate::engine::copy_bytes(&args[1]);
        let value = crate::engine::copy_bytes(&args[2]);
        match engine.set(key, value) {
            Ok(()) => {
                let mut out: Vec<u8> = Vec::new();
                out.push(43);
                out.push(79);
                out.push(75);
                out.push(13);
                out.push(10);
                proof {
                    assert(out@ =~= ok_reply());
                }
                out
            },
            Err(e) => reply_error(e),
        }
    } else if eq3(c, 71, 69, 84) {
        // GET
        if args.len() != 2 {
            return reply_error(HkvError::InvalidInput);
        }
        match engine.get(args[1].as_slice(), now_ms) {
            Some(v) => encode_bulk(v.as_slice()),
            None => encode_nil(),
        }
    } else if eq3(c, 68, 69, 76) {
        // DEL
        if args.len() != 2 {
            return reply_error(HkvError::InvalidInput);
        }
        let existed = engine.delete(args[1].as_slice());
        if existed {
            encode_integer(1)
        } else {
            encode_integer(0)
        }
    } else if eq6(c, 69, 88, 80, 73, 82, 69) {
        // EXPIRE
        if args.len() != 3 {
            return reply_error(HkvError::InvalidInput);
        }
        let seconds = match parse_usize(args[2].as_slice()) {
            Ok(v) => v,
            Err(_) => {
                return reply_error(HkvError::InvalidInput);
            },
        };
        let sec64 = seconds as u64;
        let ttl_ms = if sec64 > u64::MAX / 1000 {
            u64::MAX
        } else {
            sec64 * 1000
        };
        proof {
            assert(ttl_ms == sat_ms(dec_value(args@[2]@)));
        }
        match engine.expire(args[1].as_slice(), ttl_ms, now_ms) {
            Ok(()) => encode_integer(1),
            Err(_) => encode_integer(0),
        }
    } else if eq3(c, 84, 84, 76) {
        // TTL
        if args.len() != 2 {
            return reply_error(HkvError::InvalidInput);
        }
        match engine.ttl(args[1].as_slice(), now_ms) {
            TtlStatus::Missing => {
                let mut out: Vec<u8> = Vec::new();
                out.push(58);
                out.push(45);
                out.push(50);
                out.push(13);
                out.push(10);
                proof {
                    assert(int_digits(-2) =~= seq![45u8, 50u8]);
                    assert(out@ =~= int_reply(-2));
                }
                out
            },
            TtlStatus::NoExpiry => {
                let mut out: Vec<u8> = Vec::new();
                out.push(58);
                out.push(45);
                out.push(49);
                out.push(13);
                out.push(10);
                proof {
                    assert(int_digits(-1) =~= seq![45u8, 49u8]);
                    assert(out@ =~= int_reply(-1));
                }
                out
            },
            TtlStatus::ExpiresIn(ms) => {
                let secs = ms / 1000 + (if ms % 1000 == 0 {
                    0
                } else {
                    1
                });
                proof {
                    assert(ms / 1000 <= u64::MAX / 1000) by (nonlinear_arith);
                    assert(secs as int == ceil_secs(ms));
                }
                encode_integer(secs as i64)
            },
        }
    } else if eq4(c, 73, 78, 70, 79) {
        // INFO
        if args.len() != 1 {
            return reply_error(HkvError::InvalidInput);
        }
        let mut t: Vec<u8> = Vec::new();
        push_all(&mut t, "engine:hybridkv".as_bytes());
        t.push(13);
        t.push(10);
        push_all(&mut t, "requests_total:".as_bytes());
        let d1 = format_u64(requests_total);
        push_all(&mut t, d1.as_slice());
        t.push(13);
        t.push(10);
        push_all(&mut t, "errors_total:".as_bytes());
        let d2 = format_u64(errors_total);
        push_all(&mut t, d2.as_slice());
        t.push(13);
        t.push(10);
        proof {
            assert(t@ =~= info_text(requests_total, errors_total));
        }
        encode_bulk(t.as_slice())
    } else {
        reply_error(HkvError::UnsupportedCommand)
    }
}

} // verus!
