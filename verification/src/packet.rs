//! Packet framing for the wire protocol: a payload travels as
//! `$body#CC`, where `body` is the payload with the four special bytes
//! escaped, and `CC` is the two-hex-digit checksum (sum of the body bytes
//! modulo 256). The decoder also understands run-length compression
//! (`*` plus a count byte repeats the previous character); the encoder never
//! emits it.

use crate::hex::{hex_digit_enc, hex_digit_of, hex_digit_p, hex_digit_val, hex_digit_value,
    is_hex_digit};
use vstd::prelude::*;

verus! {

/// Frame start marker `$`.
pub const FRAME_START: u8 = 0x24;

/// Checksum separator `#`.
pub const FRAME_END: u8 = 0x23;

/// Escape prefix `}`.
pub const ESCAPE: u8 = 0x7d;

/// Run-length marker `*`.
pub const RUN_LENGTH: u8 = 0x2a;

/// An escaped byte is stored XOR-ed with this mask.
pub const ESCAPE_MASK: u8 = 0x20;

/// Smallest valid run-length count byte; a count byte `n` repeats the
/// previous character `n - 29` further times.
pub const RUN_LENGTH_BASE: u8 = 29;

/// Positive acknowledgment byte `+`.
pub const ACK: u8 = 0x2b;

/// Retransmission request byte `-`.
pub const NAK: u8 = 0x2d;

/// Sum of a byte sequence, without the modulus.
pub open spec fn sum_bytes(s: Seq<u8>) -> nat
    decreases s.len(),
{
    if s.len() == 0 {
        0
    } else {
        sum_bytes(s.drop_last()) + s.last() as nat
    }
}

/// The checksum of a body: its byte sum modulo 256.
pub open spec fn checksum_spec(s: Seq<u8>) -> u8 {
    (sum_bytes(s) % 256) as u8
}

/// The four bytes with structural meaning must be escaped inside a body.
pub open spec fn needs_escape(b: u8) -> bool {
    b == FRAME_START || b == FRAME_END || b == ESCAPE || b == RUN_LENGTH
}

/// The escaped form of a payload: special bytes become `}` followed by the
/// byte XOR-ed with the mask.
pub open spec fn escape_spec(s: Seq<u8>) -> Seq<u8>
    decreases s.len(),
{
    if s.len() == 0 {
        Seq::empty()
    } else {
        (if needs_escape(s[0]) {
            seq![ESCAPE, s[0] ^ ESCAPE_MASK]
        } else {
            seq![s[0]]
        }) + escape_spec(s.skip(1))
    }
}

/// Continues unescaping after one character `c` has been decoded: a
/// run-length marker repeats `c`, anything else starts afresh.
pub open spec fn emit_cont(c: u8, rest: Seq<u8>) -> Option<Seq<u8>>
    decreases rest.len(), 1int,
{
    if rest.len() >= 1 && rest[0] == RUN_LENGTH {
        if rest.len() < 2 || rest[1] < RUN_LENGTH_BASE {
            None
        } else {
            match unescape_spec(rest.skip(2)) {
                Some(t) => Some(Seq::new((rest[1] - RUN_LENGTH_BASE + 1) as nat, |j: int| c) + t),
                None => None,
            }
        }
    } else {
        match unescape_spec(rest) {
            Some(t) => Some(seq![c] + t),
            None => None,
        }
    }
}

/// The payload a body unescapes to, or nothing when the body is not a valid
/// escaping: a truncated escape, a leading run-length marker, or a count
/// byte below the base.
pub open spec fn unescape_spec(s: Seq<u8>) -> Option<Seq<u8>>
    decreases s.len(), 0int,
{
    if s.len() == 0 {
        Some(Seq::empty())
    } else if s[0] == ESCAPE {
        if s.len() < 2 {
            None
        } else {
            emit_cont(s[1] ^ ESCAPE_MASK, s.skip(2))
        }
    } else if s[0] == RUN_LENGTH {
        None
    } else {
        emit_cont(s[0], s.skip(1))
    }
}

/// The full frame a payload is sent as.
pub open spec fn frame_spec(payload: Seq<u8>) -> Seq<u8> {
    let body = escape_spec(payload);
    let c = checksum_spec(body);
    seq![FRAME_START] + body + seq![
        FRAME_END,
        hex_digit_of((c / 16) as nat),
        hex_digit_of((c % 16) as nat),
    ]
}

/// A received frame has the start marker first, the checksum separator third
/// from the end, and two hex checksum digits last.
pub open spec fn well_framed(f: Seq<u8>) -> bool {
    f.len() >= 4 && f[0] == FRAME_START && f[f.len() - 3] == FRAME_END && is_hex_digit(
        f[f.len() - 2],
    ) && is_hex_digit(f[f.len() - 1])
}

/// The body of a well-formed frame: everything between `$` and `#`.
pub open spec fn frame_body(f: Seq<u8>) -> Seq<u8> {
    f.subrange(1, f.len() - 3)
}

/// The checksum a well-formed frame claims for its body.
pub open spec fn frame_checksum(f: Seq<u8>) -> nat {
    hex_digit_value(f[f.len() - 2]) * 16 + hex_digit_value(f[f.len() - 1])
}

/// What decoding a received frame yields.
pub enum DecodeModel {
    /// The checksum matched and the body unescaped: the payload is delivered.
    Payload(Seq<u8>),
    /// The checksum did not match: the caller must request retransmission.
    BadChecksum,
    /// The frame is not structurally a packet; nothing is delivered.
    Malformed,
}

/// Decoding: verify the framing, then the checksum, then unescape.
pub open spec fn decode_spec(f: Seq<u8>) -> DecodeModel {
    if !well_framed(f) {
        DecodeModel::Malformed
    } else if frame_checksum(f) != checksum_spec(frame_body(f)) as nat {
        DecodeModel::BadChecksum
    } else {
        match unescape_spec(frame_body(f)) {
            Some(p) => DecodeModel::Payload(p),
            None => DecodeModel::Malformed,
        }
    }
}

/// Checksum of a body: sum of its bytes modulo 256.
pub fn compute_checksum(b: &[u8]) -> (r: u8)
    ensures
        r == checksum_spec(b@),
{
    let mut acc: u8 = 0;
    let mut i: usize = 0;
    while i < b.len()
        invariant
            i <= b@.len(),
            acc == sum_bytes(b@.take(i as int)) % 256,
        decreases b@.len() - i,
    {
        proof {
            assert(b@.take(i + 1).drop_last() =~= b@.take(i as int));
            assert(b@.take(i + 1).last() == b@[i as int]);
            vstd::arithmetic::div_mod::lemma_add_mod_noop(
                sum_bytes(b@.take(i as int)) as int,
                b@[i as int] as int,
                256,
            );
        }
        acc = (((acc as u16) + (b[i] as u16)) % 256) as u8;
        i += 1;
    }
    proof {
        assert(b@.take(i as int) =~= b@);
    }
    acc
}

/// Escape a payload into body form.
pub fn escape(payload: &[u8]) -> (out: Vec<u8>)
    ensures
        out@ == escape_spec(payload@),
{
    let mut out: Vec<u8> = Vec::new();
    let mut i: usize = 0;
    proof {
        assert(payload@.skip(0) =~= payload@);
        assert(out@ + escape_spec(payload@) =~= escape_spec(payload@));
    }
    while i < payload.len()
        invariant
            i <= payload@.len(),
            out@ + escape_spec(payload@.skip(i as int)) == escape_spec(payload@),
        decreases payload@.len() - i,
    {
        let b = payload[i];
        let ghost pre = out@;
        if b == FRAME_START || b == FRAME_END || b == ESCAPE || b == RUN_LENGTH {
            out.push(ESCAPE);
            out.push(b ^ ESCAPE_MASK);
            proof {
                assert(out@ =~= pre + seq![ESCAPE, b ^ ESCAPE_MASK]);
            }
        } else {
            out.push(b);
            proof {
                assert(out@ =~= pre + seq![b]);
            }
        }
        proof {
            let s = payload@;
            let head: Seq<u8> = if needs_escape(s[i as int]) {
                seq![ESCAPE, s[i as int] ^ ESCAPE_MASK]
            } else {
                seq![s[i as int]]
            };
            assert(s.skip(i as int)[0] == s[i as int]);
            assert(s.skip(i as int).skip(1) =~= s.skip(i + 1));
            assert(escape_spec(s.skip(i as int)) == head + escape_spec(s.skip(i + 1)));
            assert((pre + head) + escape_spec(s.skip(i + 1)) =~= pre + (head + escape_spec(
                s.skip(i + 1),
            )));
        }
        i += 1;
    }
    proof {
        assert(payload@.skip(payload@.len() as int) =~= Seq::<u8>::empty());
        assert(out@ =~= out@ + escape_spec(payload@.skip(payload@.len() as int)));
    }
    out
}

/// The bytes one decoded character contributes to the payload: itself,
/// repeated when a valid run-length marker follows it.
pub open spec fn emit_chunk(c: u8, rest: Seq<u8>) -> Seq<u8> {
    if rest.len() >= 1 && rest[0] == RUN_LENGTH {
        if rest.len() >= 2 && rest[1] >= RUN_LENGTH_BASE {
            Seq::new((rest[1] - RUN_LENGTH_BASE + 1) as nat, |j: int| c)
        } else {
            Seq::empty()
        }
    } else {
        seq![c]
    }
}

/// Whether the bytes after a decoded character continue validly: a run-length
/// marker must carry a count byte at or above the base.
pub open spec fn emit_ok(rest: Seq<u8>) -> bool {
    (rest.len() >= 1 && rest[0] == RUN_LENGTH) ==> (rest.len() >= 2 && rest[1]
        >= RUN_LENGTH_BASE)
}

/// How many bytes a run-length marker consumes after a decoded character.
pub open spec fn emit_skip(rest: Seq<u8>) -> int {
    if rest.len() >= 1 && rest[0] == RUN_LENGTH {
        2
    } else {
        0
    }
}

/// Emit one decoded character into `out`, expanding a run-length marker that
/// follows it; returns the position after what was consumed.
fn emit_run(c: u8, body: &[u8], k: usize, out: &mut Vec<u8>) -> (r: Option<usize>)
    requires
        k <= body@.len(),
    ensures
        r is None ==> !emit_ok(body@.skip(k as int)),
        r matches Some(k2) ==> {
            &&& emit_ok(body@.skip(k as int))
            &&& k <= k2 <= body@.len()
            &&& k2 == k + emit_skip(body@.skip(k as int))
            &&& final(out)@ == old(out)@ + emit_chunk(c, body@.skip(k as int))
        },
{
    let ghost rest = body@.skip(k as int);
    if k < body.len() && body[k] == RUN_LENGTH {
        proof {
            assert(rest[0] == RUN_LENGTH);
        }
        if k + 1 >= body.len() {
            return None;
        }
        let n = body[k + 1];
        proof {
            assert(rest[1] == n);
        }
        if n < RUN_LENGTH_BASE {
            return None;
        }
        let count = (n - RUN_LENGTH_BASE) as usize + 1;
        let ghost pre = out@;
        let mut t: usize = 0;
        while t < count
            invariant
                t <= count,
                out@ == pre + Seq::new(t as nat, |j: int| c),
            decreases count - t,
        {
            out.push(c);
            proof {
                assert(out@ =~= pre + Seq::new((t + 1) as nat, |j: int| c));
            }
            t += 1;
        }
        proof {
            assert(emit_chunk(c, rest) =~= Seq::new(count as nat, |j: int| c));
        }
        Some(k + 2)
    } else {
        out.push(c);
        proof {
            assert(out@ =~= old(out)@ + emit_chunk(c, rest));
        }
        Some(k)
    }
}

/// Unescape a body back into the payload, expanding run-length compression;
/// fails exactly where the body is not a valid escaping.
pub fn unescape(body: &[u8]) -> (r: Option<Vec<u8>>)
    ensures
        (r is Some) == (unescape_spec(body@) is Some),
        r matches Some(v) ==> v@ == unescape_spec(body@)->Some_0,
{
    let mut out: Vec<u8> = Vec::new();
    let mut i: usize = 0;
    proof {
        assert(body@.skip(0) =~= body@);
        if unescape_spec(body@) is Some {
            assert(Seq::<u8>::empty() + unescape_spec(body@)->Some_0 =~= unescape_spec(
                body@,
            )->Some_0);
        }
    }
    while i < body.len()
        invariant
            i <= body@.len(),
            unescape_spec(body@) == match unescape_spec(body@.skip(i as int)) {
                Some(t) => Some(out@ + t),
                None => None::<Seq<u8>>,
            },
        decreases body@.len() - i,
    {
        let ghost s = body@;
        let ghost pre = out@;
        let b = body[i];
        proof {
            assert(s.skip(i as int)[0] == b);
        }
        if b == ESCAPE {
            if i + 1 >= body.len() {
                proof {
                    assert(s.skip(i as int).len() < 2);
                }
                return None;
            }
            let c = body[i + 1] ^ ESCAPE_MASK;
            proof {
                assert(s.skip(i as int)[1] == s[i + 1]);
                assert(s.skip(i as int).skip(2) =~= s.skip(i + 2));
                assert(unescape_spec(s.skip(i as int)) == emit_cont(c, s.skip(i + 2)));
            }
            match emit_run(c, body, i + 2, &mut out) {
                None => {
                    return None;
                },
                Some(k2) => {
                    proof {
                        lemma_unescape_step(c, s, i + 2, k2 as int, pre, out@);
                    }
                    i = k2;
                },
            }
        } else if b == RUN_LENGTH {
            return None;
        } else {
            proof {
                assert(s.skip(i as int).skip(1) =~= s.skip(i + 1));
                assert(unescape_spec(s.skip(i as int)) == emit_cont(b, s.skip(i + 1)));
            }
            match emit_run(b, body, i + 1, &mut out) {
                None => {
                    return None;
                },
                Some(k2) => {
                    proof {
                        lemma_unescape_step(b, s, i + 1, k2 as int, pre, out@);
                    }
                    i = k2;
                },
            }
        }
    }
    proof {
        assert(body@.skip(body@.len() as int) =~= Seq::<u8>::empty());
        assert(out@ + Seq::<u8>::empty() =~= out@);
    }
    Some(out)
}

/// One decoding step preserves the relation between what has been emitted
/// and what the rest of the body decodes to.
proof fn lemma_unescape_step(c: u8, s: Seq<u8>, k: int, k2: int, pre: Seq<u8>, cur: Seq<u8>)
    requires
        0 <= k <= s.len(),
        emit_ok(s.skip(k)),
        k2 == k + emit_skip(s.skip(k)),
        cur == pre + emit_chunk(c, s.skip(k)),
    ensures
        (match emit_cont(c, s.skip(k)) {
            Some(u) => Some(pre + u),
            None => None::<Seq<u8>>,
        }) == (match unescape_spec(s.skip(k2)) {
            Some(t) => Some(cur + t),
            None => None::<Seq<u8>>,
        }),
{
    let rest = s.skip(k);
    if rest.len() >= 1 && rest[0] == RUN_LENGTH {
        assert(rest.skip(2) =~= s.skip(k + 2));
        if unescape_spec(s.skip(k2)) is Some {
            let t = unescape_spec(s.skip(k2))->Some_0;
            assert(pre + (emit_chunk(c, rest) + t) =~= cur + t);
        }
    } else {
        assert(rest =~= s.skip(k2));
        if unescape_spec(s.skip(k2)) is Some {
            let t = unescape_spec(s.skip(k2))->Some_0;
            assert(pre + (emit_chunk(c, rest) + t) =~= cur + t);
        }
    }
}

/// Frame a payload for sending: `$`, the escaped body, `#`, and the two
/// checksum digits.
pub fn encode_packet(payload: &[u8]) -> (out: Vec<u8>)
    ensures
        out@ == frame_spec(payload@),
        well_framed(out@),
        frame_body(out@) == escape_spec(payload@),
{
    let mut body = escape(payload);
    let c = compute_checksum(body.as_slice());
    let mut out: Vec<u8> = Vec::new();
    out.push(FRAME_START);
    out.append(&mut body);
    out.push(FRAME_END);
    let d_hi = hex_digit_enc(c / 16);
    let d_lo = hex_digit_enc(c % 16);
    out.push(d_hi);
    out.push(d_lo);
    proof {
        assert(out@ =~= frame_spec(payload@));
        assert(frame_body(out@) =~= escape_spec(payload@));
    }
    out
}

/// What decoding a received frame produced.
#[derive(Debug, PartialEq, Eq)]
pub enum DecodeOutcome {
    /// The checksum matched and the body unescaped: the payload.
    Packet(Vec<u8>),
    /// The checksum did not match: emit a retransmission request.
    BadChecksum,
    /// Not structurally a packet; nothing is delivered.
    Malformed,
}

/// Decode one complete frame: verify the framing and the checksum, then
/// unescape the body. The payload reaches the caller only when the checksum
/// matched.
pub fn decode_frame(frame: &[u8]) -> (r: DecodeOutcome)
    ensures
        (r is Packet) == (decode_spec(frame@) is Payload),
        (r is BadChecksum) == (decode_spec(frame@) is BadChecksum),
        (r is Malformed) == (decode_spec(frame@) is Malformed),
        r matches DecodeOutcome::Packet(p) ==> p@ == decode_spec(frame@)->Payload_0,
{
    let n = frame.len();
    if n < 4 {
        return DecodeOutcome::Malformed;
    }
    if frame[0] != FRAME_START || frame[n - 3] != FRAME_END {
        return DecodeOutcome::Malformed;
    }
    if !hex_digit_p(frame[n - 2]) || !hex_digit_p(frame[n - 1]) {
        return DecodeOutcome::Malformed;
    }
    let body = vstd::slice::slice_subrange(frame, 1, n - 3);
    let cs = compute_checksum(body);
    let claimed = hex_digit_val(frame[n - 2]) * 16 + hex_digit_val(frame[n - 1]);
    proof {
        assert(body@ == frame_body(frame@));
        assert(claimed as nat == frame_checksum(frame@));
    }
    if claimed != cs {
        return DecodeOutcome::BadChecksum;
    }
    match unescape(body) {
        Some(v) => DecodeOutcome::Packet(v),
        None => DecodeOutcome::Malformed,
    }
}

/// The escaped form of a payload never starts with a run-length marker, so
/// a decoded character is never spuriously repeated.
proof fn lemma_escape_head(s: Seq<u8>)
    requires
        s.len() > 0,
    ensures
        escape_spec(s).len() > 0,
        escape_spec(s)[0] != RUN_LENGTH,
{
}

/// Law: unescaping the escaped form of any payload gives the payload back.
pub proof fn lemma_unescape_escape(s: Seq<u8>)
    ensures
        unescape_spec(escape_spec(s)) == Some(s),
    decreases s.len(),
{
    if s.len() == 0 {
        assert(escape_spec(s).len() == 0);
    } else {
        lemma_unescape_escape(s.skip(1));
        let e = escape_spec(s);
        let tail = escape_spec(s.skip(1));
        let b = s[0];
        if needs_escape(b) {
            assert(e =~= seq![ESCAPE, b ^ ESCAPE_MASK] + tail);
            assert(e[0] == ESCAPE);
            assert(e.len() >= 2);
            assert(e[1] == b ^ ESCAPE_MASK);
            assert(e.skip(2) =~= tail);
            assert((b ^ ESCAPE_MASK) ^ ESCAPE_MASK == b) by (bit_vector);
            assert(unescape_spec(e) == emit_cont(b, tail));
        } else {
            assert(e =~= seq![b] + tail);
            assert(e[0] == b);
            assert(e[0] != ESCAPE && e[0] != RUN_LENGTH);
            assert(e.skip(1) =~= tail);
            assert(unescape_spec(e) == emit_cont(b, tail));
        }
        if s.skip(1).len() > 0 {
            lemma_escape_head(s.skip(1));
        }
        assert(emit_cont(b, tail) == Some(seq![b] + s.skip(1)));
        assert(seq![b] + s.skip(1) =~= s);
    }
}

/// Law: a frame built by the encoder decodes back to exactly the payload it
/// was built from.
pub proof fn lemma_frame_roundtrip(p: Seq<u8>)
    ensures
        decode_spec(frame_spec(p)) == DecodeModel::Payload(p),
{
    let f = frame_spec(p);
    let body = escape_spec(p);
    let c = checksum_spec(body);
    crate::hex::lemma_hex_digit_of((c / 16) as nat);
    crate::hex::lemma_hex_digit_of((c % 16) as nat);
    assert(f.len() == body.len() + 4);
    assert(f[0] == FRAME_START);
    assert(f[f.len() - 3] == FRAME_END);
    assert(f[f.len() - 2] == hex_digit_of((c / 16) as nat));
    assert(f[f.len() - 1] == hex_digit_of((c % 16) as nat));
    assert(well_framed(f));
    assert(frame_body(f) =~= body);
    assert(frame_checksum(f) == (c / 16) * 16 + (c % 16));
    assert((c / 16) * 16 + (c % 16) == c as nat);
    lemma_unescape_escape(p);
}

/// Changing one byte of a sequence shifts its sum by exactly the difference
/// of the bytes.
proof fn lemma_sum_one_diff(s1: Seq<u8>, s2: Seq<u8>, j: int)
    requires
        s1.len() == s2.len(),
        0 <= j < s1.len(),
        forall|k: int| 0 <= k < s1.len() && k != j ==> s1[k] == s2[k],
    ensures
        sum_bytes(s1) + s2[j] == sum_bytes(s2) + s1[j],
    decreases s1.len(),
{
    if j == s1.len() - 1 {
        assert(s1.drop_last() =~= s2.drop_last());
    } else {
        lemma_sum_one_diff(s1.drop_last(), s2.drop_last(), j);
    }
}

/// Two bodies differing in exactly one byte have different checksums.
proof fn lemma_checksum_one_diff(s1: Seq<u8>, s2: Seq<u8>, j: int)
    requires
        s1.len() == s2.len(),
        0 <= j < s1.len(),
        s1[j] != s2[j],
        forall|k: int| 0 <= k < s1.len() && k != j ==> s1[k] == s2[k],
    ensures
        checksum_spec(s1) != checksum_spec(s2),
{
    lemma_sum_one_diff(s1, s2, j);
    let a = sum_bytes(s1) as int;
    let b = sum_bytes(s2) as int;
    let d = b - a;
    assert(d == s2[j] - s1[j]);
    assert(d != 0 && -256 < d < 256);
    if a % 256 == b % 256 {
        vstd::arithmetic::div_mod::lemma_fundamental_div_mod(a, 256);
        vstd::arithmetic::div_mod::lemma_fundamental_div_mod(b, 256);
        let qa = a / 256;
        let qb = b / 256;
        assert(d == 256 * qb - 256 * qa);
        assert(d == 256 * (qb - qa)) by (nonlinear_arith)
            requires
                d == 256 * qb - 256 * qa,
        ;
        assert(qb - qa == 0) by (nonlinear_arith)
            requires
                d == 256 * (qb - qa),
                -256 < d < 256,
        ;
        assert(false);
    }
}

/// Law: corrupting any single byte of an encoded frame prevents the payload
/// from being delivered; a corruption that leaves the framing bytes intact
/// is reported as a checksum failure, for which the caller requests
/// retransmission. The one excluded corruption is rewriting a checksum digit
/// as the other-case digit of the same value (say `a` to `A`), which leaves
/// the claimed checksum unchanged.
pub proof fn lemma_corruption_detected(p: Seq<u8>, f2: Seq<u8>, j: int)
    requires
        f2.len() == frame_spec(p).len(),
        0 <= j < f2.len(),
        f2[j] != frame_spec(p)[j],
        forall|k: int| 0 <= k < f2.len() && k != j ==> f2[k] == frame_spec(p)[k],
        j >= f2.len() - 2 ==> !(is_hex_digit(f2[j]) && hex_digit_value(f2[j]) == hex_digit_value(
            frame_spec(p)[j],
        )),
    ensures
        !(decode_spec(f2) is Payload),
        1 <= j < f2.len() - 3 ==> decode_spec(f2) is BadChecksum,
{
    let f = frame_spec(p);
    let body = escape_spec(p);
    let c = checksum_spec(body);
    crate::hex::lemma_hex_digit_of((c / 16) as nat);
    crate::hex::lemma_hex_digit_of((c % 16) as nat);
    assert(f.len() == body.len() + 4);
    assert(frame_body(f) =~= body);
    assert((c / 16) * 16 + (c % 16) == c as nat);
    if j == 0 {
        assert(f2[0] != FRAME_START);
        assert(!well_framed(f2));
    } else if j == f2.len() - 3 {
        assert(f2[f2.len() - 3] != FRAME_END);
        assert(!well_framed(f2));
    } else if j < f2.len() - 3 {
        // a body byte changed: framing and digits intact, checksum differs
        let body2 = frame_body(f2);
        assert(f2[0] == FRAME_START && f2[f2.len() - 3] == FRAME_END);
        assert(is_hex_digit(f2[f2.len() - 2]) && is_hex_digit(f2[f2.len() - 1]));
        assert(well_framed(f2));
        assert(body2.len() == body.len());
        assert(body2[j - 1] == f2[j] && body[j - 1] == f[j]);
        assert(forall|k: int|
            0 <= k < body.len() && k != j - 1 ==> body2[k] == #[trigger] body[k]);
        lemma_checksum_one_diff(body, body2, j - 1);
        assert(frame_checksum(f2) == frame_checksum(f));
        assert(frame_checksum(f2) == c as nat);
        assert(checksum_spec(body2) as nat != c as nat);
        assert(decode_spec(f2) is BadChecksum);
    } else {
        // a checksum digit changed
        let body2 = frame_body(f2);
        assert(body2 =~= body);
        if !is_hex_digit(f2[j]) {
            assert(!well_framed(f2));
        } else {
            assert(well_framed(f2));
            assert(hex_digit_value(f2[j]) != hex_digit_value(f[j]));
            assert(hex_digit_value(f[f.len() - 2]) == (c / 16) as nat);
            assert(hex_digit_value(f[f.len() - 1]) == (c % 16) as nat);
            if j == f2.len() - 2 {
                assert(f2[f2.len() - 1] == f[f.len() - 1]);
                assert(frame_checksum(f2) != frame_checksum(f)) by (nonlinear_arith)
                    requires
                        frame_checksum(f2) == hex_digit_value(f2[f2.len() - 2]) * 16
                            + hex_digit_value(f2[f2.len() - 1]),
                        frame_checksum(f) == hex_digit_value(f[f.len() - 2]) * 16
                            + hex_digit_value(f[f.len() - 1]),
                        hex_digit_value(f2[f2.len() - 2]) != hex_digit_value(f[f.len() - 2]),
                        f2[f2.len() - 1] == f[f.len() - 1],
                ;
            } else {
                assert(j == f2.len() - 1);
                assert(f2[f2.len() - 2] == f[f.len() - 2]);
                assert(frame_checksum(f2) != frame_checksum(f));
            }
            assert(frame_checksum(f) == c as nat);
            assert(checksum_spec(body2) == c);
            assert(decode_spec(f2) is BadChecksum);
        }
    }
}

} // verus!
