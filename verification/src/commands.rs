//! Parsing unframed packet payloads into typed commands.
//!
//! Dispatch goes by the leading bytes of the payload: a known literal prefix
//! selects the command, whose body is then parsed on its own. Anything else
//! — an unknown prefix or a malformed body — is the distinguished
//! unsupported outcome, never a failure: a session always survives a bad
//! client packet.

use crate::hex::{all_hex_digits, hex_digit_p, hex_digit_val, hex_value, is_hex_digit,
    lemma_hex_value_prefix_monotone};
use vstd::prelude::*;

verus! {

/// A register-metadata query: the client asks for the description of one
/// register, named by a hex-encoded wire index.
#[derive(Debug, Clone, Copy, PartialEq, Eq)]
#[allow(non_camel_case_types)]
pub struct qRegisterInfo {
    /// The queried register's wire index.
    pub reg_num: u8,
}

impl qRegisterInfo {
    /// The query a body parses to: a non-empty all-hex numeral that fits in
    /// one byte names a register; anything else is invalid.
    pub open spec fn parse_spec(body: Seq<u8>) -> Option<qRegisterInfo> {
        if body.len() > 0 && all_hex_digits(body) && hex_value(body) < 256 {
            Some(qRegisterInfo { reg_num: hex_value(body) as u8 })
        } else {
            None
        }
    }

    /// Parse the body of a register-metadata query. An empty body, a
    /// non-hex byte, or a value beyond one byte is invalid.
    pub fn from_packet(body: &[u8]) -> (r: Option<qRegisterInfo>)
        ensures
            r == Self::parse_spec(body@),
    {
        if body.len() == 0 {
            return None;
        }
        let mut acc: u32 = 0;
        let mut i: usize = 0;
        proof {
            assert(body@.take(0) =~= Seq::<u8>::empty());
        }
        while i < body.len()
            invariant
                i <= body@.len(),
                body@.len() > 0,
                all_hex_digits(body@.take(i as int)),
                acc == hex_value(body@.take(i as int)),
                acc <= 255,
            decreases body@.len() - i,
        {
            let c = body[i];
            if !hex_digit_p(c) {
                proof {
                    assert(!is_hex_digit(body@[i as int]));
                }
                return None;
            }
            let d = hex_digit_val(c);
            acc = acc * 16 + d as u32;
            proof {
                assert(body@.take(i + 1).drop_last() =~= body@.take(i as int));
                assert(body@.take(i + 1).last() == body@[i as int]);
                assert(forall|k: int|
                    0 <= k < i + 1 ==> is_hex_digit(#[trigger] body@.take(i + 1)[k]));
            }
            if acc > 255 {
                proof {
                    lemma_hex_value_prefix_monotone(body@, i + 1);
                    assert(hex_value(body@) >= acc);
                }
                return None;
            }
            i += 1;
        }
        proof {
            assert(body@.take(i as int) =~= body@);
        }
        Some(qRegisterInfo { reg_num: acc as u8 })
    }
}

/// A parsed request, or the unsupported outcome for anything the parser does
/// not recognize.
#[derive(Debug, Clone, Copy, PartialEq, Eq)]
pub enum Command {
    /// A register-metadata query.
    RegisterInfo(qRegisterInfo),
    /// Anything else; answered with the empty packet.
    Unsupported,
}

/// The literal prefix that selects the register-metadata query.
pub open spec fn reg_info_prefix() -> Seq<u8> {
    seq![0x71u8, 0x52u8, 0x65u8, 0x67u8, 0x69u8, 0x73u8, 0x74u8, 0x65u8, 0x72u8, 0x49u8, 0x6eu8,
        0x66u8, 0x6fu8]
}

/// The command any payload parses to. Total: every byte sequence yields
/// either a recognized command or the unsupported outcome.
pub open spec fn parse_command_spec(payload: Seq<u8>) -> Command {
    if payload.len() >= 13 && payload.take(13) == reg_info_prefix() {
        match qRegisterInfo::parse_spec(payload.skip(13)) {
            Some(q) => Command::RegisterInfo(q),
            None => Command::Unsupported,
        }
    } else {
        Command::Unsupported
    }
}

/// Parse one unframed payload into a command; never fails, returning the
/// unsupported outcome for unknown or malformed input.
pub fn parse_command(payload: &[u8]) -> (r: Command)
    ensures
        r == parse_command_spec(payload@),
{
    if payload.len() >= 13 && payload[0] == 0x71 && payload[1] == 0x52 && payload[2] == 0x65
        && payload[3] == 0x67 && payload[4] == 0x69 && payload[5] == 0x73 && payload[6] == 0x74
        && payload[7] == 0x65 && payload[8] == 0x72 && payload[9] == 0x49 && payload[10] == 0x6e
        && payload[11] == 0x66 && payload[12] == 0x6f {
        proof {
            assert(payload@.take(13) =~= reg_info_prefix());
        }
        let body = vstd::slice::slice_subrange(payload, 13, payload.len());
        proof {
            assert(body@ =~= payload@.skip(13));
        }
        match qRegisterInfo::from_packet(body) {
            Some(q) => Command::RegisterInfo(q),
            None => Command::Unsupported,
        }
    } else {
        proof {
            if payload@.len() >= 13 && payload@.take(13) == reg_info_prefix() {
                assert(payload@[0] == payload@.take(13)[0]);
                assert(payload@[1] == payload@.take(13)[1]);
                assert(payload@[2] == payload@.take(13)[2]);
                assert(payload@[3] == payload@.take(13)[3]);
                assert(payload@[4] == payload@.take(13)[4]);
                assert(payload@[5] == payload@.take(13)[5]);
                assert(payload@[6] == payload@.take(13)[6]);
                assert(payload@[7] == payload@.take(13)[7]);
                assert(payload@[8] == payload@.take(13)[8]);
                assert(payload@[9] == payload@.take(13)[9]);
                assert(payload@[10] == payload@.take(13)[10]);
                assert(payload@[11] == payload@.take(13)[11]);
                assert(payload@[12] == payload@.take(13)[12]);
            }
        }
        Command::Unsupported
    }
}

} // verus!
