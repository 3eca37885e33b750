//! Startup configuration, resolved once from the environment's values.
//!
//! The process reads its environment at startup and hands the raw values
//! here; defaults and parsing are decided in one place.

use vstd::prelude::*;

verus! {

use vstd::string::StringExecFns;
use crate::text::chars_of;

/// The digit value of a decimal character.
pub open spec fn char_digit(c: char) -> nat {
    if c == '0' {
        0
    } else if c == '1' {
        1
    } else if c == '2' {
        2
    } else if c == '3' {
        3
    } else if c == '4' {
        4
    } else if c == '5' {
        5
    } else if c == '6' {
        6
    } else if c == '7' {
        7
    } else if c == '8' {
        8
    } else {
        9
    }
}

/// Whether every character is a decimal digit (and there is at least one).
pub open spec fn is_dec_digits(s: Seq<char>) -> bool {
    s.len() > 0 && forall|i: int| 0 <= i < s.len() ==> '0' <= #[trigger] s[i] <= '9'
}

/// The value of a digit string, leading zeros allowed.
pub open spec fn dec_value(s: Seq<char>) -> nat
    decreases s.len(),
{
    if s.len() == 0 {
        0
    } else {
        dec_value(s.drop_last()) * 10 + char_digit(s.last())
    }
}

/// What `u64` parsing accepts, as the standard library does: an optional
/// leading `+`, then decimal digits whose value fits 64 bits.
pub open spec fn parse_u64_spec(s: Seq<char>) -> Option<nat> {
    let digits = if s.len() > 0 && s[0] == '+' {
        s.drop_first()
    } else {
        s
    };
    if is_dec_digits(digits) && dec_value(digits) <= u64::MAX {
        Some(dec_value(digits))
    } else {
        None
    }
}

/// A prefix of a digit string never exceeds the whole string's value.
proof fn lemma_dec_value_prefix(s: Seq<char>, i: int)
    requires
        0 <= i <= s.len(),
    ensures
        dec_value(s.take(i)) <= dec_value(s),
    decreases s.len() - i,
{
    if i < s.len() {
        lemma_dec_value_prefix(s.drop_last(), i);
        assert(s.drop_last().take(i) =~= s.take(i));
        assert(dec_value(s) >= dec_value(s.drop_last()));
    } else {
        assert(s.take(i) =~= s);
    }
}

/// Parse a decimal `u64` as the standard library would.
pub fn parse_u64_dec(s: &str) -> (r: Option<u64>)
    ensures
        r matches Some(v) ==> parse_u64_spec(s@) == Some(v as nat),
        r is None ==> parse_u64_spec(s@) is None,
{
    let cs = chars_of(s);
    let ghost digits_spec = if s@.len() > 0 && s@[0] == '+' {
        s@.drop_first()
    } else {
        s@
    };
    let start: usize = if cs.len() > 0 && cs[0] == '+' {
        1
    } else {
        0
    };
    proof {
        assert(digits_spec =~= s@.skip(start as int));
    }
    if cs.len() == start {
        return None;
    }
    let mut acc: u64 = 0;
    let mut i: usize = start;
    while i < cs.len()
        invariant
            cs@ == s@,
            start <= i <= cs@.len(),
            digits_spec == s@.skip(start as int),
            digits_spec == (if s@.len() > 0 && s@[0] == '+' {
                s@.drop_first()
            } else {
                s@
            }),
            forall|k: int| start <= k < i ==> '0' <= #[trigger] s@[k] <= '9',
            acc as nat == dec_value(s@.skip(start as int).take(i - start)),
        decreases cs@.len() - i,
    {
        let c = cs[i];
        if !('0' <= c && c <= '9') {
            proof {
                assert(digits_spec[i - start] == s@[i as int]);
                assert(!is_dec_digits(digits_spec));
            }
            return None;
        }
        let d: u64 = digit_value(c);
        if acc > (u64::MAX - d) / 10 {
            proof {
                let taken = s@.skip(start as int).take(i + 1 - start as int);
                assert(taken.drop_last() =~= s@.skip(start as int).take(i - start));
                assert(taken.last() == s@[i as int]);
                assert(dec_value(taken) == acc as nat * 10 + char_digit(s@[i as int]));
                assert(dec_value(taken) > u64::MAX);
                lemma_dec_value_prefix(s@.skip(start as int), i + 1 - start as int);
                assert(dec_value(digits_spec) > u64::MAX);
            }
            return None;
        }
        acc = acc * 10 + d;
        proof {
            let taken = s@.skip(start as int).take(i + 1 - start as int);
            assert(taken.drop_last() =~= s@.skip(start as int).take(i - start));
            assert(taken.last() == s@[i as int]);
        }
        i = i + 1;
    }
    proof {
        assert(s@.skip(start as int).take(i - start) =~= s@.skip(start as int));
        assert(is_dec_digits(digits_spec));
    }
    Some(acc)
}

/// The digit value of a decimal character.
fn digit_value(c: char) -> (d: u64)
    requires
        '0' <= c && c <= '9',
    ensures
        d < 10,
        d as nat == char_digit(c),
{
    if c == '0' {
        0
    } else if c == '1' {
        1
    } else if c == '2' {
        2
    } else if c == '3' {
        3
    } else if c == '4' {
        4
    } else if c == '5' {
        5
    } else if c == '6' {
        6
    } else if c == '7' {
        7
    } else if c == '8' {
        8
    } else {
        9
    }
}

/// The agent's startup configuration.
pub struct Config {
    /// Who this enclave says it is, in the handshake and in logs.
    pub enclave_id: String,
    /// The workload lifecycle policy's name, as configured.
    pub workload_type: String,
    /// Seconds between service health ticks.
    pub health_interval: u64,
}

/// Resolve the configuration from the raw environment values: a missing
/// enclave ID is `unknown`, a missing workload type is `batch`, and a
/// missing or unparsable health interval is 30 seconds.
pub fn resolve_config(
    enclave_id: Option<String>,
    workload_type: Option<String>,
    health_interval: Option<String>,
) -> (c: Config)
    ensures
        c.enclave_id@ == (match enclave_id {
            Some(s) => s@,
            None => "unknown"@,
        }),
        c.workload_type@ == (match workload_type {
            Some(s) => s@,
            None => "batch"@,
        }),
        c.health_interval as nat == (match health_interval {
            Some(s) => match parse_u64_spec(s@) {
                Some(v) => v,
                None => 30,
            },
            None => 30,
        }),
{
    let enclave_id = match enclave_id {
        Some(s) => s,
        None => String::from_str("unknown"),
    };
    let workload_type = match workload_type {
        Some(s) => s,
        None => String::from_str("batch"),
    };
    let health_interval: u64 = match health_interval {
        Some(s) => match parse_u64_dec(s.as_str()) {
            Some(v) => v,
            None => 30,
        },
        None => 30,
    };
    Config { enclave_id, workload_type, health_interval }
}

} // verus!
