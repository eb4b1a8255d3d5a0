//! Checksums of content and durations of scripts.

use crate::funscript::{Funscript, FunscriptAction};
use sha2::{Digest, Sha256};
use vstd::prelude::*;

verus! {

/// The SHA-256 digest of `data`.
pub uninterp spec fn sha256(data: Seq<u8>) -> Seq<u8>;

/// `Sha256::digest` of the crate `sha2`: the digest of the bytes given is
/// taken to be a function of those bytes alone, named `sha256`, and to be
/// 32 bytes long, which is the output size of the hasher. Nothing else is
/// claimed of it.
#[verifier::external_body]
fn sha256_digest(data: &[u8]) -> (digest: Vec<u8>)
    ensures
        digest@ == sha256(data@),
        digest@.len() == 32,
{
    Sha256::digest(data).to_vec()
}

/// The lower-case hexadecimal digit for `n`, below sixteen.
pub open spec fn hex_digit(n: nat) -> char {
    if n < 10 {
        ('0' as u32 + n) as char
    } else {
        ('a' as u32 + (n - 10)) as char
    }
}

/// The lower-case hexadecimal form of `bytes`: two digits for each byte,
/// the high half first.
pub open spec fn hex_lower(bytes: Seq<u8>) -> Seq<char> {
    Seq::new(
        2 * bytes.len(),
        |i: int|
            if i % 2 == 0 {
                hex_digit((bytes[i / 2] / 16) as nat)
            } else {
                hex_digit((bytes[i / 2] % 16) as nat)
            },
    )
}

fn hex_digit_of(n: u8) -> (c: char)
    requires
        n < 16,
    ensures
        c == hex_digit(n as nat),
{
    if n == 0 {
        '0'
    } else if n == 1 {
        '1'
    } else if n == 2 {
        '2'
    } else if n == 3 {
        '3'
    } else if n == 4 {
        '4'
    } else if n == 5 {
        '5'
    } else if n == 6 {
        '6'
    } else if n == 7 {
        '7'
    } else if n == 8 {
        '8'
    } else if n == 9 {
        '9'
    } else if n == 10 {
        'a'
    } else if n == 11 {
        'b'
    } else if n == 12 {
        'c'
    } else if n == 13 {
        'd'
    } else if n == 14 {
        'e'
    } else {
        'f'
    }
}

/// Puts the lower-case hexadecimal form of `bytes` at the end of `out`.
pub fn push_hex(out: &mut String, bytes: &Vec<u8>)
    ensures
        final(out)@ == old(out)@ + hex_lower(bytes@),
{
    let n: usize = bytes.len();
    let mut i: usize = 0;
    assert(out@ =~= old(out)@ + hex_lower(bytes@.take(0)));
    while i < n
        invariant
            i <= n == bytes.len(),
            out@ == old(out)@ + hex_lower(bytes@.take(i as int)),
        decreases n - i,
    {
        let b: u8 = bytes[i];
        out.push(hex_digit_of(b / 16));
        out.push(hex_digit_of(b % 16));
        assert(out@ =~= old(out)@ + hex_lower(bytes@.take(i + 1)));
        i = i + 1;
    }
    assert(bytes@.take(n as int) =~= bytes@);
}

/// The SHA-256 digest of `data` in lower-case hexadecimal: 64 digits.
pub fn get_hash_string(data: &[u8]) -> (hash: String)
    ensures
        hash@ == hex_lower(sha256(data@)),
        hash@.len() == 64,
{
    let digest = sha256_digest(data);
    let mut hash = String::new();
    push_hex(&mut hash, &digest);
    assert(hash@ =~= hex_lower(sha256(data@)));
    hash
}

/// Why a duration could not be had.
#[derive(Debug, Clone, PartialEq)]
pub enum GetDurationError {
    /// Reading failed; the text says how.
    Io(String),
    /// The probe's answer is no number; the text says why.
    ParseFloat(String),
    /// The script is no funscript; the text says why.
    SerdeJson(String),
    /// The probe failed; the text is what it reported.
    Ffprobe(String),
    /// The script has no action.
    FunscriptMissingActions,
}

/// The greatest time among `actions`; zero where there is none.
pub open spec fn greatest_action_time(actions: Seq<FunscriptAction>) -> u64
    decreases actions.len(),
{
    if actions.len() == 0 {
        0
    } else {
        let rest = greatest_action_time(actions.drop_last());
        if actions.last().at > rest {
            actions.last().at
        } else {
            rest
        }
    }
}

/// `greatest_action_time` is the time of one of the actions, and none is
/// greater.
pub proof fn lemma_greatest_action_time(actions: Seq<FunscriptAction>)
    requires
        actions.len() > 0,
    ensures
        exists|i: int| 0 <= i < actions.len() && actions[i].at == greatest_action_time(actions),
        forall|i: int| 0 <= i < actions.len() ==> actions[i].at <= greatest_action_time(actions),
    decreases actions.len(),
{
    let rest = actions.drop_last();
    if rest.len() == 0 {
        assert(actions[0].at == greatest_action_time(actions));
    } else {
        lemma_greatest_action_time(rest);
        let k = choose|i: int| 0 <= i < rest.len() && rest[i].at == greatest_action_time(rest);
        if actions.last().at > greatest_action_time(rest) {
            assert(actions[actions.len() - 1].at == greatest_action_time(actions));
        } else {
            assert(actions[k] == rest[k]);
        }
        assert forall|i: int| 0 <= i < actions.len() implies actions[i].at <= greatest_action_time(
            actions,
        ) by {
            if i < rest.len() {
                assert(actions[i] == rest[i]);
            }
        }
    }
}

/// The duration of a script in milliseconds: the greatest time among its
/// actions, in whatever order they stand. A script without actions has
/// none.
pub fn get_funscript_duration(funscript: &Funscript) -> (r: Result<u64, GetDurationError>)
    ensures
        funscript.actions@.len() == 0 ==> r == Err::<u64, GetDurationError>(
            GetDurationError::FunscriptMissingActions,
        ),
        funscript.actions@.len() > 0 ==> r == Ok::<u64, GetDurationError>(
            greatest_action_time(funscript.actions@),
        ),
{
    let n: usize = funscript.actions.len();
    if n == 0 {
        return Err(GetDurationError::FunscriptMissingActions);
    }
    let mut best: u64 = 0;
    let mut i: usize = 0;
    assert(funscript.actions@.take(0) =~= Seq::<FunscriptAction>::empty());
    while i < n
        invariant
            i <= n == funscript.actions.len(),
            best == greatest_action_time(funscript.actions@.take(i as int)),
        decreases n - i,
    {
        assert(funscript.actions@.take(i + 1).drop_last() =~= funscript.actions@.take(i as int));
        if funscript.actions[i].at > best {
            best = funscript.actions[i].at;
        }
        i = i + 1;
    }
    assert(funscript.actions@.take(n as int) =~= funscript.actions@);
    Ok(best)
}

} // verus!
