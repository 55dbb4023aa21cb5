//! Content identity.
//!
//! Object identity != content identity. Two hardlinks share an
//! [`crate::model::ids::ObjectId`] and a fingerprint; two copies share only
//! the fingerprint.

use crate::determinism::{canonical_cmp, lex_cmp};
use std::cmp::Ordering;
use vstd::prelude::*;

verus! {

/// Algorithm tag recorded with every result. A result is never interpretable
/// without it, because a future version may change the hash.
pub const FINGERPRINT_ALGORITHM: &'static str = "blake3";

/// Bumped whenever the bytes fed to the hash change (range policy, salt, ...).
pub const FINGERPRINT_ALGORITHM_VERSION: u32 = 1;

/// A full-content digest.
///
/// Its derived ordering compares the byte arrays lexicographically, which is
/// exactly [`Fingerprint::cmp_bytes`].
#[derive(Clone, Copy, PartialEq, Eq, Hash, PartialOrd, Ord, Debug)]
pub struct Fingerprint {
    pub bytes: [u8; 32],
}

impl Fingerprint {
    /// The all-zero digest.
    pub fn zero() -> (r: Fingerprint)
        ensures
            forall|i: int| 0 <= i < 32 ==> r.bytes@[i] == 0,
    {
        Fingerprint { bytes: [0u8; 32] }
    }

    /// Byte-level ordering. This is the only ordering used for deterministic
    /// output; never sort fingerprints with a locale-aware comparison.
    pub fn cmp_bytes(&self, other: &Self) -> (r: Ordering)
        ensures
            r == lex_cmp(self.bytes@, other.bytes@),
    {
        canonical_cmp(self.bytes.as_slice(), other.bytes.as_slice())
    }

    /// The rendering of a fingerprint in diagnostics: `Fingerprint(` followed
    /// by the lowercase hex of its first eight bytes and `…)`.
    pub fn debug_string(&self) -> (r: String)
        ensures
            r@ == "Fingerprint("@ + hex_of(self.bytes@.take(8)) + "…)"@,
    {
        let mut s = String::from_str("Fingerprint(");
        let hex = hex_prefix(self.bytes.as_slice(), 8);
        s.append(hex.as_str());
        s.append("…)");
        s
    }
}

/// Lowercase hexadecimal digit of a value below sixteen.
pub open spec fn hex_digit(d: int) -> char {
    "0123456789abcdef"@[d]
}

/// Two lowercase hexadecimal digits per byte, high nibble first.
pub open spec fn hex_of(bytes: Seq<u8>) -> Seq<char>
    decreases bytes.len(),
{
    if bytes.len() == 0 {
        Seq::empty()
    } else {
        hex_of(bytes.drop_last()) + seq![
            hex_digit(bytes.last() as int / 16),
            hex_digit(bytes.last() as int % 16),
        ]
    }
}

/// Lowercase hex of the first `n` bytes (all of them when there are fewer).
pub(crate) fn hex_prefix(bytes: &[u8], n: usize) -> (r: String)
    ensures
        r@ == hex_of(bytes@.take(if n < bytes@.len() { n as int } else { bytes@.len() as int })),
{
    let digits = "0123456789abcdef";
    proof {
        reveal_strlit("0123456789abcdef");
    }
    let end = if n < bytes.len() {
        n
    } else {
        bytes.len()
    };
    let mut s = String::new();
    let mut i: usize = 0;
    while i < end
        invariant
            i <= end,
            end <= bytes@.len(),
            end == (if n < bytes@.len() { n as int } else { bytes@.len() as int }),
            digits@ == "0123456789abcdef"@,
            digits.is_ascii(),
            digits@.len() == 16,
            s@ == hex_of(bytes@.take(i as int)),
        decreases end - i,
    {
        let b = bytes[i];
        let hi = (b >> 4u8) as usize;
        let lo = (b & 0x0fu8) as usize;
        assert(b >> 4u8 == b / 16 && b & 0x0fu8 == b % 16) by (bit_vector);
        s.append(digits.substring_ascii(hi, hi + 1));
        s.append(digits.substring_ascii(lo, lo + 1));
        proof {
            let t = bytes@.take(i + 1);
            assert(t.drop_last() =~= bytes@.take(i as int));
            assert(t.last() == b);
            assert(digits@.subrange(hi as int, hi + 1) =~= seq![hex_digit(b as int / 16)]);
            assert(digits@.subrange(lo as int, lo + 1) =~= seq![hex_digit(b as int % 16)]);
            assert(s@ =~= hex_of(t));
        }
        i += 1;
    }
    s
}

/// What a `Fingerprint` node actually computes.
///
/// `Partial` parameters are tunable strategy, **not** API contract: they may
/// change after any benchmark without a contract revision.
#[derive(Clone, Copy, PartialEq, Eq, Structural, Debug)]
pub enum FingerprintSpec {
    /// Cheap pre-filter, e.g. first + last 4 KiB.
    Partial { prefix_bytes: u32, suffix_bytes: u32 },
    /// Whole content digest.
    Full,
}

impl Default for FingerprintSpec {
    /// The cheap pre-filter over the first and last 4 KiB.
    fn default() -> (r: Self)
        ensures
            r == (FingerprintSpec::Partial { prefix_bytes: 4096, suffix_bytes: 4096 }),
    {
        FingerprintSpec::Partial { prefix_bytes: 4096, suffix_bytes: 4096 }
    }
}

/// How strict the safety policy is. This version is read-only, so only
/// `Hash` runs; `ByteExact` exists so that a future destructive action has
/// somewhere to go.
#[derive(Clone, Copy, PartialEq, Eq, Structural, Debug, Default)]
pub enum VerificationMode {
    #[default]
    Hash,
    ByteExact,
}

/// How a match was established.
///
/// A BLAKE3 match is an engineering-grade fingerprint, **not** a proof of
/// byte equality. Callers must read this field before claiming "identical".
#[derive(Clone, Copy, PartialEq, Eq, Structural, Hash, Debug)]
pub enum VerificationStatus {
    /// Same size, same full digest, metadata stable across both passes.
    HashMatched,
    /// Additionally compared byte-for-byte.
    ByteExactVerified,
    /// Metadata changed between passes: never a confirmed duplicate.
    ChangedDuringScan,
    /// Content could not be read.
    Unreadable,
    /// Not (yet) verified, e.g. cancelled mid-pass.
    Unverified,
}

impl VerificationStatus {
    /// Confirmed means hash-matched or byte-exact verified.
    pub open spec fn spec_is_confirmed(self) -> bool {
        self == VerificationStatus::HashMatched || self == VerificationStatus::ByteExactVerified
    }

    /// True only when the result may be presented as a confirmed duplicate.
    pub fn is_confirmed(&self) -> (r: bool)
        ensures
            r == self.spec_is_confirmed(),
    {
        matches!(self, VerificationStatus::HashMatched | VerificationStatus::ByteExactVerified)
    }
}

/// Only a hash match or a byte-exact check confirms a duplicate: a result
/// that changed during the scan, could not be read, or is not verified yet
/// is never confirmed.
pub proof fn lemma_confirmed_statuses()
    ensures
        VerificationStatus::HashMatched.spec_is_confirmed(),
        VerificationStatus::ByteExactVerified.spec_is_confirmed(),
        !VerificationStatus::ChangedDuringScan.spec_is_confirmed(),
        !VerificationStatus::Unreadable.spec_is_confirmed(),
        !VerificationStatus::Unverified.spec_is_confirmed(),
{
}

} // verus!
