//! Genotype calls and their two-bit codes in the fixed-width layout.

use vstd::prelude::*;

verus! {

/// One decoded genotype.
#[derive(Debug, Clone, Copy, PartialEq, Eq, Structural)]
pub enum GenotypeCall {
    /// Homozygous reference, `0/0`.
    HomRef,
    /// Heterozygous, `0/1`.
    Het,
    /// Homozygous alternate, `1/1`.
    HomAlt,
    /// Missing, `./.`.
    Missing,
}

/// Bytes of one variant's record: two bits for each sample, rounded up.
pub open spec fn record_size(num_samples: int) -> int {
    (2 * num_samples + 7) / 8
}

/// The two-bit code in slot `slot` (0 to 3, from the low bits) of `byte`.
pub open spec fn code_of(byte: u8, slot: int) -> u8 {
    (byte >> ((2 * slot) as u8)) & 3u8
}

/// The code of sample `s` in a record.
pub open spec fn sample_code(rec: Seq<u8>, s: int) -> u8 {
    code_of(rec[s / 4], s % 4)
}

impl GenotypeCall {
    pub open spec fn spec_from_code(code: u8) -> GenotypeCall {
        if code == 0 {
            GenotypeCall::HomRef
        } else if code == 1 {
            GenotypeCall::Het
        } else if code == 2 {
            GenotypeCall::HomAlt
        } else {
            GenotypeCall::Missing
        }
    }

    pub open spec fn spec_text(self) -> Seq<char> {
        match self {
            GenotypeCall::HomRef => "0/0"@,
            GenotypeCall::Het => "0/1"@,
            GenotypeCall::HomAlt => "1/1"@,
            GenotypeCall::Missing => "./."@,
        }
    }

    /// The call that a two-bit code stands for.
    pub fn from_code(code: u8) -> (r: GenotypeCall)
        requires
            code < 4,
        ensures
            r == Self::spec_from_code(code),
    {
        match code {
            0 => GenotypeCall::HomRef,
            1 => GenotypeCall::Het,
            2 => GenotypeCall::HomAlt,
            _ => GenotypeCall::Missing,
        }
    }

    /// The call as written in a variant-call text file.
    pub fn as_str(&self) -> (r: &'static str)
        ensures
            r@ == self.spec_text(),
    {
        match self {
            GenotypeCall::HomRef => "0/0",
            GenotypeCall::Het => "0/1",
            GenotypeCall::HomAlt => "1/1",
            GenotypeCall::Missing => "./.",
        }
    }
}

/// The code in slot `slot` of `byte`.
pub fn extract_code(byte: u8, slot: usize) -> (r: u8)
    requires
        slot < 4,
    ensures
        r == code_of(byte, slot as int),
        r < 4,
{
    let shift: u8 = (slot * 2) as u8;
    let r = (byte >> shift) & 3u8;
    assert(r < 4) by (bit_vector)
        requires
            r == (byte >> shift) & 3u8,
    ;
    r
}

/// Decodes, for each sample index in `samples`, its call in the record `rec`.
pub fn decode_record(rec: &[u8], samples: &Vec<usize>) -> (r: Vec<GenotypeCall>)
    requires
        forall|j: int| 0 <= j < samples.len() ==> #[trigger] samples[j] / 4 < rec@.len(),
    ensures
        r@.len() == samples@.len(),
        forall|j: int|
            0 <= j < samples.len() ==> #[trigger] r[j] == GenotypeCall::spec_from_code(
                sample_code(rec@, samples[j] as int),
            ),
{
    let mut r: Vec<GenotypeCall> = Vec::new();
    for j in 0..samples.len()
        invariant
            forall|k: int| 0 <= k < samples.len() ==> #[trigger] samples[k] / 4 < rec@.len(),
            r@.len() == j,
            forall|k: int|
                0 <= k < j ==> #[trigger] r[k] == GenotypeCall::spec_from_code(
                    sample_code(rec@, samples[k] as int),
                ),
    {
        let s = samples[j];
        let code = extract_code(rec[s / 4], s % 4);
        r.push(GenotypeCall::from_code(code));
    }
    r
}

/// The two-bit codes map onto the four calls one to one: every code has a
/// call, distinct codes have distinct calls, and each call is written as one
/// of `0/0`, `0/1`, `1/1`, `./.`, no two alike.
pub proof fn lemma_code_mapping_total(c1: u8, c2: u8)
    requires
        c1 < 4,
        c2 < 4,
    ensures
        c1 != c2 ==> GenotypeCall::spec_from_code(c1) != GenotypeCall::spec_from_code(c2),
        c1 != c2 ==> GenotypeCall::spec_from_code(c1).spec_text()
            != GenotypeCall::spec_from_code(c2).spec_text(),
        c1 == 0 ==> GenotypeCall::spec_from_code(c1).spec_text() == "0/0"@,
        c1 == 1 ==> GenotypeCall::spec_from_code(c1).spec_text() == "0/1"@,
        c1 == 2 ==> GenotypeCall::spec_from_code(c1).spec_text() == "1/1"@,
        c1 == 3 ==> GenotypeCall::spec_from_code(c1).spec_text() == "./."@,
{
    reveal_strlit("0/0");
    reveal_strlit("0/1");
    reveal_strlit("1/1");
    reveal_strlit("./.");
    assert("0/0"@[0] != "0/1"@[0] || "0/0"@[2] != "0/1"@[2]);
    assert("0/0"@[2] != "1/1"@[2]);
    assert("0/0"@[0] != "./."@[0]);
    assert("0/1"@[0] != "1/1"@[0]);
    assert("0/1"@[0] != "./."@[0]);
    assert("1/1"@[0] != "./."@[0]);
}

/// Every code that a byte holds, in any of its four slots, is one of the four
/// two-bit values.
pub proof fn lemma_code_in_range(byte: u8, slot: int)
    requires
        0 <= slot < 4,
    ensures
        code_of(byte, slot) < 4,
{
    let sh = (2 * slot) as u8;
    assert((byte >> sh) & 3u8 < 4) by (bit_vector);
}

} // verus!
