//! The fixed preamble of a genotype container, and the header of its
//! general (variable-width) layout: the variant block offset table and the
//! packed record-type and record-length arrays.

use vstd::prelude::*;

use crate::bytes::{le_u32, le_u64, read_le_u32, read_le_u64};
use crate::error::{FormatError, IoFault, PgenError};

verus! {

/// First byte of the container's magic number.
pub const MAGIC_0: u8 = 0x6c;

/// Second byte of the container's magic number.
pub const MAGIC_1: u8 = 0x1b;

/// Storage mode of the fixed-width layout: two bits per genotype.
pub const SIMPLE_MODE: u8 = 0x02;

/// Storage mode of the general layout, with an offset table and a header body.
pub const GENERAL_MODE: u8 = 0x10;

/// The only flags byte that the fixed-width layout may carry.
pub const SIMPLE_FLAGS: u8 = 0x40;

/// Size of the fixed preamble in bytes.
pub const PREAMBLE_SIZE: u64 = 12;

/// Number of variants in one block of the general layout.
pub const VARIANT_BLOCK_SIZE: u64 = 65536;

/// The first fault of the preamble `b`, read in file order: the magic number,
/// the storage mode (the general layout, or with `general_only` unset also
/// the fixed-width one), then the two counts and the flags byte.
pub open spec fn preamble_fault(b: Seq<u8>, general_only: bool) -> Option<PgenError> {
    if b.len() < 2 {
        Some(PgenError::Io(IoFault::UnexpectedEof))
    } else if b[0] != MAGIC_0 || b[1] != MAGIC_1 {
        Some(PgenError::Format(FormatError::BadMagic))
    } else if b.len() < 3 {
        Some(PgenError::Io(IoFault::UnexpectedEof))
    } else if !(b[2] == GENERAL_MODE || (!general_only && b[2] == SIMPLE_MODE)) {
        Some(PgenError::Format(FormatError::UnsupportedMode))
    } else if b.len() < 12 {
        Some(PgenError::Io(IoFault::UnexpectedEof))
    } else {
        None
    }
}

/// Checks the magic number, the storage mode and the length of the preamble.
/// With `general_only` only the general layout is admitted, else the
/// fixed-width one too.
pub fn check_preamble(b: &[u8], general_only: bool) -> (r: Result<(), PgenError>)
    ensures
        r is Ok <==> preamble_fault(b@, general_only) is None,
        r matches Err(e) ==> preamble_fault(b@, general_only) == Some(e),
{
    if b.len() < 2 {
        return Err(PgenError::Io(IoFault::UnexpectedEof));
    }
    if b[0] != MAGIC_0 || b[1] != MAGIC_1 {
        return Err(PgenError::Format(FormatError::BadMagic));
    }
    if b.len() < 3 {
        return Err(PgenError::Io(IoFault::UnexpectedEof));
    }
    if !(b[2] == GENERAL_MODE || (!general_only && b[2] == SIMPLE_MODE)) {
        return Err(PgenError::Format(FormatError::UnsupportedMode));
    }
    if b.len() < 12 {
        return Err(PgenError::Io(IoFault::UnexpectedEof));
    }
    Ok(())
}

/// Whether a general-layout format byte is read here: the provisional
/// reference flag (bits 6-7) is 1 and the record-type width selector
/// (bits 2-3) is 0 or 1.
pub open spec fn format_byte_ok(fb: u8) -> bool {
    fb / 64 == 1 && (fb % 16) / 4 <= 1
}

/// Width in bits of one packed record type.
pub open spec fn type_bits_of(fb: u8) -> int {
    if (fb % 16) / 4 == 0 {
        4
    } else {
        8
    }
}

/// Width in bytes of one record length.
pub open spec fn length_bytes_of(fb: u8) -> int {
    (fb % 16) % 4 + 1
}

/// Number of variant blocks for `nv` variants.
pub open spec fn block_count(nv: int) -> int {
    (nv + VARIANT_BLOCK_SIZE - 1) / VARIANT_BLOCK_SIZE as int
}

/// Size in bytes of the header body: the packed record types, padded to a
/// byte, then the record lengths.
pub open spec fn body_size(nv: int, bits: int, lbytes: int) -> int {
    (nv * bits + 7) / 8 + nv * lbytes
}

/// Size in bytes of the header body part of one block of `c` variants.
pub open spec fn block_body_size(c: int, bits: int, lbytes: int) -> int {
    (c * bits + 7) / 8 + c * lbytes
}

/// The offsets table of `n` entries at `at` is strictly ascending.
pub open spec fn offsets_ascending(b: Seq<u8>, at: int, n: int) -> bool {
    forall|k: int| 0 <= k < n - 1 ==> #[trigger] le_u64(b, at + 8 * k) < le_u64(b, at + 8 * k + 8)
}

/// The first fault of a general-layout container `b`, in the order in which
/// it is read: preamble, format byte, offset table (first its length, then
/// its order), header body.
pub open spec fn general_fault(b: Seq<u8>) -> Option<PgenError> {
    if preamble_fault(b, true) is Some {
        preamble_fault(b, true)
    } else if !format_byte_ok(b[11]) {
        Some(PgenError::Format(FormatError::UnsupportedFlags))
    } else {
        let n = block_count(le_u32(b, 3));
        if b.len() < 12 + 8 * n {
            Some(PgenError::Io(IoFault::UnexpectedEof))
        } else if !offsets_ascending(b, 12, n) {
            Some(PgenError::Format(FormatError::UnorderedOffsets))
        } else if b.len() < 12 + 8 * n + body_size(
            le_u32(b, 3),
            type_bits_of(b[11]),
            length_bytes_of(b[11]),
        ) {
            Some(PgenError::Io(IoFault::UnexpectedEof))
        } else {
            None
        }
    }
}

proof fn lemma_block_sizes(nv: int, bits: int, lb: int)
    requires
        0 < nv,
        bits == 4 || bits == 8,
        1 <= lb <= 4,
    ensures
        ({
            let n = block_count(nv);
            let last = nv - 65536 * (n - 1);
            &&& 1 <= n
            &&& 0 < last <= 65536
            &&& body_size(nv, bits, lb) == (n - 1) * block_body_size(65536, bits, lb)
                + block_body_size(last, bits, lb)
        }),
{
    let n = block_count(nv);
    let last = nv - 65536 * (n - 1);
    assert(1 <= n && 0 < last <= 65536) by (nonlinear_arith)
        requires
            n == (nv + 65535) / 65536,
            last == nv - 65536 * (n - 1),
            0 < nv,
    ;
    assert(block_body_size(65536, bits, lb) == 8192 * bits + 65536 * lb);
    assert((nv * bits + 7) / 8 == (n - 1) * 8192 * bits + (last * bits + 7) / 8)
        by (nonlinear_arith)
        requires
            nv == 65536 * (n - 1) + last,
            0 < last,
            1 <= n,
            bits == 4 || bits == 8,
    ;
    assert(nv * lb == (n - 1) * 65536 * lb + last * lb) by (nonlinear_arith)
        requires
            nv == 65536 * (n - 1) + last,
    ;
    assert((n - 1) * (8192 * bits + 65536 * lb) == (n - 1) * 8192 * bits + (n - 1) * 65536
        * lb) by (nonlinear_arith);
}

/// The header of a container in the general layout.
pub struct Pgen {
    pub file_path: String,
    pub storage_mode: u8,
    pub variant_count: u32,
    pub sample_count: u32,
    pub record_type_bits: u8,
    pub record_length_bytes: u8,
    pub allele_count_bytes: u8,
    pub provisional_ref_storage: u8,
}

impl Pgen {
    /// The widths are those that a format byte can select.
    pub open spec fn wf(&self) -> bool {
        &&& (self.record_type_bits == 4 || self.record_type_bits == 8)
        &&& 1 <= self.record_length_bytes <= 4
    }

    /// The header fields are those that the preamble `b` holds.
    pub open spec fn describes(&self, b: Seq<u8>) -> bool {
        &&& self.storage_mode == b[2]
        &&& self.variant_count == le_u32(b, 3)
        &&& self.sample_count == le_u32(b, 7)
        &&& self.record_type_bits == type_bits_of(b[11])
        &&& self.record_length_bytes == length_bytes_of(b[11])
        &&& self.allele_count_bytes == (b[11] / 16) % 4
        &&& self.provisional_ref_storage == b[11] / 64
    }

    pub open spec fn spec_block_count(&self) -> int {
        block_count(self.variant_count as int)
    }

    pub open spec fn spec_body_offset(&self) -> int {
        12 + 8 * self.spec_block_count()
    }

    pub open spec fn spec_body_size(&self) -> int {
        body_size(
            self.variant_count as int,
            self.record_type_bits as int,
            self.record_length_bytes as int,
        )
    }

    pub open spec fn spec_records_offset(&self) -> int {
        self.spec_body_offset() + self.spec_body_size()
    }

    /// Reads and validates the header of a general-layout container whose
    /// bytes are `b`; `file_path` names the file for later reference.
    pub fn from_bytes(file_path: String, b: &[u8]) -> (r: Result<Pgen, PgenError>)
        ensures
            r is Ok <==> general_fault(b@) is None,
            r matches Err(e) ==> general_fault(b@) == Some(e),
            r matches Ok(p) ==> p.wf() && p.describes(b@) && p.file_path == file_path,
    {
        match check_preamble(b, true) {
            Ok(()) => {},
            Err(e) => {
                return Err(e);
            },
        }
        let storage_mode = b[2];
        let variant_count = read_le_u32(b, 3);
        let sample_count = read_le_u32(b, 7);
        let format_byte = b[11];
        let record_storage_mode = format_byte % 16;
        let allele_count_bytes = (format_byte / 16) % 4;
        let provisional_ref_storage = format_byte / 64;
        if provisional_ref_storage != 1 || record_storage_mode / 4 > 1 {
            return Err(PgenError::Format(FormatError::UnsupportedFlags));
        }
        let record_type_bits: u8 = if record_storage_mode / 4 == 0 {
            4
        } else {
            8
        };
        let record_length_bytes: u8 = record_storage_mode % 4 + 1;
        let pgen = Pgen {
            file_path,
            storage_mode,
            variant_count,
            sample_count,
            record_type_bits,
            record_length_bytes,
            allele_count_bytes,
            provisional_ref_storage,
        };
        let body_offset = match pgen.check_variant_block_offsets(b, pgen.variant_block_offsets_offset()) {
            Ok(o) => o,
            Err(e) => {
                return Err(e);
            },
        };
        match pgen.check_main_header_body(b, body_offset) {
            Ok(_) => Ok(pgen),
            Err(e) => Err(e),
        }
    }

    pub fn variant_block_count(&self) -> (r: u64)
        ensures
            r == self.spec_block_count(),
    {
        (self.variant_count as u64 + VARIANT_BLOCK_SIZE - 1) / VARIANT_BLOCK_SIZE
    }

    pub fn variant_block_offsets_offset(&self) -> (r: u64)
        ensures
            r == PREAMBLE_SIZE,
    {
        PREAMBLE_SIZE
    }

    pub fn variant_block_offsets_size(&self) -> (r: u64)
        ensures
            r == 8 * self.spec_block_count(),
    {
        self.variant_block_count() * 8
    }

    pub fn main_header_body_offset(&self) -> (r: u64)
        ensures
            r == self.spec_body_offset(),
    {
        self.variant_block_offsets_offset() + self.variant_block_offsets_size()
    }

    pub fn main_header_body_size(&self) -> (r: u64)
        requires
            self.wf(),
        ensures
            r == self.spec_body_size(),
    {
        let nv = self.variant_count as u64;
        let bits = self.record_type_bits as u64;
        // record types are 4 or 8 bits wide: at most half a byte of padding
        assert(nv * bits <= 8 * 4294967295) by (nonlinear_arith)
            requires
                nv <= 4294967295,
                bits <= 8,
        ;
        assert(nv * self.record_length_bytes as u64 <= 4 * 4294967295) by (nonlinear_arith)
            requires
                nv <= 4294967295,
                self.record_length_bytes <= 4,
        ;
        let mut all_record_types_size: u64 = nv * bits;
        if all_record_types_size % 8 != 0 {
            all_record_types_size = all_record_types_size + 4;
        }
        assert(all_record_types_size / 8 == (nv * bits + 7) / 8) by (nonlinear_arith)
            requires
                bits == 4 || bits == 8,
                all_record_types_size == if (nv * bits) % 8 != 0 {
                    nv * bits + 4
                } else {
                    nv * bits
                },
        ;
        all_record_types_size = all_record_types_size / 8;
        let all_record_lengths_size = nv * self.record_length_bytes as u64;
        all_record_types_size + all_record_lengths_size
    }

    proof fn lemma_header_bounded(&self)
        requires
            self.wf(),
        ensures
            self.spec_block_count() <= 65536,
            self.spec_body_size() <= 5 * 4294967295,
    {
        let nv = self.variant_count as int;
        let bits = self.record_type_bits as int;
        let lb = self.record_length_bytes as int;
        assert(body_size(nv, bits, lb) <= 5 * 4294967295) by (nonlinear_arith)
            requires
                0 <= nv <= 4294967295,
                0 <= bits <= 8,
                0 <= lb <= 4,
        ;
    }

    pub fn variant_records_offset(&self) -> (r: u64)
        requires
            self.wf(),
        ensures
            r == self.spec_records_offset(),
    {
        proof {
            self.lemma_header_bounded();
        }
        self.main_header_body_offset() + self.main_header_body_size()
    }

    /// Reads the variant block offset table at `offset` and checks that it is
    /// strictly ascending; returns the position just past it.
    fn check_variant_block_offsets(&self, b: &[u8], offset: u64) -> (r: Result<u64, PgenError>)
        requires
            offset == PREAMBLE_SIZE,
        ensures
            b@.len() < offset + 8 * self.spec_block_count() ==> r == Err::<u64, PgenError>(
                PgenError::Io(IoFault::UnexpectedEof),
            ),
            b@.len() >= offset + 8 * self.spec_block_count() ==> (r is Ok <==> offsets_ascending(
                b@,
                offset as int,
                self.spec_block_count(),
            )),
            r matches Err(e) ==> b@.len() < offset + 8 * self.spec_block_count() || e
                == PgenError::Format(FormatError::UnorderedOffsets),
            r matches Ok(end) ==> end == offset + 8 * self.spec_block_count(),
    {
        let n = self.variant_block_count();
        let end = offset + n * 8;
        if (b.len() as u64) < end {
            return Err(PgenError::Io(IoFault::UnexpectedEof));
        }
        if n == 0 {
            return Ok(end);
        }
        let mut prev = read_le_u64(b, offset as usize);
        let mut k: u64 = 1;
        while k < n
            invariant
                1 <= k <= n,
                n == self.spec_block_count(),
                offset == PREAMBLE_SIZE,
                end == offset + 8 * n,
                end <= b@.len(),
                prev == le_u64(b@, offset + 8 * (k - 1)),
                forall|j: int| 0 <= j < k - 1 ==> #[trigger] le_u64(b@, offset + 8 * j) < le_u64(
                    b@,
                    offset + 8 * j + 8,
                ),
            decreases n - k,
        {
            let at: u64 = offset + 8 * k;
            let cur = read_le_u64(b, at as usize);
            let ghost j: int = k - 1;
            assert(offset + 8 * j + 8 == at);
            if !(prev < cur) {
                assert(le_u64(b@, offset + 8 * j) >= le_u64(b@, offset + 8 * j + 8));
                assert(!offsets_ascending(b@, offset as int, n as int));
                return Err(PgenError::Format(FormatError::UnorderedOffsets));
            }
            prev = cur;
            k = k + 1;
        }
        assert(offsets_ascending(b@, offset as int, n as int));
        Ok(end)
    }

    /// Walks the header body from `offset` block by block, each block a
    /// packed array of record types followed by one of record lengths, and
    /// returns the position where the variant records begin.
    fn check_main_header_body(&self, b: &[u8], offset: u64) -> (r: Result<u64, PgenError>)
        requires
            self.wf(),
            offset == self.spec_body_offset(),
            offset <= b@.len(),
        ensures
            r is Ok <==> b@.len() >= offset + self.spec_body_size(),
            r matches Ok(end) ==> end == offset + self.spec_body_size(),
            r matches Err(e) ==> e == PgenError::Io(IoFault::UnexpectedEof),
    {
        let n_blocks = self.variant_block_count();
        let nv = self.variant_count as u64;
        let bits = self.record_type_bits as u64;
        let lb = self.record_length_bytes as u64;
        let ghost full = block_body_size(65536, bits as int, lb as int);
        if nv > 0 {
            proof {
                lemma_block_sizes(nv as int, bits as int, lb as int);
            }
        }
        let mut pos: u64 = offset;
        let mut block: u64 = 0;
        while block < n_blocks
            invariant
                self.wf(),
                n_blocks == self.spec_block_count(),
                nv == self.variant_count,
                bits == self.record_type_bits,
                lb == self.record_length_bytes,
                full == 8192 * bits + 65536 * lb,
                nv == 0 ==> n_blocks == 0 && self.spec_body_size() == 0,
                nv > 0 ==> self.spec_body_size() == (n_blocks - 1) * full + block_body_size(
                    nv - 65536 * (n_blocks - 1),
                    bits as int,
                    lb as int,
                ),
                nv > 0 ==> 0 < nv - 65536 * (n_blocks - 1) <= 65536,
                n_blocks <= 65536,
                offset <= 12 + 8 * 65536,
                block <= n_blocks,
                block < n_blocks ==> pos == offset + block * full,
                block == n_blocks ==> pos == offset + self.spec_body_size(),
                pos <= b@.len(),
            decreases n_blocks - block,
        {
            let is_last = block == n_blocks - 1;
            let block_variant_count: u64 = if is_last {
                nv - VARIANT_BLOCK_SIZE * (n_blocks - 1)
            } else {
                VARIANT_BLOCK_SIZE
            };
            assert(block_variant_count * bits <= 65536 * 8 && block_variant_count * lb <= 65536
                * 4) by (nonlinear_arith)
                requires
                    block_variant_count <= 65536,
                    bits <= 8,
                    lb <= 4,
            ;
            let mut types_block_size: u64 = block_variant_count * bits;
            if types_block_size % 8 != 0 {
                types_block_size = types_block_size + 4;
            }
            assert(types_block_size / 8 == (block_variant_count * bits + 7) / 8)
                by (nonlinear_arith)
                requires
                    bits == 4 || bits == 8,
                    types_block_size == if (block_variant_count * bits) % 8 != 0 {
                        block_variant_count * bits + 4
                    } else {
                        block_variant_count * bits
                    },
            ;
            types_block_size = types_block_size / 8;
            let lengths_block_size = block_variant_count * lb;
            assert(block_body_size(65536, bits as int, lb as int) == full);
            let ghost size = types_block_size + lengths_block_size;
            assert(size == block_body_size(block_variant_count as int, bits as int, lb as int));
            if is_last {
                assert(pos + size == offset + self.spec_body_size());
            } else {
                assert(block * full + full <= (n_blocks - 1) * full) by (nonlinear_arith)
                    requires
                        block + 1 <= n_blocks - 1,
                        full >= 0,
                ;
                assert(pos + size <= offset + self.spec_body_size());
            }
            assert(self.spec_body_size() <= 5 * 4294967295) by (nonlinear_arith)
                requires
                    self.spec_body_size() == (self.variant_count * bits + 7) / 8
                        + self.variant_count * lb,
                    self.variant_count <= 4294967295,
                    bits <= 8,
                    lb <= 4,
            ;
            let next = pos + types_block_size + lengths_block_size;
            if next > b.len() as u64 {
                return Err(PgenError::Io(IoFault::UnexpectedEof));
            }
            pos = next;
            block = block + 1;
            if !is_last {
                assert(pos == offset + block * full) by (nonlinear_arith)
                    requires
                        pos == offset + (block - 1) * full + full,
                ;
            }
        }
        Ok(pos)
    }
}

} // verus!
