//! The package-header binary format: a fixed 26-byte little-endian header
//! carrying a magic tag, format and manager versions, the offset of the index
//! table, the metadata length and a flag byte.
use vstd::bytes::*;
use vstd::prelude::*;
use vstd::slice::slice_index_get;
use vstd::slice::slice_subrange;

verus! {

/// File identifier bytes `V M P K`, read as a little-endian u32.
pub const VMPAK_MAGIC: u32 = 0x4B504D56;

/// Number of bytes a serialized header occupies.
pub const VMPAK_HEADER_SIZE: usize = 26;

#[derive(Debug, Clone, Copy, PartialEq, Eq, Structural)]
pub struct VmpakHeader {
    pub magic: u32,
    pub format_version: u16,
    pub manager_version: u16,
    pub index_table_offset: u64,
    pub metadata_size: u64,
    pub flags: u8,
    pub reserved: u8,
}

/// Free-form package metadata stored behind the header.
#[derive(Debug, Clone)]
pub struct VmpakMetadata {
    pub creator: String,
    pub description: String,
}

/// The serialized form of a header: every field in little-endian order.
pub open spec fn spec_header_bytes(h: VmpakHeader) -> Seq<u8> {
    spec_u32_to_le_bytes(h.magic) + spec_u16_to_le_bytes(h.format_version) + spec_u16_to_le_bytes(
        h.manager_version,
    ) + spec_u64_to_le_bytes(h.index_table_offset) + spec_u64_to_le_bytes(h.metadata_size)
        + seq![h.flags, h.reserved]
}

/// The header encoded in the first 26 bytes of `bytes`.
pub open spec fn spec_parse_header(bytes: Seq<u8>) -> VmpakHeader
    recommends
        bytes.len() >= 26,
{
    VmpakHeader {
        magic: spec_u32_from_le_bytes(bytes.subrange(0, 4)),
        format_version: spec_u16_from_le_bytes(bytes.subrange(4, 6)),
        manager_version: spec_u16_from_le_bytes(bytes.subrange(6, 8)),
        index_table_offset: spec_u64_from_le_bytes(bytes.subrange(8, 16)),
        metadata_size: spec_u64_from_le_bytes(bytes.subrange(16, 24)),
        flags: bytes[24],
        reserved: bytes[25],
    }
}

/// Why a byte sequence does not hold a header.
#[derive(Debug, Clone, PartialEq, Eq, Structural)]
pub enum VmpakError {
    /// Fewer bytes than a full header.
    TooShort,
    /// The magic tag does not match.
    BadMagic,
}

impl VmpakHeader {
    /// Serializes the header, appending its 26 bytes to `out`.
    pub fn write(&self, out: &mut Vec<u8>)
        ensures
            final(out)@ == old(out)@ + spec_header_bytes(*self),
    {
        let mut b = u32_to_le_bytes(self.magic);
        out.append(&mut b);
        let mut b = u16_to_le_bytes(self.format_version);
        out.append(&mut b);
        let mut b = u16_to_le_bytes(self.manager_version);
        out.append(&mut b);
        let mut b = u64_to_le_bytes(self.index_table_offset);
        out.append(&mut b);
        let mut b = u64_to_le_bytes(self.metadata_size);
        out.append(&mut b);
        out.push(self.flags);
        out.push(self.reserved);
        proof {
            assert(final(out)@ =~= old(out)@ + spec_header_bytes(*self));
        }
    }

    /// Parses a header from the first 26 bytes of `bytes`. Succeeds exactly
    /// when enough bytes are present and the magic tag matches.
    pub fn read(bytes: &[u8]) -> (r: Result<VmpakHeader, VmpakError>)
        ensures
            match r {
                Ok(h) => bytes@.len() >= 26 && h == spec_parse_header(bytes@) && h.magic
                    == VMPAK_MAGIC,
                Err(VmpakError::TooShort) => bytes@.len() < 26,
                Err(VmpakError::BadMagic) => bytes@.len() >= 26 && spec_u32_from_le_bytes(
                    bytes@.subrange(0, 4),
                ) != VMPAK_MAGIC,
            },
    {
        if bytes.len() < VMPAK_HEADER_SIZE {
            return Err(VmpakError::TooShort);
        }
        let magic = u32_from_le_bytes(slice_subrange(bytes, 0, 4));
        if magic != VMPAK_MAGIC {
            return Err(VmpakError::BadMagic);
        }
        let format_version = u16_from_le_bytes(slice_subrange(bytes, 4, 6));
        let manager_version = u16_from_le_bytes(slice_subrange(bytes, 6, 8));
        let index_table_offset = u64_from_le_bytes(slice_subrange(bytes, 8, 16));
        let metadata_size = u64_from_le_bytes(slice_subrange(bytes, 16, 24));
        let flags = *slice_index_get(bytes, 24);
        let reserved = *slice_index_get(bytes, 25);
        Ok(
            VmpakHeader {
                magic,
                format_version,
                manager_version,
                index_table_offset,
                metadata_size,
                flags,
                reserved,
            },
        )
    }
}

/// A header whose magic tag is valid parses back from its own serialization:
/// writing then reading is the identity.
pub proof fn lemma_header_round_trip(h: VmpakHeader)
    requires
        h.magic == VMPAK_MAGIC,
    ensures
        spec_header_bytes(h).len() == 26,
        spec_parse_header(spec_header_bytes(h)) == h,
{
    lemma_auto_spec_u16_to_from_le_bytes();
    lemma_auto_spec_u32_to_from_le_bytes();
    lemma_auto_spec_u64_to_from_le_bytes();
    let b = spec_header_bytes(h);
    assert(b.subrange(0, 4) =~= spec_u32_to_le_bytes(h.magic));
    assert(b.subrange(4, 6) =~= spec_u16_to_le_bytes(h.format_version));
    assert(b.subrange(6, 8) =~= spec_u16_to_le_bytes(h.manager_version));
    assert(b.subrange(8, 16) =~= spec_u64_to_le_bytes(h.index_table_offset));
    assert(b.subrange(16, 24) =~= spec_u64_to_le_bytes(h.metadata_size));
}

} // verus!
