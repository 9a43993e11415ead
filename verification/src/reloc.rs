//! Relocation records and their packed encoding.

use vstd::prelude::*;

verus! {

/// One emitted relocation record.
#[derive(Debug, Clone, Copy, PartialEq, Eq, Structural)]
pub struct RelocationInfo {
    /// Position of the fixup, relative to the start of its section.
    pub r_address: i32,
    /// Packed symbol ordinal, pc-relative bit, length code, external bit and type.
    pub r_info: u32,
}

/// The two-bit length code of a relocation of `size` bytes.
///
/// Size zero stands for the default: eight bytes for an absolute relocation,
/// four for a pc-relative one.
pub open spec fn length_code(size: u8, absolute: bool) -> u32 {
    if size == 0 {
        if absolute {
            3
        } else {
            2
        }
    } else if size == 4 {
        2
    } else {
        3
    }
}

/// The packed word: the symbol ordinal in bits 0 to 23, the pc-relative bit
/// at 24, the length code at 25 and 26, the external bit at 27, and the type
/// in bits 28 to 31.
pub open spec fn pack_info(symbol: u32, absolute: bool, size: u8, r_type: u8) -> u32 {
    let pcrel: u32 = if absolute {
        0
    } else {
        1
    };
    symbol | (pcrel << 24) | (length_code(size, absolute) << 25) | (1u32 << 27) | ((
    r_type as u32) << 28)
}

/// The symbol ordinal held in a packed word.
pub open spec fn info_symbol(r_info: u32) -> u32 {
    r_info & 0x00ff_ffff
}

/// Whether a packed word marks its relocation as pc-relative.
pub open spec fn info_pcrel(r_info: u32) -> bool {
    (r_info >> 24) & 1 == 1
}

/// The length code held in a packed word.
pub open spec fn info_length(r_info: u32) -> u32 {
    (r_info >> 25) & 3
}

/// Whether a packed word marks its relocation as external.
pub open spec fn info_extern(r_info: u32) -> bool {
    (r_info >> 27) & 1 == 1
}

/// The relocation type held in a packed word.
pub open spec fn info_type(r_info: u32) -> u32 {
    r_info >> 28
}

/// Unpacking a packed word gives back the fields that went into it, as long
/// as the ordinal fits in 24 bits and the type in 4.
pub proof fn lemma_pack_unpack(symbol: u32, absolute: bool, size: u8, r_type: u8)
    requires
        symbol < 0x0100_0000,
        r_type < 16,
    ensures
        info_symbol(pack_info(symbol, absolute, size, r_type)) == symbol,
        info_pcrel(pack_info(symbol, absolute, size, r_type)) == !absolute,
        info_length(pack_info(symbol, absolute, size, r_type)) == length_code(size, absolute),
        info_extern(pack_info(symbol, absolute, size, r_type)),
        info_type(pack_info(symbol, absolute, size, r_type)) == r_type,
{
    let pcrel: u32 = if absolute {
        0
    } else {
        1
    };
    let len = length_code(size, absolute);
    let t = r_type as u32;
    let w = symbol | (pcrel << 24) | (len << 25) | (1u32 << 27) | (t << 28);
    assert(w & 0x00ff_ffff == symbol && (w >> 24) & 1 == pcrel && (w >> 25) & 3 == len && (w >> 27)
        & 1 == 1 && w >> 28 == t) by (bit_vector)
        requires
            symbol < 0x0100_0000,
            pcrel <= 1,
            len <= 3,
            t < 16,
            w == symbol | (pcrel << 24) | (len << 25) | (1u32 << 27) | (t << 28),
    ;
}

/// A relocation under construction.
#[derive(Debug, Clone, Copy, PartialEq, Eq, Structural)]
pub struct RelocationBuilder {
    /// Ordinal of the target symbol in the symbol table.
    pub symbol: usize,
    /// Position of the fixup.
    pub relocation_offset: u64,
    pub absolute: bool,
    /// Bytes of the relocated value, or zero for the default.
    pub size: u8,
    pub r_type: u8,
}

impl RelocationBuilder {
    /// The sizes that have a length code.
    pub open spec fn size_supported(size: u8) -> bool {
        size == 0 || size == 4 || size == 8
    }

    /// The record that this relocation is emitted as.
    pub open spec fn spec_info(self) -> RelocationInfo {
        RelocationInfo {
            r_address: self.relocation_offset as i32,
            r_info: pack_info(self.symbol as u32, self.absolute, self.size, self.r_type),
        }
    }

    /// A pc-relative relocation of default size against `symbol`, at `relocation_offset`.
    pub fn new(symbol: usize, relocation_offset: u64, r_type: u8) -> (reloc: Self)
        ensures
            reloc == (RelocationBuilder {
                symbol,
                relocation_offset,
                absolute: false,
                size: 0,
                r_type,
            }),
    {
        RelocationBuilder { symbol, relocation_offset, absolute: false, size: 0, r_type }
    }

    /// Makes the relocation absolute.
    pub fn absolute(self) -> (reloc: Self)
        ensures
            reloc == (RelocationBuilder { absolute: true, ..self }),
    {
        let mut reloc = self;
        reloc.absolute = true;
        reloc
    }

    /// Sets the size in bytes of the relocated value.
    pub fn size(self, size: u8) -> (reloc: Self)
        ensures
            reloc == (RelocationBuilder { size, ..self }),
    {
        let mut reloc = self;
        reloc.size = size;
        reloc
    }

    /// Whether `size` has a length code.
    pub fn supports_size(size: u8) -> (ok: bool)
        ensures
            ok == Self::size_supported(size),
    {
        size == 0 || size == 4 || size == 8
    }

    /// Lowers the relocation to its packed record.
    pub fn create(self) -> (info: RelocationInfo)
        requires
            Self::size_supported(self.size),
        ensures
            info == self.spec_info(),
    {
        let r_symbolnum: u32 = self.symbol as u32;
        let pcrel: u32 = if self.absolute {
            0
        } else {
            1
        };
        let r_pcrel: u32 = pcrel << 24;
        let length: u32 = if self.size == 0 {
            if self.absolute {
                3
            } else {
                2
            }
        } else if self.size == 4 {
            2
        } else {
            3
        };
        let r_length: u32 = length << 25;
        let r_extern: u32 = 1u32 << 27;
        let r_type: u32 = (self.r_type as u32) << 28;
        let r_info = r_symbolnum | r_pcrel | r_length | r_extern | r_type;
        RelocationInfo { r_address: self.relocation_offset as i32, r_info }
    }
}

} // verus!
