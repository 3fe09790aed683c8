//! Translation of byte offsets in the controller's address spaces to
//! 16-bit Modbus register numbers.
//!
//! Each address space consists of one or more contiguous byte regions;
//! a region maps its bytes pairwise onto registers starting at a fixed
//! register base. The register values follow the WAGO 750-880 Modbus
//! register mapping.

use vstd::prelude::*;

verus! {

/// Address-space id of the marker ("%MW") space.
pub const MARKER_REF_ID: u32 = 0;

/// Byte offset where the single marker region starts.
pub const MARKER_REGION_1_START_BYTE_ADR: u32 = 0;

/// Modbus register base of the marker region.
pub const MARKER_REGION_1_MODBUS_START_REG: u32 = 12288;

/// Address-space id of the holdings ("%IW") space.
pub const HOLDINGS_REF_ID: u32 = 1;

/// Byte offset where the first holdings region starts.
pub const HOLDINGS_REGION_1_START_BYTE_ADR: u32 = 512;

/// Modbus register base of the first holdings region.
pub const HOLDINGS_REGION_1_MODBUS_START_REG: u32 = 768;

/// Byte offset where the second holdings region starts (and the first ends).
pub const HOLDINGS_REGION_2_START_BYTE_ADR: u32 = 1024;

/// Modbus register base of the second holdings region.
pub const HOLDINGS_REGION_2_MODBUS_START_REG: u32 = 24576;

/// Address-space id of the inputs ("%QW") space.
pub const INPUTS_REF_ID: u32 = 2;

/// Byte offset where the single inputs region starts.
pub const INPUTS_REGION_1_START_BYTE_ADR: u32 = 512;

/// Modbus register base of the inputs region.
pub const INPUTS_REGION_1_MODBUS_START_REG: u32 = 256;

/// Why a byte offset could not be translated to a register number.
#[derive(Clone, Copy, Debug, PartialEq, Eq, Structural)]
pub enum FailureKind {
    /// The byte offset is not a multiple of 2 (registers are 16-bit aligned).
    Unaligned,
    /// The byte offset lies outside every region of its address space.
    OutOfRange,
    /// The address-space id is not one of the three recognized ids.
    UnknownSpace,
}

impl FailureKind {
    /// The reason literal a skip line reports.
    pub open spec fn reason_view(self) -> Seq<char> {
        match self {
            FailureKind::Unaligned => "unaligned"@,
            FailureKind::OutOfRange => "out of range"@,
            FailureKind::UnknownSpace => "illegal ID"@,
        }
    }

    /// The reason as text, for report lines.
    pub fn reason_text(&self) -> (r: String)
        ensures
            r@ == self.reason_view(),
    {
        match self {
            FailureKind::Unaligned => String::from_str("unaligned"),
            FailureKind::OutOfRange => String::from_str("out of range"),
            FailureKind::UnknownSpace => String::from_str("illegal ID"),
        }
    }
}

/// True of the three recognized address-space ids.
pub open spec fn is_known_space(id: u32) -> bool {
    id == MARKER_REF_ID || id == HOLDINGS_REF_ID || id == INPUTS_REF_ID
}

/// The translation of `(id, offset)`: either the Modbus register number,
/// or the reason the offset cannot be mapped.
pub open spec fn translate_spec(id: u32, offset: u32) -> Result<u32, FailureKind> {
    if id == MARKER_REF_ID {
        if offset % 2 == 0 {
            Ok((offset / 2 + MARKER_REGION_1_MODBUS_START_REG) as u32)
        } else {
            Err(FailureKind::Unaligned)
        }
    } else if id == HOLDINGS_REF_ID {
        if offset % 2 == 0 {
            if HOLDINGS_REGION_1_START_BYTE_ADR <= offset < HOLDINGS_REGION_2_START_BYTE_ADR {
                Ok(
                    ((offset - HOLDINGS_REGION_1_START_BYTE_ADR) / 2
                        + HOLDINGS_REGION_1_MODBUS_START_REG) as u32,
                )
            } else if offset >= HOLDINGS_REGION_2_START_BYTE_ADR {
                Ok(
                    ((offset - HOLDINGS_REGION_2_START_BYTE_ADR) / 2
                        + HOLDINGS_REGION_2_MODBUS_START_REG) as u32,
                )
            } else {
                Err(FailureKind::OutOfRange)
            }
        } else {
            Err(FailureKind::Unaligned)
        }
    } else if id == INPUTS_REF_ID {
        if offset % 2 == 0 {
            if offset >= INPUTS_REGION_1_START_BYTE_ADR {
                Ok(
                    ((offset - INPUTS_REGION_1_START_BYTE_ADR) / 2
                        + INPUTS_REGION_1_MODBUS_START_REG) as u32,
                )
            } else {
                Err(FailureKind::OutOfRange)
            }
        } else {
            Err(FailureKind::Unaligned)
        }
    } else {
        Err(FailureKind::UnknownSpace)
    }
}

/// Maps a byte offset in the address space named by `id` to its Modbus
/// register number, or classifies why it cannot be mapped.
pub fn offset_to_address(id: u32, offset: u32) -> (r: Result<u32, FailureKind>)
    ensures
        r == translate_spec(id, offset),
{
    if id == MARKER_REF_ID {
        if offset % 2 == 0 {
            Ok((offset - MARKER_REGION_1_START_BYTE_ADR) / 2 + MARKER_REGION_1_MODBUS_START_REG)
        } else {
            Err(FailureKind::Unaligned)
        }
    } else if id == HOLDINGS_REF_ID {
        if offset % 2 == 0 {
            if offset >= HOLDINGS_REGION_1_START_BYTE_ADR && offset
                < HOLDINGS_REGION_2_START_BYTE_ADR {
                Ok(
                    (offset - HOLDINGS_REGION_1_START_BYTE_ADR) / 2
                        + HOLDINGS_REGION_1_MODBUS_START_REG,
                )
            } else if offset >= HOLDINGS_REGION_2_START_BYTE_ADR {
                Ok(
                    (offset - HOLDINGS_REGION_2_START_BYTE_ADR) / 2
                        + HOLDINGS_REGION_2_MODBUS_START_REG,
                )
            } else {
                Err(FailureKind::OutOfRange)
            }
        } else {
            Err(FailureKind::Unaligned)
        }
    } else if id == INPUTS_REF_ID {
        if offset % 2 == 0 {
            if offset >= INPUTS_REGION_1_START_BYTE_ADR {
                Ok((offset - INPUTS_REGION_1_START_BYTE_ADR) / 2 + INPUTS_REGION_1_MODBUS_START_REG)
            } else {
                Err(FailureKind::OutOfRange)
            }
        } else {
            Err(FailureKind::Unaligned)
        }
    } else {
        Err(FailureKind::UnknownSpace)
    }
}

/// Law: every even offset in the marker space translates to
/// `offset / 2 + 12288`; the single marker region is unbounded above.
pub proof fn lemma_marker_region(offset: u32)
    requires
        offset % 2 == 0,
    ensures
        translate_spec(MARKER_REF_ID, offset) == Ok::<u32, FailureKind>(
            (offset / 2 + 12288) as u32,
        ),
{
}

/// Law: every even offset in the first holdings region, the byte range
/// [512, 1024), translates to `(offset - 512) / 2 + 768`.
pub proof fn lemma_holdings_first_region(offset: u32)
    requires
        offset % 2 == 0,
        HOLDINGS_REGION_1_START_BYTE_ADR <= offset < HOLDINGS_REGION_2_START_BYTE_ADR,
    ensures
        translate_spec(HOLDINGS_REF_ID, offset) == Ok::<u32, FailureKind>(
            ((offset - 512) / 2 + 768) as u32,
        ),
{
}

/// Law: every even offset at or above 1024 in the holdings space
/// translates to `(offset - 1024) / 2 + 24576`.
pub proof fn lemma_holdings_second_region(offset: u32)
    requires
        offset % 2 == 0,
        offset >= HOLDINGS_REGION_2_START_BYTE_ADR,
    ensures
        translate_spec(HOLDINGS_REF_ID, offset) == Ok::<u32, FailureKind>(
            ((offset - 1024) / 2 + 24576) as u32,
        ),
{
}

/// Law: an odd offset in any of the three recognized spaces yields
/// `Unaligned`, whatever the space and however large the offset.
pub proof fn lemma_odd_offset_unaligned(id: u32, offset: u32)
    requires
        offset % 2 != 0,
        is_known_space(id),
    ensures
        translate_spec(id, offset) == Err::<u32, FailureKind>(FailureKind::Unaligned),
{
}

/// Law: an even offset below 512 in the inputs space lies before its
/// only region and yields `OutOfRange`.
pub proof fn lemma_inputs_below_region(offset: u32)
    requires
        offset % 2 == 0,
        offset < INPUTS_REGION_1_START_BYTE_ADR,
    ensures
        translate_spec(INPUTS_REF_ID, offset) == Err::<u32, FailureKind>(FailureKind::OutOfRange),
{
}

/// Law: an id outside the three recognized spaces yields `UnknownSpace`
/// for every offset.
pub proof fn lemma_unknown_space(id: u32, offset: u32)
    requires
        !is_known_space(id),
    ensures
        translate_spec(id, offset) == Err::<u32, FailureKind>(FailureKind::UnknownSpace),
{
}

} // verus!
