use vstd::prelude::*;

verus! {

/// A compute-budget instruction as it stands on the wire: one tag byte, then
/// little-endian fields. Tag zero is the long-deprecated "request units"
/// form that still carries a flat additional fee.
#[derive(Debug, PartialEq, Eq, Structural)]
pub enum ComputeBudgetIx {
    RequestUnitsDeprecated { units: u32, additional_fee: u32 },
    RequestHeapFrame(u32),
    SetComputeUnitLimit(u32),
    SetComputeUnitPrice(u64),
}

pub open spec fn spec_le_u32(b: Seq<u8>, off: int) -> u32
    recommends
        0 <= off && off + 4 <= b.len(),
{
    (b[off] as u32) | ((b[off + 1] as u32) << 8) | ((b[off + 2] as u32) << 16) | ((b[off
        + 3] as u32) << 24)
}

pub open spec fn spec_le_u64(b: Seq<u8>, off: int) -> u64
    recommends
        0 <= off && off + 8 <= b.len(),
{
    (b[off] as u64) | ((b[off + 1] as u64) << 8) | ((b[off + 2] as u64) << 16) | ((b[off
        + 3] as u64) << 24) | ((b[off + 4] as u64) << 32) | ((b[off + 5] as u64) << 40) | ((b[off
        + 6] as u64) << 48) | ((b[off + 7] as u64) << 56)
}

/// What the compute-budget wire parse yields: the tag picks the variant, the
/// payload is read little-endian, trailing bytes are ignored, and anything
/// short or unknown parses as nothing.
pub open spec fn spec_parse_compute_budget(d: Seq<u8>) -> Option<ComputeBudgetIx> {
    if d.len() < 1 {
        None
    } else if d[0] == 0 {
        if d.len() >= 9 {
            Some(
                ComputeBudgetIx::RequestUnitsDeprecated {
                    units: spec_le_u32(d, 1),
                    additional_fee: spec_le_u32(d, 5),
                },
            )
        } else {
            None
        }
    } else if d[0] == 1 {
        if d.len() >= 5 {
            Some(ComputeBudgetIx::RequestHeapFrame(spec_le_u32(d, 1)))
        } else {
            None
        }
    } else if d[0] == 2 {
        if d.len() >= 5 {
            Some(ComputeBudgetIx::SetComputeUnitLimit(spec_le_u32(d, 1)))
        } else {
            None
        }
    } else if d[0] == 3 {
        if d.len() >= 9 {
            Some(ComputeBudgetIx::SetComputeUnitPrice(spec_le_u64(d, 1)))
        } else {
            None
        }
    } else {
        None
    }
}

fn read_le_u32(d: &Vec<u8>, off: usize) -> (r: u32)
    requires
        off + 4 <= d@.len(),
    ensures
        r == spec_le_u32(d@, off as int),
{
    let len = d.len();
    assert(off + 4 <= len);
    (d[off] as u32) | ((d[off + 1] as u32) << 8) | ((d[off + 2] as u32) << 16) | ((d[off
        + 3] as u32) << 24)
}

fn read_le_u64(d: &Vec<u8>, off: usize) -> (r: u64)
    requires
        off + 8 <= d@.len(),
    ensures
        r == spec_le_u64(d@, off as int),
{
    let len = d.len();
    assert(off + 8 <= len);
    (d[off] as u64) | ((d[off + 1] as u64) << 8) | ((d[off + 2] as u64) << 16) | ((d[off
        + 3] as u64) << 24) | ((d[off + 4] as u64) << 32) | ((d[off + 5] as u64) << 40) | ((d[off
        + 6] as u64) << 48) | ((d[off + 7] as u64) << 56)
}

/// Parses instruction data as a compute-budget instruction.
pub fn parse_compute_budget(d: &Vec<u8>) -> (r: Option<ComputeBudgetIx>)
    ensures
        r == spec_parse_compute_budget(d@),
{
    if d.len() < 1 {
        return None;
    }
    let tag = d[0];
    if tag == 0 {
        if d.len() >= 9 {
            Some(
                ComputeBudgetIx::RequestUnitsDeprecated {
                    units: read_le_u32(d, 1),
                    additional_fee: read_le_u32(d, 5),
                },
            )
        } else {
            None
        }
    } else if tag == 1 {
        if d.len() >= 5 {
            Some(ComputeBudgetIx::RequestHeapFrame(read_le_u32(d, 1)))
        } else {
            None
        }
    } else if tag == 2 {
        if d.len() >= 5 {
            Some(ComputeBudgetIx::SetComputeUnitLimit(read_le_u32(d, 1)))
        } else {
            None
        }
    } else if tag == 3 {
        if d.len() >= 9 {
            Some(ComputeBudgetIx::SetComputeUnitPrice(read_le_u64(d, 1)))
        } else {
            None
        }
    } else {
        None
    }
}

/// The per-unit price derived from the deprecated flat fee: truncating
/// unsigned division of `units * 1000` by the fee, computed wide enough
/// that the product cannot overflow.
pub open spec fn spec_legacy_fee(units: u32, additional_fee: u32) -> u64
    recommends
        additional_fee > 0,
{
    ((units * 1000) / (additional_fee as int)) as u64
}

/// Derives the legacy prioritization fee from a deprecated request-units
/// instruction.
pub fn legacy_prioritization_fee(units: u32, additional_fee: u32) -> (r: u64)
    requires
        additional_fee > 0,
    ensures
        r == spec_legacy_fee(units, additional_fee),
        r == (units * 1000) / (additional_fee as int),
{
    (units as u64 * 1000) / (additional_fee as u64)
}

} // verus!
