//! The instruction codec: a tag byte followed by little-endian operands.
use crate::error::AppError;
use vstd::bytes::{spec_u64_from_le_bytes, u64_from_le_bytes};
use vstd::prelude::*;

verus! {

#[derive(Clone, Copy, Debug, PartialEq, Eq, Structural)]
pub enum AppInstruction {
    InitializePool { reserve_s: u64, reserve_a: u64, reserve_b: u64 },
    AddLiquidity { delta_s: u64, delta_a: u64, delta_b: u64 },
    RemoveLiquidity { lpt: u64 },
    Swap { amount: u64, limit: u64 },
    FreezePool,
    ThawPool,
    Earn { amount: u64 },
    TransferPoolOwnership,
}

/// The little-endian `u64` at offset `i` of `s`.
pub open spec fn u64_at(s: Seq<u8>, i: int) -> u64 {
    spec_u64_from_le_bytes(s.subrange(i, i + 8))
}

/// How many operand bytes follow each known tag.
pub open spec fn operand_len(tag: u8) -> int {
    if tag == 0 || tag == 1 {
        24
    } else if tag == 2 || tag == 6 {
        8
    } else if tag == 3 {
        16
    } else {
        0
    }
}

/// The instruction that `data` encodes, if any: a known tag followed by
/// exactly its operands.
pub open spec fn instruction_of(data: Seq<u8>) -> Option<AppInstruction> {
    if data.len() == 0 || data[0] > 7 || data.len() != 1 + operand_len(data[0]) {
        None
    } else {
        Some(
            match data[0] {
                0 => AppInstruction::InitializePool {
                    reserve_s: u64_at(data, 1),
                    reserve_a: u64_at(data, 9),
                    reserve_b: u64_at(data, 17),
                },
                1 => AppInstruction::AddLiquidity {
                    delta_s: u64_at(data, 1),
                    delta_a: u64_at(data, 9),
                    delta_b: u64_at(data, 17),
                },
                2 => AppInstruction::RemoveLiquidity { lpt: u64_at(data, 1) },
                3 => AppInstruction::Swap { amount: u64_at(data, 1), limit: u64_at(data, 9) },
                4 => AppInstruction::FreezePool,
                5 => AppInstruction::ThawPool,
                6 => AppInstruction::Earn { amount: u64_at(data, 1) },
                _ => AppInstruction::TransferPoolOwnership,
            },
        )
    }
}

fn read_u64(data: &[u8], i: usize) -> (r: u64)
    requires
        i + 8 <= data@.len(),
    ensures
        r == u64_at(data@, i as int),
{
    let len = data.len();
    assert(i + 8 <= len);
    u64_from_le_bytes(&data[i..i + 8])
}

impl AppInstruction {
    /// Decodes an instruction; a bad tag, or a payload that is short or
    /// overlong, is an invalid instruction.
    pub fn unpack(instruction: &[u8]) -> (r: Result<AppInstruction, AppError>)
        ensures
            r == match instruction_of(instruction@) {
                Some(ix) => Ok(ix),
                None => Err(AppError::InvalidInstruction),
            },
    {
        if instruction.len() == 0 {
            return Err(AppError::InvalidInstruction);
        }
        let tag = instruction[0];
        let len = instruction.len();
        match tag {
            0 | 1 => {
                if len != 25 {
                    return Err(AppError::InvalidInstruction);
                }
                let x = read_u64(instruction, 1);
                let y = read_u64(instruction, 9);
                let z = read_u64(instruction, 17);
                if tag == 0 {
                    Ok(AppInstruction::InitializePool { reserve_s: x, reserve_a: y, reserve_b: z })
                } else {
                    Ok(AppInstruction::AddLiquidity { delta_s: x, delta_a: y, delta_b: z })
                }
            },
            2 | 6 => {
                if len != 9 {
                    return Err(AppError::InvalidInstruction);
                }
                let x = read_u64(instruction, 1);
                if tag == 2 {
                    Ok(AppInstruction::RemoveLiquidity { lpt: x })
                } else {
                    Ok(AppInstruction::Earn { amount: x })
                }
            },
            3 => {
                if len != 17 {
                    return Err(AppError::InvalidInstruction);
                }
                let amount = read_u64(instruction, 1);
                let limit = read_u64(instruction, 9);
                Ok(AppInstruction::Swap { amount, limit })
            },
            4 | 5 | 7 => {
                if len != 1 {
                    return Err(AppError::InvalidInstruction);
                }
                if tag == 4 {
                    Ok(AppInstruction::FreezePool)
                } else if tag == 5 {
                    Ok(AppInstruction::ThawPool)
                } else {
                    Ok(AppInstruction::TransferPoolOwnership)
                }
            },
            _ => Err(AppError::InvalidInstruction),
        }
    }
}

} // verus!
