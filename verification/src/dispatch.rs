//! The leading byte of an instruction selects what is to be done.
use crate::make::MAKE_DISCRIMINATOR;
use crate::refund::REFUND_DISCRIMINATOR;
use crate::take::TAKE_DISCRIMINATOR;
use pinocchio::program_error::ProgramError;
use vstd::prelude::*;
use vstd::slice::slice_subrange;

verus! {

/// The instructions of the protocol.
#[derive(Clone, Copy, Debug, PartialEq, Eq, Structural)]
pub enum Instruction {
    /// Open an offer.
    Make,
    /// Fulfil an open offer.
    Take,
    /// Cancel an open offer.
    Refund,
}

/// The instruction that a leading byte selects, if any.
pub open spec fn spec_instruction(discriminator: u8) -> Option<Instruction> {
    if discriminator == MAKE_DISCRIMINATOR {
        Some(Instruction::Make)
    } else if discriminator == TAKE_DISCRIMINATOR {
        Some(Instruction::Take)
    } else if discriminator == REFUND_DISCRIMINATOR {
        Some(Instruction::Refund)
    } else {
        None
    }
}

/// Splits instruction data into the instruction that its first byte selects
/// and the payload that follows. Fails with `InvalidInstructionData` when
/// the data is empty or its first byte selects nothing.
pub fn select(data: &[u8]) -> (r: Result<(Instruction, &[u8]), ProgramError>)
    ensures
        match r {
            Ok((instruction, payload)) => {
                &&& data@.len() > 0
                &&& spec_instruction(data@[0]) == Some(instruction)
                &&& payload@ == data@.subrange(1, data@.len() as int)
            },
            Err(e) => {
                &&& e == ProgramError::InvalidInstructionData
                &&& (data@.len() == 0 || spec_instruction(data@[0]) is None)
            },
        },
{
    let len: usize = data.len();
    if len == 0 {
        return Err(ProgramError::InvalidInstructionData);
    }
    let payload = slice_subrange(data, 1, len);
    let discriminator: u8 = data[0];
    if discriminator == MAKE_DISCRIMINATOR {
        Ok((Instruction::Make, payload))
    } else if discriminator == TAKE_DISCRIMINATOR {
        Ok((Instruction::Take, payload))
    } else if discriminator == REFUND_DISCRIMINATOR {
        Ok((Instruction::Refund, payload))
    } else {
        Err(ProgramError::InvalidInstructionData)
    }
}

} // verus!
