use crate::error::EscrowError;
use crate::wire::{
    get_le, get_text, fits_prefix, le_bytes, le_value, lemma_le_bytes_len, lemma_le_bytes_of_value,
    lemma_le_limits, lemma_le_value_bound, lemma_le_value_of_bytes, lemma_parse_text_of_wire,
    lemma_wire_of_parse_text, parse_text, text_wire,
};
use vstd::prelude::*;
use vstd::slice::slice_subrange;

verus! {

/// The discriminant of `Instruction::CreateContract`.
pub const CREATE_CONTRACT: u8 = 0;

/// The discriminant of `Instruction::IncrementStep`.
pub const INCREMENT_STEP: u8 = 1;

/// What follows the discriminant in an instruction: the contract id and the
/// deposit. Both commands carry both fields.
#[derive(Debug, Clone, PartialEq, Eq)]
pub struct InstructionPayload {
    pub contract_id: String,
    pub total_quantity: u64,
}

/// A decoded command.
#[derive(Debug, Clone, PartialEq, Eq)]
pub enum Instruction {
    /// Open an escrow for `contract_id` and deposit `total_quantity` in it.
    CreateContract { contract_id: String, total_quantity: u64 },
    /// Release the next installment of the escrow for `contract_id`.
    IncrementStep { contract_id: String },
}

/// A command as plain values.
pub enum InstructionView {
    CreateContract { contract_id: Seq<char>, total_quantity: u64 },
    IncrementStep { contract_id: Seq<char> },
}

impl View for Instruction {
    type V = InstructionView;

    open spec fn view(&self) -> InstructionView {
        match self {
            Instruction::CreateContract { contract_id, total_quantity } => {
                InstructionView::CreateContract {
                    contract_id: contract_id@,
                    total_quantity: *total_quantity,
                }
            },
            Instruction::IncrementStep { contract_id } => InstructionView::IncrementStep {
                contract_id: contract_id@,
            },
        }
    }
}

/// A payload on the wire: the contract id as a length-prefixed string, then
/// the deposit as eight little-endian bytes.
pub open spec fn payload_wire(contract_id: Seq<char>, total_quantity: u64) -> Seq<u8> {
    text_wire(contract_id) + le_bytes(total_quantity as nat, 8)
}

/// An instruction on the wire: the discriminant, then the payload.
pub open spec fn instruction_wire(discriminant: u8, contract_id: Seq<char>, total_quantity: u64) -> Seq<
    u8,
> {
    seq![discriminant] + payload_wire(contract_id, total_quantity)
}

/// The payload that `bytes` are, to the last byte; `None` where they are none.
pub open spec fn parse_payload(bytes: Seq<u8>) -> Option<(Seq<char>, u64)> {
    match parse_text(bytes) {
        Some((contract_id, taken)) => if bytes.len() == taken + 8 {
            Some((contract_id, le_value(bytes.skip(taken as int)) as u64))
        } else {
            None
        },
        None => None,
    }
}

/// The command that `input` is; `None` where it is empty, its payload is
/// malformed, or its discriminant is unknown.
pub open spec fn parse_instruction(input: Seq<u8>) -> Option<InstructionView> {
    if input.len() == 0 {
        None
    } else {
        match parse_payload(input.drop_first()) {
            Some((contract_id, total_quantity)) => if input[0] == CREATE_CONTRACT {
                Some(InstructionView::CreateContract { contract_id, total_quantity })
            } else if input[0] == INCREMENT_STEP {
                Some(InstructionView::IncrementStep { contract_id })
            } else {
                None
            },
            None => None,
        }
    }
}

/// A payload written to the wire is read back.
pub proof fn lemma_parse_payload_of_wire(contract_id: Seq<char>, total_quantity: u64)
    requires
        fits_prefix(contract_id),
    ensures
        parse_payload(payload_wire(contract_id, total_quantity)) == Some(
            (contract_id, total_quantity),
        ),
{
    let amount = le_bytes(total_quantity as nat, 8);
    let bytes = payload_wire(contract_id, total_quantity);
    lemma_parse_text_of_wire(contract_id, amount);
    lemma_le_bytes_len(total_quantity as nat, 8);
    lemma_le_limits();
    lemma_le_value_of_bytes(total_quantity as nat, 8);
    assert(bytes.skip(text_wire(contract_id).len() as int) =~= amount);
}

/// The only bytes that parse to a payload are its wire form.
pub proof fn lemma_wire_of_parse_payload(bytes: Seq<u8>, contract_id: Seq<char>, total_quantity: u64)
    requires
        parse_payload(bytes) == Some((contract_id, total_quantity)),
    ensures
        fits_prefix(contract_id),
        bytes == payload_wire(contract_id, total_quantity),
{
    let taken = parse_text(bytes).unwrap().1;
    let amount = bytes.skip(taken as int);
    lemma_wire_of_parse_text(bytes, contract_id, taken);
    lemma_le_value_bound(amount);
    lemma_le_limits();
    lemma_le_bytes_of_value(amount);
    assert(bytes =~= bytes.subrange(0, taken as int) + amount);
}

/// An instruction written to the wire is read back as the command of its
/// discriminant; under any discriminant but the two known ones it is rejected.
pub proof fn lemma_parse_instruction_of_wire(
    discriminant: u8,
    contract_id: Seq<char>,
    total_quantity: u64,
)
    requires
        fits_prefix(contract_id),
    ensures
        parse_instruction(instruction_wire(discriminant, contract_id, total_quantity)) == (
        if discriminant == CREATE_CONTRACT {
            Some(InstructionView::CreateContract { contract_id, total_quantity })
        } else if discriminant == INCREMENT_STEP {
            Some(InstructionView::IncrementStep { contract_id })
        } else {
            None
        }),
{
    let input = instruction_wire(discriminant, contract_id, total_quantity);
    lemma_parse_payload_of_wire(contract_id, total_quantity);
    assert(input.drop_first() =~= payload_wire(contract_id, total_quantity));
}

/// The only bytes that parse to a command are a known discriminant followed
/// by a payload that carries the command's contract id.
pub proof fn lemma_wire_of_parse_instruction(input: Seq<u8>, command: InstructionView)
    requires
        parse_instruction(input) == Some(command),
    ensures
        command matches InstructionView::CreateContract { contract_id, total_quantity } ==> input
            == instruction_wire(CREATE_CONTRACT, contract_id, total_quantity),
        command matches InstructionView::IncrementStep { contract_id } ==> exists|
            total_quantity: u64,
        |
            input == #[trigger] instruction_wire(INCREMENT_STEP, contract_id, total_quantity),
{
    let payload = parse_payload(input.drop_first());
    assert(payload is Some);
    let (contract_id, total_quantity) = payload.unwrap();
    lemma_wire_of_parse_payload(input.drop_first(), contract_id, total_quantity);
    assert(input =~= instruction_wire(input[0], contract_id, total_quantity));
    if command is IncrementStep {
        assert(command->IncrementStep_contract_id == contract_id);
        assert(input == instruction_wire(INCREMENT_STEP, contract_id, total_quantity));
    }
}

impl InstructionPayload {
    /// Decodes a payload that fills `bytes` exactly.
    pub fn try_from_slice(bytes: &[u8]) -> (decoded: Result<InstructionPayload, EscrowError>)
        ensures
            match parse_payload(bytes@) {
                Some((contract_id, total_quantity)) => decoded matches Ok(payload)
                    && payload.contract_id@ == contract_id && payload.total_quantity
                    == total_quantity,
                None => decoded matches Err(e) && e == EscrowError::MalformedInstruction,
            },
    {
        assert(bytes@.skip(0) =~= bytes@);
        match get_text(bytes, 0) {
            None => Err(EscrowError::MalformedInstruction),
            Some((contract_id, next)) => {
                if bytes.len() - next != 8 {
                    return Err(EscrowError::MalformedInstruction);
                }
                let total_quantity = get_le(bytes, next, 8);
                proof {
                    assert(bytes@.subrange(next as int, next + 8) =~= bytes@.skip(next as int));
                    lemma_le_value_bound(bytes@.skip(next as int));
                    lemma_le_limits();
                }
                Ok(InstructionPayload { contract_id, total_quantity })
            },
        }
    }
}

impl Instruction {
    /// Decodes an instruction: one discriminant byte, then a payload that
    /// fills the rest. `IncrementStep` ignores the deposit that its payload
    /// carries.
    pub fn unpack(input: &[u8]) -> (decoded: Result<Instruction, EscrowError>)
        ensures
            match parse_instruction(input@) {
                Some(command) => decoded matches Ok(instruction) && instruction@ == command,
                None => decoded matches Err(e) && e == EscrowError::MalformedInstruction,
            },
    {
        if input.len() == 0 {
            return Err(EscrowError::MalformedInstruction);
        }
        let variant = input[0];
        let rest = slice_subrange(input, 1, input.len());
        assert(rest@ =~= input@.drop_first());
        let payload = match InstructionPayload::try_from_slice(rest) {
            Ok(payload) => payload,
            Err(e) => { return Err(e); },
        };
        if variant == CREATE_CONTRACT {
            Ok(
                Instruction::CreateContract {
                    contract_id: payload.contract_id,
                    total_quantity: payload.total_quantity,
                },
            )
        } else if variant == INCREMENT_STEP {
            Ok(Instruction::IncrementStep { contract_id: payload.contract_id })
        } else {
            Err(EscrowError::MalformedInstruction)
        }
    }
}

} // verus!
