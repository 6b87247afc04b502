use staged_escrow::error::EscrowError;
use staged_escrow::instruction::{Instruction, InstructionPayload};

fn wire_of(discriminant: u8, contract_id: &str, total_quantity: u64) -> Vec<u8> {
    let mut bytes = vec![discriminant];
    bytes.extend(borsh::to_vec(&(contract_id.to_string(), total_quantity)).unwrap());
    bytes
}

#[test]
fn unpack_reads_a_creation() {
    let input = vec![0, 6, 0, 0, 0, b'a', b'b', b'c', b'1', b'2', b'3', 100, 0, 0, 0, 0, 0, 0, 0];
    assert_eq!(
        Instruction::unpack(&input),
        Ok(Instruction::CreateContract { contract_id: "abc123".to_string(), total_quantity: 100 })
    );
}

#[test]
fn unpack_reads_a_release_and_ignores_its_deposit() {
    let input = vec![1, 2, 0, 0, 0, b'i', b'd', 7, 0, 0, 0, 0, 0, 0, 0];
    assert_eq!(
        Instruction::unpack(&input),
        Ok(Instruction::IncrementStep { contract_id: "id".to_string() })
    );
    let other = vec![1, 2, 0, 0, 0, b'i', b'd', 0xff, 0xff, 0xff, 0xff, 0xff, 0xff, 0xff, 0xff];
    assert_eq!(Instruction::unpack(&other), Instruction::unpack(&input));
}

#[test]
fn unpack_reads_the_deposit_little_endian() {
    let input = vec![0, 0, 0, 0, 0, 0x08, 0x07, 0x06, 0x05, 0x04, 0x03, 0x02, 0x01];
    assert_eq!(
        Instruction::unpack(&input),
        Ok(Instruction::CreateContract {
            contract_id: String::new(),
            total_quantity: 0x0102_0304_0506_0708,
        })
    );
}

#[test]
fn unpack_agrees_with_borsh() {
    for (contract_id, total_quantity) in
        [("abc123", 100u64), ("", 0), ("contract-\u{e9}\u{4e16}\u{1f600}", u64::MAX), ("x", 1 << 40)]
    {
        assert_eq!(
            Instruction::unpack(&wire_of(0, contract_id, total_quantity)),
            Ok(Instruction::CreateContract {
                contract_id: contract_id.to_string(),
                total_quantity,
            })
        );
        assert_eq!(
            Instruction::unpack(&wire_of(1, contract_id, total_quantity)),
            Ok(Instruction::IncrementStep { contract_id: contract_id.to_string() })
        );
    }
}

#[test]
fn unpack_rejects_an_unknown_discriminant() {
    for discriminant in [2u8, 3, 127, 255] {
        assert_eq!(
            Instruction::unpack(&wire_of(discriminant, "abc123", 100)),
            Err(EscrowError::MalformedInstruction)
        );
    }
}

#[test]
fn unpack_rejects_empty_input() {
    assert_eq!(Instruction::unpack(&[]), Err(EscrowError::MalformedInstruction));
}

#[test]
fn unpack_rejects_a_payload_cut_short() {
    let whole = wire_of(0, "abc123", 100);
    for len in 0..whole.len() {
        assert_eq!(
            Instruction::unpack(&whole[..len]),
            Err(EscrowError::MalformedInstruction),
            "prefix of {len} bytes"
        );
    }
}

#[test]
fn unpack_rejects_bytes_behind_the_payload() {
    let mut input = wire_of(1, "abc123", 100);
    input.push(0);
    assert_eq!(Instruction::unpack(&input), Err(EscrowError::MalformedInstruction));
}

#[test]
fn unpack_rejects_a_length_prefix_beyond_the_input() {
    let input = vec![0, 0xff, 0xff, 0xff, 0xff, b'a', 1, 0, 0, 0, 0, 0, 0, 0];
    assert_eq!(Instruction::unpack(&input), Err(EscrowError::MalformedInstruction));
}

#[test]
fn unpack_rejects_a_contract_id_that_is_not_utf8() {
    let input = vec![0, 2, 0, 0, 0, 0xc3, 0x28, 1, 0, 0, 0, 0, 0, 0, 0];
    assert_eq!(Instruction::unpack(&input), Err(EscrowError::MalformedInstruction));
    let surrogate = vec![0, 3, 0, 0, 0, 0xed, 0xa0, 0x80, 1, 0, 0, 0, 0, 0, 0, 0];
    assert_eq!(Instruction::unpack(&surrogate), Err(EscrowError::MalformedInstruction));
}

#[test]
fn payload_fills_its_bytes_exactly() {
    let bytes = borsh::to_vec(&("abc123".to_string(), 100u64)).unwrap();
    assert_eq!(
        InstructionPayload::try_from_slice(&bytes),
        Ok(InstructionPayload { contract_id: "abc123".to_string(), total_quantity: 100 })
    );
    assert_eq!(
        InstructionPayload::try_from_slice(&bytes[..bytes.len() - 1]),
        Err(EscrowError::MalformedInstruction)
    );
    assert_eq!(InstructionPayload::try_from_slice(&[]), Err(EscrowError::MalformedInstruction));
}
