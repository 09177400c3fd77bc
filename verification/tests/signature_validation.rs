use cairo_bridge::ecdsa::Signature;
use cairo_bridge::errors::MemoryError;
use cairo_bridge::felt::Felt;
use cairo_bridge::instance_def::EcdsaInstanceDef;
use cairo_bridge::memory::{Memory, ValidationRule};
use cairo_bridge::relocatable::{MaybeRelocatable, Relocatable};
use cairo_bridge::signature::{
    signature_verdict, SignatureBuiltinRunner, SignatureRegistry, SignatureRule,
};
use cairo_bridge::vm_core::VirtualMachine;
use k256::ecdsa::signature::Signer;
use k256::ecdsa::SigningKey;

const MESSAGE: [u8; 12] = [72, 101, 108, 108, 111, 32, 119, 111, 114, 108, 100, 33];

fn signing_key() -> SigningKey {
    SigningKey::from_slice(&[7u8; 32]).unwrap()
}

fn public_key() -> Vec<u8> {
    signing_key().verifying_key().to_sec1_bytes().to_vec()
}

fn signature_of(message: &[u8]) -> Signature {
    let signed: k256::ecdsa::Signature = signing_key().sign(message);
    Signature::from_bytes(signed.to_bytes().to_vec())
}

fn felt(bytes: &[u8]) -> MaybeRelocatable {
    MaybeRelocatable::Int(Felt::from_bytes_be(bytes))
}

fn at(offset: usize) -> Relocatable {
    Relocatable { segment_index: 2, offset }
}

/// A machine with the builtin at segment 2 and, if given, one signature
/// registered for the public key cell at the given offset.
fn machine(registered: Option<(usize, Signature)>) -> VirtualMachine {
    let mut vm = VirtualMachine::new();
    vm.segments.add(&mut vm.memory);
    vm.segments.add(&mut vm.memory);
    let mut builtin = SignatureBuiltinRunner::new(&EcdsaInstanceDef::default(), true);
    builtin.initialize_segments(&mut vm.segments, &mut vm.memory);
    assert_eq!(builtin.base(), 2);
    if let Some((offset, signature)) = registered {
        builtin.add_signature(&mut vm.memory, at(offset), signature);
    }
    builtin.add_validation_rule(&mut vm.memory).unwrap();
    vm
}

#[test]
fn public_key_then_message_is_accepted() {
    let mut vm = machine(Some((0, signature_of(&MESSAGE))));
    assert_eq!(vm.memory.insert(&at(0), &felt(&public_key())), Ok(()));
    assert_eq!(vm.memory.insert(&at(1), &felt(&MESSAGE)), Ok(()));
    assert_eq!(vm.memory.get(&at(0)), Some(&felt(&public_key())));
    assert_eq!(vm.memory.get(&at(1)), Some(&felt(&MESSAGE)));
}

#[test]
fn message_then_public_key_is_accepted() {
    let mut vm = machine(Some((0, signature_of(&MESSAGE))));
    assert_eq!(vm.memory.insert(&at(1), &felt(&MESSAGE)), Ok(()));
    assert_eq!(vm.memory.insert(&at(0), &felt(&public_key())), Ok(()));
}

#[test]
fn both_orders_leave_the_same_memory() {
    let mut key_first = machine(Some((5, signature_of(&MESSAGE))));
    key_first.memory.insert(&at(5), &felt(&public_key())).unwrap();
    key_first.memory.insert(&at(6), &felt(&MESSAGE)).unwrap();
    let mut message_first = machine(Some((5, signature_of(&MESSAGE))));
    message_first.memory.insert(&at(6), &felt(&MESSAGE)).unwrap();
    message_first.memory.insert(&at(5), &felt(&public_key())).unwrap();
    assert_eq!(key_first.memory, message_first.memory);
}

#[test]
fn unregistered_public_key_is_a_missing_signature() {
    let mut vm = machine(None);
    assert_eq!(vm.memory.insert(&at(0), &felt(&public_key())), Ok(()));
    assert_eq!(
        vm.memory.insert(&at(1), &felt(&MESSAGE)),
        Err(MemoryError::MissingSignature)
    );
}

#[test]
fn signature_registered_for_another_instance_is_missing() {
    let mut vm = machine(Some((0, signature_of(&MESSAGE))));
    assert_eq!(vm.memory.insert(&at(6), &felt(&MESSAGE)), Ok(()));
    assert_eq!(
        vm.memory.insert(&at(5), &felt(&public_key())),
        Err(MemoryError::MissingSignature)
    );
}

#[test]
fn flipped_message_byte_is_a_signature_mismatch() {
    let mut flipped = MESSAGE;
    flipped[3] ^= 0x01;
    let mut vm = machine(Some((0, signature_of(&MESSAGE))));
    assert_eq!(vm.memory.insert(&at(0), &felt(&public_key())), Ok(()));
    assert_eq!(
        vm.memory.insert(&at(1), &felt(&flipped)),
        Err(MemoryError::SignatureMismatch)
    );
    let mut other_order = machine(Some((0, signature_of(&MESSAGE))));
    assert_eq!(other_order.memory.insert(&at(1), &felt(&flipped)), Ok(()));
    assert_eq!(
        other_order.memory.insert(&at(0), &felt(&public_key())),
        Err(MemoryError::SignatureMismatch)
    );
}

#[test]
fn rejected_write_does_not_last() {
    let mut vm = machine(None);
    vm.memory.insert(&at(0), &felt(&public_key())).unwrap();
    let before = machine_with_key();
    assert_eq!(
        vm.memory.insert(&at(1), &felt(&MESSAGE)),
        Err(MemoryError::MissingSignature)
    );
    assert_eq!(vm.memory.get(&at(1)), None);
    assert_eq!(vm.memory.get(&at(0)), Some(&felt(&public_key())));
    assert_eq!(vm.memory, before.memory);
}

fn machine_with_key() -> VirtualMachine {
    let mut vm = machine(None);
    vm.memory.insert(&at(0), &felt(&public_key())).unwrap();
    vm
}

#[test]
fn rejected_write_leaves_the_value_that_was_there() {
    let mut flipped = MESSAGE;
    flipped[0] ^= 0x80;
    let mut vm = machine(Some((0, signature_of(&MESSAGE))));
    assert_eq!(vm.memory.insert(&at(0), &felt(&public_key())), Ok(()));
    assert_eq!(vm.memory.insert(&at(1), &felt(&MESSAGE)), Ok(()));
    assert_eq!(
        vm.memory.insert(&at(1), &felt(&flipped)),
        Err(MemoryError::SignatureMismatch)
    );
    assert_eq!(vm.memory.get(&at(1)), Some(&felt(&MESSAGE)));
    assert_eq!(
        vm.memory.insert(&at(0), &felt(&[4, 1, 2, 3])),
        Err(MemoryError::MalformedPublicKey)
    );
    assert_eq!(vm.memory.get(&at(0)), Some(&felt(&public_key())));
}

#[test]
fn rejected_write_can_be_made_good() {
    let mut flipped = MESSAGE;
    flipped[3] ^= 0x01;
    let mut vm = machine(Some((0, signature_of(&MESSAGE))));
    assert_eq!(vm.memory.insert(&at(0), &felt(&public_key())), Ok(()));
    assert_eq!(
        vm.memory.insert(&at(1), &felt(&flipped)),
        Err(MemoryError::SignatureMismatch)
    );
    assert_eq!(vm.memory.get(&at(1)), None);
    assert_eq!(vm.memory.insert(&at(1), &felt(&MESSAGE)), Ok(()));
    assert_eq!(vm.memory.get(&at(1)), Some(&felt(&MESSAGE)));
}

#[test]
fn signature_that_is_no_signature_is_a_mismatch() {
    let mut vm = machine(Some((0, Signature::from_bytes(vec![1, 2, 3]))));
    vm.memory.insert(&at(0), &felt(&public_key())).unwrap();
    assert_eq!(
        vm.memory.insert(&at(1), &felt(&MESSAGE)),
        Err(MemoryError::SignatureMismatch)
    );
    let mut zeros = machine(Some((0, Signature::from_bytes(vec![0; 64]))));
    zeros.memory.insert(&at(0), &felt(&public_key())).unwrap();
    assert_eq!(
        zeros.memory.insert(&at(1), &felt(&MESSAGE)),
        Err(MemoryError::SignatureMismatch)
    );
}

#[test]
fn bytes_that_are_no_point_are_a_malformed_key() {
    let mut vm = machine(Some((0, signature_of(&MESSAGE))));
    assert_eq!(vm.memory.insert(&at(0), &felt(&[4, 1, 2, 3])), Ok(()));
    assert_eq!(
        vm.memory.insert(&at(1), &felt(&MESSAGE)),
        Err(MemoryError::MalformedPublicKey)
    );
}

#[test]
fn malformed_key_comes_before_missing_signature() {
    let mut vm = machine(None);
    assert_eq!(vm.memory.insert(&at(1), &felt(&MESSAGE)), Ok(()));
    assert_eq!(
        vm.memory.insert(&at(0), &felt(&[9])),
        Err(MemoryError::MalformedPublicKey)
    );
}

#[test]
fn address_in_a_pair_is_a_malformed_address() {
    let mut vm = machine(Some((0, signature_of(&MESSAGE))));
    assert_eq!(vm.memory.insert(&at(0), &felt(&public_key())), Ok(()));
    assert_eq!(
        vm.memory.insert(&at(1), &MaybeRelocatable::from((1, 4))),
        Err(MemoryError::AddressNotRelocatable)
    );
    let mut key_is_address = machine(Some((0, signature_of(&MESSAGE))));
    assert_eq!(key_is_address.memory.insert(&at(1), &felt(&MESSAGE)), Ok(()));
    assert_eq!(
        key_is_address.memory.insert(&at(0), &MaybeRelocatable::from((1, 4))),
        Err(MemoryError::AddressNotRelocatable)
    );
}

#[test]
fn rule_asked_about_a_field_element_is_a_malformed_address() {
    let rule = SignatureRule::new(5, SignatureRegistry::new());
    let memory = Memory::new();
    assert_eq!(
        rule.validate(&memory, &felt(&[1])),
        Err(MemoryError::AddressNotRelocatable)
    );
    assert_eq!(
        ValidationRule::Signature(rule).validate(&memory, &felt(&[1])),
        Err(MemoryError::AddressNotRelocatable)
    );
}

#[test]
fn other_cells_of_an_instance_are_not_checked() {
    let mut vm = machine(None);
    for offset in 2..5 {
        assert_eq!(vm.memory.insert(&at(offset), &felt(&[1])), Ok(()));
    }
    assert_eq!(vm.memory.insert(&at(4), &felt(&[2])), Ok(()));
    assert_eq!(vm.memory.insert(&at(3), &felt(&[3])), Ok(()));
}

#[test]
fn lone_cells_are_deferred() {
    let mut vm = machine(None);
    assert_eq!(vm.memory.insert(&at(0), &felt(&[9])), Ok(()));
    assert_eq!(vm.memory.insert(&at(6), &felt(&[9])), Ok(()));
    assert_eq!(vm.memory.insert(&at(10), &felt(&[9])), Ok(()));
}

#[test]
fn second_instance_is_checked_like_the_first() {
    let mut vm = machine(Some((5, signature_of(&MESSAGE))));
    assert_eq!(vm.memory.insert(&at(5), &felt(&public_key())), Ok(()));
    assert_eq!(vm.memory.insert(&at(6), &felt(&MESSAGE)), Ok(()));
}

#[test]
fn message_is_read_without_leading_zero_bytes() {
    let mut padded = vec![0u8, 0u8];
    padded.extend_from_slice(&MESSAGE);
    let mut vm = machine(Some((0, signature_of(&MESSAGE))));
    assert_eq!(vm.memory.insert(&at(0), &felt(&public_key())), Ok(()));
    assert_eq!(vm.memory.insert(&at(1), &felt(&padded)), Ok(()));
}

#[test]
fn first_registration_wins() {
    let mut memory = Memory::new();
    let mut builtin = SignatureBuiltinRunner::new(&EcdsaInstanceDef::default(), true);
    builtin.add_signature(&mut memory, at(0), Signature::from_bytes(vec![1; 64]));
    builtin.add_signature(&mut memory, at(0), Signature::from_bytes(vec![2; 64]));
    builtin.add_signature(&mut memory, at(5), Signature::from_bytes(vec![3; 64]));
    assert_eq!(
        builtin.signatures.get(&at(0)),
        Some(&Signature::from_bytes(vec![1; 64]))
    );
    assert_eq!(
        builtin.signatures.get(&at(5)),
        Some(&Signature::from_bytes(vec![3; 64]))
    );
    assert_eq!(builtin.signatures.get(&at(10)), None);
    assert_eq!(Signature::from_bytes(vec![1, 2]).as_bytes(), &[1u8, 2u8][..]);
    assert_eq!(memory, Memory::new());
}

#[test]
fn later_registration_does_not_replace_a_valid_signature() {
    let mut vm = VirtualMachine::new();
    let mut builtin = SignatureBuiltinRunner::new(&EcdsaInstanceDef::default(), true);
    builtin.initialize_segments(&mut vm.segments, &mut vm.memory);
    let key_cell = Relocatable { segment_index: 0, offset: 0 };
    let message_cell = Relocatable { segment_index: 0, offset: 1 };
    builtin.add_signature(&mut vm.memory, key_cell, signature_of(&MESSAGE));
    builtin.add_signature(&mut vm.memory, key_cell, Signature::from_bytes(vec![0; 64]));
    builtin.add_validation_rule(&mut vm.memory).unwrap();
    assert_eq!(vm.memory.insert(&key_cell, &felt(&public_key())), Ok(()));
    assert_eq!(vm.memory.insert(&message_cell, &felt(&MESSAGE)), Ok(()));
}

#[test]
fn registration_after_installation_is_seen() {
    let mut vm = VirtualMachine::new();
    let mut builtin = SignatureBuiltinRunner::new(&EcdsaInstanceDef::default(), true);
    builtin.initialize_segments(&mut vm.segments, &mut vm.memory);
    let key_cell = Relocatable { segment_index: 0, offset: 0 };
    let message_cell = Relocatable { segment_index: 0, offset: 1 };
    builtin.add_validation_rule(&mut vm.memory).unwrap();
    builtin.add_signature(&mut vm.memory, key_cell, signature_of(&MESSAGE));
    assert_eq!(vm.memory.insert(&key_cell, &felt(&public_key())), Ok(()));
    assert_eq!(vm.memory.insert(&message_cell, &felt(&MESSAGE)), Ok(()));
    assert_eq!(vm.memory.get(&message_cell), Some(&felt(&MESSAGE)));
}

#[test]
fn registration_between_the_two_writes_is_seen() {
    let mut vm = VirtualMachine::new();
    let mut builtin = SignatureBuiltinRunner::new(&EcdsaInstanceDef::default(), true);
    builtin.initialize_segments(&mut vm.segments, &mut vm.memory);
    let key_cell = Relocatable { segment_index: 0, offset: 5 };
    let message_cell = Relocatable { segment_index: 0, offset: 6 };
    builtin.add_validation_rule(&mut vm.memory).unwrap();
    assert_eq!(vm.memory.insert(&message_cell, &felt(&MESSAGE)), Ok(()));
    assert_eq!(
        vm.memory.insert(&key_cell, &felt(&public_key())),
        Err(MemoryError::MissingSignature)
    );
    builtin.add_signature(&mut vm.memory, key_cell, signature_of(&MESSAGE));
    assert_eq!(vm.memory.insert(&key_cell, &felt(&public_key())), Ok(()));
}

#[test]
fn installed_rule_keeps_the_first_registration() {
    let mut vm = VirtualMachine::new();
    let mut builtin = SignatureBuiltinRunner::new(&EcdsaInstanceDef::default(), true);
    builtin.initialize_segments(&mut vm.segments, &mut vm.memory);
    let key_cell = Relocatable { segment_index: 0, offset: 0 };
    let message_cell = Relocatable { segment_index: 0, offset: 1 };
    builtin.add_validation_rule(&mut vm.memory).unwrap();
    builtin.add_signature(&mut vm.memory, key_cell, Signature::from_bytes(vec![0; 64]));
    builtin.add_signature(&mut vm.memory, key_cell, signature_of(&MESSAGE));
    assert_eq!(vm.memory.insert(&key_cell, &felt(&public_key())), Ok(()));
    assert_eq!(
        vm.memory.insert(&message_cell, &felt(&MESSAGE)),
        Err(MemoryError::SignatureMismatch)
    );
    assert_eq!(
        builtin.signatures.get(&key_cell),
        Some(&Signature::from_bytes(vec![0; 64]))
    );
}

#[test]
fn signature_for_a_segment_without_a_rule_changes_nothing() {
    let mut memory = Memory::new();
    memory.add_segment();
    let mut same = Memory::new();
    same.add_segment();
    memory.add_signature(0, at(0), signature_of(&MESSAGE));
    assert_eq!(memory, same);
    let mut builtin = SignatureBuiltinRunner::new(&EcdsaInstanceDef::default(), true);
    builtin.base = -1;
    builtin.add_signature(&mut memory, at(0), signature_of(&MESSAGE));
    assert_eq!(memory, same);
    assert_eq!(builtin.signatures.get(&at(0)), Some(&signature_of(&MESSAGE)));
}

#[test]
fn rule_takes_a_signature() {
    let rule = SignatureRule::new(5, SignatureRegistry::new());
    let mut registry = SignatureRegistry::new();
    registry.insert_if_absent(at(0), Signature::from_bytes(vec![1]));
    assert_eq!(
        rule.with_signature(at(0), Signature::from_bytes(vec![1])),
        SignatureRule::new(5, registry.clone())
    );
    let taken = ValidationRule::Signature(SignatureRule::new(5, SignatureRegistry::new()))
        .with_signature(at(0), Signature::from_bytes(vec![1]))
        .with_signature(at(0), Signature::from_bytes(vec![2]));
    assert_eq!(taken, ValidationRule::Signature(SignatureRule::new(5, registry)));
}

#[test]
fn verdict_from_the_answers_about_key_and_signature() {
    assert_eq!(signature_verdict(true, Some(true)), Ok(()));
    assert_eq!(signature_verdict(true, Some(false)), Err(MemoryError::SignatureMismatch));
    assert_eq!(signature_verdict(true, None), Err(MemoryError::MissingSignature));
    assert_eq!(signature_verdict(false, None), Err(MemoryError::MalformedPublicKey));
    assert_eq!(signature_verdict(false, Some(true)), Err(MemoryError::MalformedPublicKey));
    assert_eq!(signature_verdict(false, Some(false)), Err(MemoryError::MalformedPublicKey));
}

#[test]
fn registry_keeps_the_first_signature_of_an_address() {
    let mut registry = SignatureRegistry::new();
    assert_eq!(registry.get(&at(0)), None);
    registry.insert_if_absent(at(0), Signature::from_bytes(vec![1]));
    registry.insert_if_absent(at(5), Signature::from_bytes(vec![2]));
    registry.insert_if_absent(at(0), Signature::from_bytes(vec![3]));
    assert_eq!(registry.get(&at(0)), Some(&Signature::from_bytes(vec![1])));
    assert_eq!(registry.get(&at(5)), Some(&Signature::from_bytes(vec![2])));
    assert_eq!(registry.clone(), registry);
    assert_eq!(Signature::from_bytes(vec![1, 2]).clone(), Signature::from_bytes(vec![1, 2]));
}
