use botw_vr::memory::BufferMemory;
use botw_vr::resolver::{
    resolve_attempt, signature_bytes, signature_matches, CameraOffsets, ResolveError, CAMERA_SLOT,
    ROTATION_SLOT_A, ROTATION_SLOT_B,
};

const TABLE_BASE: u64 = 0x1000;

fn slot_offset(slot: u64) -> usize {
    (8 * slot) as usize
}

/// A buffer covering the whole dispatch table window, with the given
/// pointers in the slots the resolver reads.
fn table_memory(placeholder: u64, camera: u64, rot_a: u64, rot_b: u64) -> BufferMemory {
    let len = slot_offset(ROTATION_SLOT_B) + 8 + 0x1000;
    let mut data = vec![0u8; len];
    data[0..8].copy_from_slice(&placeholder.to_le_bytes());
    let c = slot_offset(CAMERA_SLOT);
    data[c..c + 8].copy_from_slice(&camera.to_le_bytes());
    let a = slot_offset(ROTATION_SLOT_A);
    data[a..a + 8].copy_from_slice(&rot_a.to_le_bytes());
    let b = slot_offset(ROTATION_SLOT_B);
    data[b..b + 8].copy_from_slice(&rot_b.to_le_bytes());
    BufferMemory::new(TABLE_BASE, data, None)
}

fn write_signature_at(mem: &mut BufferMemory, entry: u64) {
    let off = (entry - TABLE_BASE) as usize;
    let sig = signature_bytes();
    mem.data[off..off + sig.len()].copy_from_slice(&sig);
}

#[test]
fn signature_validation_accepts_exact_bytes() {
    let sig = signature_bytes();
    assert!(signature_matches(&sig));
    assert_eq!(
        sig,
        vec![0x45, 0x0F, 0x38, 0xF1, 0xB4, 0x05, 0xC4, 0x05, 0x00, 0x00]
    );
}

#[test]
fn signature_validation_rejects_every_single_byte_mutation() {
    let sig = signature_bytes();
    for i in 0..sig.len() {
        let mut mutated = sig.clone();
        mutated[i] ^= 0x01;
        assert!(!signature_matches(&mutated), "mutation at byte {} accepted", i);
    }
}

#[test]
fn signature_validation_rejects_wrong_length() {
    let mut sig = signature_bytes();
    sig.pop();
    assert!(!signature_matches(&sig));
}

#[test]
fn null_table_base_is_empty_jump_table() {
    let mem = table_memory(0xAAAA, 0xAAAA, 0, 0);
    assert_eq!(
        resolve_attempt(&mem, 0).unwrap_err(),
        ResolveError::EmptyJumpTable
    );
}

#[test]
fn placeholder_slot_means_not_ready() {
    // The camera slot still holds the same stub pointer as slot zero.
    let mem = table_memory(0xAAAA, 0xAAAA, 0, 0);
    assert_eq!(resolve_attempt(&mem, TABLE_BASE), Ok(None));
}

#[test]
fn changed_slot_with_signature_resolves() {
    let camera_fn: u64 = 0x2000;
    let rot_a: u64 = 0x3000;
    let rot_b: u64 = 0x4000;
    let mut mem = table_memory(0xAAAA, camera_fn, rot_a, rot_b);
    let entry = camera_fn + 0x6C;
    write_signature_at(&mut mem, entry);
    let offsets = resolve_attempt(&mem, TABLE_BASE).unwrap().unwrap();
    assert_eq!(
        offsets,
        CameraOffsets {
            camera: entry,
            rotation_vec1: rot_a + 0x157,
            rotation_vec2: rot_b + 0x7F,
        }
    );
    assert_ne!(offsets.camera, 0);
    assert_ne!(offsets.rotation_vec1, 0);
    assert_ne!(offsets.rotation_vec2, 0);
}

#[test]
fn mutated_signature_is_fatal_mismatch() {
    let camera_fn: u64 = 0x2000;
    let mut mem = table_memory(0xAAAA, camera_fn, 0x3000, 0x4000);
    let entry = camera_fn + 0x6C;
    write_signature_at(&mut mem, entry);
    let off = (entry - TABLE_BASE) as usize;
    mem.data[off + 4] ^= 0x80;
    assert_eq!(
        resolve_attempt(&mem, TABLE_BASE).unwrap_err(),
        ResolveError::SignatureMismatch
    );
}

#[test]
fn unmapped_candidate_entry_is_reported() {
    // The changed slot points far outside the mapped window.
    let mem = table_memory(0xAAAA, 0xFFFF_0000_0000_0000, 0x3000, 0x4000);
    assert_eq!(
        resolve_attempt(&mem, TABLE_BASE).unwrap_err(),
        ResolveError::UnreadableAddress
    );
}

#[test]
fn overflowing_candidate_entry_is_reported() {
    let mem = table_memory(0xAAAA, u64::MAX - 0x10, 0x3000, 0x4000);
    assert_eq!(
        resolve_attempt(&mem, TABLE_BASE).unwrap_err(),
        ResolveError::AddressOverflow
    );
}
