//! One whole session against an in-process stand-in address space:
//! resolve the addresses, install the detour, toggle the overlay on, write
//! telemetry-derived fields, toggle it off, and detach with every foreign
//! byte restored.

use botw_vr::control::{
    camera_patch_group, ControlLoop, ControlSignals, TickAction, FOV_OFFSET, ROT_X_OFFSET,
};
use botw_vr::detour::Detour;
use botw_vr::memory::BufferMemory;
use botw_vr::resolver::{
    resolve_attempt, signature_bytes, CAMERA_SLOT, ROTATION_SLOT_A, ROTATION_SLOT_B,
};
use botw_vr::telemetry::{InputPoll, TelemetrySample};

const TABLE_BASE: u64 = 0x1000;

#[test]
fn full_session_round_trip() {
    // Address space: table, signature at the camera entry, rotation
    // regions, and the camera structure block near the end.
    let camera_fn: u64 = TABLE_BASE + 0x100;
    let len = (8 * ROTATION_SLOT_B) as usize + 8 + 0x1000;
    let mut data = vec![0u8; len];
    let placeholder: u64 = 0xAAAA;
    data[0..8].copy_from_slice(&placeholder.to_le_bytes());
    let c = (8 * CAMERA_SLOT) as usize;
    data[c..c + 8].copy_from_slice(&placeholder.to_le_bytes());
    let a = (8 * ROTATION_SLOT_A) as usize;
    data[a..a + 8].copy_from_slice(&(camera_fn + 0x400u64).to_le_bytes());
    let b = (8 * ROTATION_SLOT_B) as usize;
    data[b..b + 8].copy_from_slice(&(camera_fn + 0x800u64).to_le_bytes());
    let sig = signature_bytes();
    let entry_off = (camera_fn + 0x6C - TABLE_BASE) as usize;
    data[entry_off..entry_off + sig.len()].copy_from_slice(&sig);
    let camera_struct = TABLE_BASE + (len as u64) - 0x100;
    let mut mem = BufferMemory::new(TABLE_BASE, data, None);

    // The slot still holds the placeholder: not ready, poll again.
    assert_eq!(resolve_attempt(&mem, TABLE_BASE), Ok(None));

    // The foreign compiler materializes the function; the slot changes.
    mem.data[c..c + 8].copy_from_slice(&camera_fn.to_le_bytes());
    let offsets = resolve_attempt(&mem, TABLE_BASE).unwrap().unwrap();
    assert_eq!(offsets.camera, camera_fn + 0x6C);

    let pristine = mem.data.clone();

    let mut detour = Detour::new(offsets.camera, 14, 0x7FFF_0000_1000);
    detour.install(&mut mem).unwrap();

    let mut group = camera_patch_group(&offsets).unwrap();
    let mut ctl = ControlLoop::new();
    let mut poll = InputPoll::new();
    poll.start_polling();

    // One frame arrives; the consumer snapshots it.
    let mut frame = vec![0u8; 96];
    frame[12..16].copy_from_slice(&0x3F800000u32.to_be_bytes());
    poll.publish_frame(&frame).unwrap();
    let mut sample = TelemetrySample::zeroed();
    assert!(poll.get_input(&mut sample));

    let quiet = ControlSignals { toggle: false, shutdown: false };
    let toggle = ControlSignals { toggle: true, shutdown: false };

    // Inactive tick caches the live field-of-view word.
    let fov_off = (camera_struct - TABLE_BASE + FOV_OFFSET) as usize;
    mem.data[fov_off..fov_off + 4].copy_from_slice(&0x42C80000u32.to_be_bytes());
    assert_eq!(
        ctl.tick(&mut mem, &mut group, quiet, camera_struct, &sample).unwrap(),
        TickAction::CachedFov
    );

    // Toggle on: the no-op patches land.
    assert_eq!(
        ctl.tick(&mut mem, &mut group, toggle, camera_struct, &sample).unwrap(),
        TickAction::Toggled
    );
    let first_nop = (offsets.camera + 0x17 - TABLE_BASE) as usize;
    assert_eq!(&mem.data[first_nop..first_nop + 10], &[0x90; 10]);

    // Active tick writes the derived fields through the captured pointer.
    assert_eq!(
        ctl.tick(&mut mem, &mut group, quiet, camera_struct, &sample).unwrap(),
        TickAction::WroteCamera
    );
    let rx_off = (camera_struct - TABLE_BASE + ROT_X_OFFSET) as usize;
    assert_eq!(&mem.data[rx_off..rx_off + 4], &0x3F800000u32.to_be_bytes());

    // Toggle off, stop the poller, remove the detour: every byte restored.
    assert_eq!(
        ctl.tick(&mut mem, &mut group, toggle, camera_struct, &sample).unwrap(),
        TickAction::Toggled
    );
    poll.stop_polling().unwrap();
    detour.uninstall(&mut mem).unwrap();
    // The camera structure fields were overwritten on purpose; everything
    // else, the patched code regions above all, is byte for byte as before.
    let struct_off = (camera_struct - TABLE_BASE) as usize;
    assert_eq!(&mem.data[..struct_off], &pristine[..struct_off]);
}
