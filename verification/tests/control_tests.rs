use botw_vr::control::{
    camera_patch_group, ControlLoop, ControlSignals, TickAction, TickError, CAMERA_BLOCK_LEN,
    FOV_OFFSET, ROT_X_OFFSET, ROT_Y_OFFSET,
};
use botw_vr::memory::BufferMemory;
use botw_vr::patch::{Patch, PatchError, PatchGroup};
use botw_vr::resolver::CameraOffsets;
use botw_vr::telemetry::TelemetrySample;

const BASE: u64 = 0x100;
const CAMERA_PTR: u64 = 0x200;

fn setup() -> (BufferMemory, PatchGroup, ControlLoop, TelemetrySample) {
    let len = (CAMERA_PTR - BASE) as usize + CAMERA_BLOCK_LEN + 0x40;
    let data: Vec<u8> = (0..len).map(|i| (i % 249) as u8).collect();
    let mem = BufferMemory::new(BASE, data, None);
    let group = PatchGroup::new(vec![
        Patch::new(0x110, vec![0x90; 4]),
        Patch::new(0x118, vec![0x90; 4]),
    ]);
    let mut sample = TelemetrySample::zeroed();
    sample.rot_x = 0x3F800000;
    sample.rot_y = 0x40490FDB;
    (mem, group, ControlLoop::new(), sample)
}

const QUIET: ControlSignals = ControlSignals { toggle: false, shutdown: false };

#[test]
fn shutdown_wins_and_changes_nothing() {
    let (mut mem, mut group, mut ctl, sample) = setup();
    let before = mem.data.clone();
    let action = ctl
        .tick(
            &mut mem,
            &mut group,
            ControlSignals { toggle: true, shutdown: true },
            CAMERA_PTR,
            &sample,
        )
        .unwrap();
    assert_eq!(action, TickAction::Exit);
    assert_eq!(mem.data, before);
    assert!(!ctl.active);
}

#[test]
fn null_pointer_skips_the_tick() {
    let (mut mem, mut group, mut ctl, sample) = setup();
    let before = mem.data.clone();
    let action = ctl.tick(&mut mem, &mut group, QUIET, 0, &sample).unwrap();
    assert_eq!(action, TickAction::AwaitingCamera);
    assert_eq!(mem.data, before);
}

#[test]
fn inactive_tick_caches_live_fov() {
    let (mut mem, mut group, mut ctl, sample) = setup();
    let fov_off = (CAMERA_PTR - BASE + FOV_OFFSET) as usize;
    mem.data[fov_off..fov_off + 4].copy_from_slice(&0x42C80000u32.to_be_bytes());
    let before = mem.data.clone();
    let action = ctl.tick(&mut mem, &mut group, QUIET, CAMERA_PTR, &sample).unwrap();
    assert_eq!(action, TickAction::CachedFov);
    assert_eq!(ctl.cached_fov, 0x42C80000);
    assert_eq!(f32::from_bits(ctl.cached_fov), 100.0);
    assert_eq!(mem.data, before);
}

#[test]
fn toggle_applies_group_and_next_tick_writes_fields() {
    let (mut mem, mut group, mut ctl, sample) = setup();
    ctl.cached_fov = 0x42C80000;
    let toggled = ctl
        .tick(
            &mut mem,
            &mut group,
            ControlSignals { toggle: true, shutdown: false },
            CAMERA_PTR,
            &sample,
        )
        .unwrap();
    assert_eq!(toggled, TickAction::Toggled);
    assert!(ctl.active);
    assert_eq!(&mem.data[0x10..0x14], &[0x90; 4]);
    assert_eq!(&mem.data[0x18..0x1C], &[0x90; 4]);

    let wrote = ctl.tick(&mut mem, &mut group, QUIET, CAMERA_PTR, &sample).unwrap();
    assert_eq!(wrote, TickAction::WroteCamera);
    let rx = (CAMERA_PTR - BASE + ROT_X_OFFSET) as usize;
    let ry = (CAMERA_PTR - BASE + ROT_Y_OFFSET) as usize;
    let fv = (CAMERA_PTR - BASE + FOV_OFFSET) as usize;
    assert_eq!(&mem.data[rx..rx + 4], &0x3F800000u32.to_be_bytes());
    assert_eq!(&mem.data[ry..ry + 4], &0x40490FDBu32.to_be_bytes());
    assert_eq!(&mem.data[fv..fv + 4], &0x42C80000u32.to_be_bytes());
}

#[test]
fn toggle_off_reverts_group() {
    let (mut mem, mut group, mut ctl, sample) = setup();
    let before = mem.data.clone();
    let on = ControlSignals { toggle: true, shutdown: false };
    ctl.tick(&mut mem, &mut group, on, CAMERA_PTR, &sample).unwrap();
    assert!(ctl.active);
    ctl.tick(&mut mem, &mut group, on, CAMERA_PTR, &sample).unwrap();
    assert!(!ctl.active);
    assert_eq!(mem.data, before);
}

#[test]
fn toggle_with_refused_write_reports_the_member() {
    let (mut mem, mut group, mut ctl, sample) = setup();
    mem.poison = Some(0x119);
    let err = ctl
        .tick(
            &mut mem,
            &mut group,
            ControlSignals { toggle: true, shutdown: false },
            CAMERA_PTR,
            &sample,
        )
        .unwrap_err();
    assert_eq!(
        err,
        TickError::Patch(PatchError::PatchFailed { address: 0x118 })
    );
    // The first member stays applied.
    assert!(group.patches[0].saved.is_some());
    assert!(group.patches[1].saved.is_none());
}

#[test]
fn camera_patch_group_builds_ten_members() {
    let offsets = CameraOffsets {
        camera: 0x10_000,
        rotation_vec1: 0x20_000,
        rotation_vec2: 0x30_000,
    };
    let group = camera_patch_group(&offsets).unwrap();
    assert_eq!(group.patches.len(), 10);
    let expected: Vec<(u64, usize)> = vec![
        (0x10_017, 10),
        (0x10_098, 10),
        (0x10_1DF, 10),
        (0x10_0AF, 10),
        (0x20_000, 10),
        (0x20_03E, 10),
        (0x20_09B, 10),
        (0x30_000, 7),
        (0x2F_FEC, 7),
        (0x2F_FD8, 7),
    ];
    for (p, (addr, len)) in group.patches.iter().zip(expected.iter()) {
        assert_eq!(p.address, *addr);
        assert_eq!(p.replacement.len(), *len);
        assert!(p.replacement.iter().all(|b| *b == 0x90));
        assert!(p.saved.is_none());
    }
}

#[test]
fn camera_patch_group_refuses_overlapping_regions() {
    let offsets = CameraOffsets {
        camera: 0x10_000,
        // Overlaps the first camera region exactly.
        rotation_vec1: 0x10_017,
        rotation_vec2: 0x30_000,
    };
    assert!(camera_patch_group(&offsets).is_none());
}

#[test]
fn camera_patch_group_refuses_underflowing_region() {
    let offsets = CameraOffsets {
        camera: 0x10_000,
        rotation_vec1: 0x20_000,
        // rotation region lies below address zero.
        rotation_vec2: 0x10,
    };
    assert!(camera_patch_group(&offsets).is_none());
}
