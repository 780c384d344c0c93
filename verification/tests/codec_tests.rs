use botw_vr::codec::{read_be32, read_u64_le, write_be32, write_u64_le};
use botw_vr::memory::{BufferMemory, ForeignMemory};

#[test]
fn be32_reads_high_byte_first() {
    let bytes = vec![0x12, 0x34, 0x56, 0x78, 0x9A];
    assert_eq!(read_be32(&bytes, 0), 0x12345678);
    assert_eq!(read_be32(&bytes, 1), 0x3456789A);
}

#[test]
fn be32_round_trip() {
    for w in [0u32, 1, 0x3F800000, 0xFFFFFFFF, 0x80000001] {
        let bytes = write_be32(w);
        assert_eq!(bytes.len(), 4);
        assert_eq!(read_be32(&bytes, 0), w);
    }
}

#[test]
fn u64_le_reads_low_byte_first() {
    let bytes = vec![0x01, 0x00, 0x00, 0x00, 0x00, 0x00, 0x00, 0x80];
    assert_eq!(read_u64_le(&bytes), 0x8000000000000001);
}

#[test]
fn u64_le_round_trip() {
    for v in [0u64, 1, 0xDEADBEEF, u64::MAX, 0x0123456789ABCDEF] {
        let bytes = write_u64_le(v);
        assert_eq!(bytes.len(), 8);
        assert_eq!(read_u64_le(&bytes), v);
        assert_eq!(bytes, v.to_le_bytes().to_vec());
    }
}

#[test]
fn buffer_memory_reads_and_writes_through_the_capability() {
    let data: Vec<u8> = (0u8..32).collect();
    let mut mem = BufferMemory::new(0x40, data, None);
    assert!(mem.contains_range(0x40, 32));
    assert!(mem.contains_range(0x5F, 1));
    assert!(!mem.contains_range(0x60, 1));
    assert!(!mem.contains_range(0x3F, 1));
    assert_eq!(mem.read_bytes(0x44, 3), vec![4, 5, 6]);
    mem.write_bytes(0x44, &vec![9, 9]).unwrap();
    assert_eq!(mem.read_bytes(0x43, 4), vec![3, 9, 9, 6]);
}

#[test]
fn poisoned_write_is_refused_and_changes_nothing() {
    let data: Vec<u8> = (0u8..16).collect();
    let mut mem = BufferMemory::new(0, data, Some(5));
    assert!(mem.write_bytes(4, &vec![1, 1, 1]).is_err());
    assert_eq!(mem.read_bytes(4, 3), vec![4, 5, 6]);
    // A write that misses the poisoned byte goes through.
    mem.write_bytes(6, &vec![7, 7]).unwrap();
    assert_eq!(mem.read_bytes(6, 2), vec![7, 7]);
}
