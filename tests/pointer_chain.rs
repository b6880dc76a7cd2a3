use soulmemory_rs::memory::{MemoryError, MemoryImage};
use soulmemory_rs::pointer::{ChainStep, PointerChain, PointerWidth};

fn image() -> MemoryImage {
    let mut m = MemoryImage::new();
    // a global at 0x1000 pointing to an object at 0x2000
    let mut global = vec![0u8; 16];
    global[0..8].copy_from_slice(&0x2000u64.to_le_bytes());
    m.map_region(0x1000, global);
    // the object: a pointer at +0x10 to 0x3000, a null pointer at +0x18
    let mut object = vec![0u8; 0x40];
    object[0x10..0x18].copy_from_slice(&0x3000u64.to_le_bytes());
    m.map_region(0x2000, object);
    let mut leaf = vec![0u8; 0x40];
    leaf[0x24..0x28].copy_from_slice(&0xdead_beefu32.to_le_bytes());
    leaf[0x30] = 0x7f;
    m.map_region(0x3000, leaf);
    m
}

#[test]
fn reads_through_a_chain() {
    let m = image();
    let chain = PointerChain::new(0x1000, vec![0, 0x10], PointerWidth::W64);
    assert_eq!(chain.read_u32(&m, Some(0x24)), Ok(0xdead_beef));
    assert_eq!(chain.read_u8(&m, Some(0x30)), Ok(0x7f));
    assert_eq!(chain.read_u16(&m, Some(0x24)), Ok(0xbeef));
}

#[test]
fn without_final_offset_the_last_offset_is_added() {
    let m = image();
    let chain = PointerChain::new(0x1000, vec![0], PointerWidth::W64);
    assert_eq!(chain.read_u64(&m, None), Ok(0x2000));
    assert_eq!(chain.resolve_address(&m, None), Ok(0x1000));
    assert_eq!(chain.resolve_address(&m, Some(0x10)), Ok(0x2010));
}

#[test]
fn two_reads_without_write_agree() {
    let m = image();
    let chain = PointerChain::new(0x1000, vec![0, 0x10], PointerWidth::W64);
    let first = chain.read_u32(&m, Some(0x24));
    let second = chain.read_u32(&m, Some(0x24));
    assert_eq!(first, second);
}

#[test]
fn null_pointer_fails_the_read() {
    let m = image();
    let chain = PointerChain::new(0x1000, vec![0, 0x18], PointerWidth::W64);
    assert_eq!(chain.read_u32(&m, Some(0)), Err(MemoryError::ReadFailed));
}

#[test]
fn unmapped_address_fails_the_read() {
    let m = image();
    let chain = PointerChain::new(0x9000, vec![0], PointerWidth::W64);
    assert_eq!(chain.read_u64(&m, None), Err(MemoryError::ReadFailed));
    let straddling = PointerChain::new(0x103c, vec![], PointerWidth::W64);
    assert_eq!(straddling.read_u64(&m, None), Err(MemoryError::ReadFailed));
}

#[test]
fn narrow_pointers_are_zero_extended() {
    let mut m = MemoryImage::new();
    let mut global = vec![0u8; 8];
    global[0..4].copy_from_slice(&0x8000_0010u32.to_le_bytes());
    global[4..8].copy_from_slice(&0xffff_ffffu32.to_le_bytes());
    m.map_region(0x100, global);
    let mut target = vec![0u8; 16];
    target[4] = 0x42;
    m.map_region(0x8000_0010, target);
    let chain = PointerChain::new(0x100, vec![0], PointerWidth::W32);
    assert_eq!(chain.read_u8(&m, Some(4)), Ok(0x42));
}

#[test]
fn offset_past_address_space_fails() {
    let m = image();
    let chain = PointerChain::new(u64::MAX, vec![1], PointerWidth::W64);
    assert_eq!(chain.resolve_address(&m, None), Err(MemoryError::ReadFailed));
}

#[test]
fn steps_describe_the_walk() {
    let chain = PointerChain::new(0x1000, vec![8, 0x10], PointerWidth::W64);
    assert_eq!(chain.path_len(Some(4)), 3);
    assert_eq!(chain.step(Some(4), 0, 0x1000), ChainStep::Follow { address: 0x1008 });
    assert_eq!(chain.step(Some(4), 2, 0x5000), ChainStep::Arrive { address: 0x5004 });
    assert_eq!(chain.step(None, 1, 0x5000), ChainStep::Arrive { address: 0x5010 });
    assert_eq!(chain.step(None, 0, u64::MAX), ChainStep::Overflow);
}

#[test]
fn earlier_region_takes_precedence() {
    let mut m = MemoryImage::new();
    m.map_region(0x10, vec![1, 2, 3, 4]);
    m.map_region(0x10, vec![9, 9, 9, 9]);
    assert_eq!(m.read_le(0x11, 2), Some(0x0302));
}

#[test]
fn same_bytes_in_another_layout_read_alike() {
    let mut whole = MemoryImage::new();
    let mut bytes = vec![0u8; 32];
    bytes[0..8].copy_from_slice(&0x110u64.to_le_bytes());
    bytes[0x14] = 0x99;
    whole.map_region(0x100, bytes.clone());
    let mut split = MemoryImage::new();
    split.map_region(0x100, bytes[0..16].to_vec());
    split.map_region(0x110, bytes[16..32].to_vec());
    let chain = PointerChain::new(0x100, vec![0], PointerWidth::W64);
    assert_eq!(chain.read_u8(&whole, Some(4)), Ok(0x99));
    assert_eq!(chain.read_u8(&whole, Some(4)), chain.read_u8(&split, Some(4)));
}
