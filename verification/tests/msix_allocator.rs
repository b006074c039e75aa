use vfio_pci::error::PciDeviceError;
use vfio_pci::msix_allocator::VfioMsixAllocator;

#[test]
fn no_overlap() {
    // regions [32, 95]
    let mut memory = VfioMsixAllocator::new(32, 64).unwrap();
    memory.allocate_at(0, 16).unwrap();
    memory.allocate_at(100, 16).unwrap();

    let mut iter = memory.regions.iter();
    assert_eq!(iter.next(), Some(&(32, 95)));
}

#[test]
fn full_overlap() {
    // regions [32, 95]
    let mut memory = VfioMsixAllocator::new(32, 64).unwrap();
    // regions [32, 47], [64, 95]
    memory.allocate_at(48, 16).unwrap();
    // regions [64, 95]
    memory.allocate_at(32, 16).unwrap();

    let mut iter = memory.regions.iter();
    assert_eq!(iter.next(), Some(&(64, 95)));
}

#[test]
fn partial_overlap_one() {
    // regions [32, 95]
    let mut memory = VfioMsixAllocator::new(32, 64).unwrap();
    // regions [32, 47], [64, 95]
    memory.allocate_at(48, 16).unwrap();
    // regions [32, 39], [64, 95]
    memory.allocate_at(40, 16).unwrap();

    let mut iter = memory.regions.iter();
    assert_eq!(iter.next(), Some(&(32, 39)));
    assert_eq!(iter.next(), Some(&(64, 95)));
}

#[test]
fn partial_overlap_two() {
    // regions [32, 95]
    let mut memory = VfioMsixAllocator::new(32, 64).unwrap();
    // regions [32, 47], [64, 95]
    memory.allocate_at(48, 16).unwrap();
    // regions [32, 39], [72, 95]
    memory.allocate_at(40, 32).unwrap();

    let mut iter = memory.regions.iter();
    assert_eq!(iter.next(), Some(&(32, 39)));
    assert_eq!(iter.next(), Some(&(72, 95)));
}

#[test]
fn partial_overlap_three() {
    // regions [32, 95]
    let mut memory = VfioMsixAllocator::new(32, 64).unwrap();
    // regions [32, 39], [48, 95]
    memory.allocate_at(40, 8).unwrap();
    // regions [32, 39], [48, 63], [72, 95]
    memory.allocate_at(64, 8).unwrap();
    // regions [32, 35], [76, 95]
    memory.allocate_at(36, 40).unwrap();

    let mut iter = memory.regions.iter();
    assert_eq!(iter.next(), Some(&(32, 35)));
    assert_eq!(iter.next(), Some(&(76, 95)));
}

#[test]
fn empty_range_is_refused() {
    assert!(matches!(VfioMsixAllocator::new(32, 0), Err(PciDeviceError::MsixAllocatorSizeZero)));
    let mut memory = VfioMsixAllocator::new(32, 64).unwrap();
    assert!(matches!(memory.allocate_at(40, 0), Err(PciDeviceError::MsixAllocatorSizeZero)));
    assert_eq!(memory.list(), vec![(32, 95)]);
}

#[test]
fn range_past_the_address_space_is_refused() {
    match VfioMsixAllocator::new(u64::MAX, 2) {
        Err(PciDeviceError::MsixAllocatorOverflow { base, size }) => {
            assert_eq!((base, size), (u64::MAX, 2));
        }
        _ => panic!("the range does not fit"),
    }
    let mut memory = VfioMsixAllocator::new(u64::MAX, 1).unwrap();
    assert!(matches!(
        memory.allocate_at(u64::MAX, 2),
        Err(PciDeviceError::MsixAllocatorOutOfSpace)
    ));
    assert_eq!(memory.list(), vec![(u64::MAX, u64::MAX)]);
    memory.allocate_at(u64::MAX, 1).unwrap();
    assert!(memory.list().is_empty());
}

#[test]
fn order_of_carving_does_not_matter() {
    let mut a = VfioMsixAllocator::new(0, 1000).unwrap();
    a.allocate_at(100, 50).unwrap();
    a.allocate_at(120, 300).unwrap();
    let mut b = VfioMsixAllocator::new(0, 1000).unwrap();
    b.allocate_at(120, 300).unwrap();
    b.allocate_at(100, 50).unwrap();
    assert_eq!(a.list(), vec![(0, 99), (420, 999)]);
    assert_eq!(a.list(), b.list());
}

#[test]
fn regions_never_lie_side_by_side() {
    let mut memory = VfioMsixAllocator::new(0, 100).unwrap();
    memory.allocate_at(50, 1).unwrap();
    assert_eq!(memory.list(), vec![(0, 49), (51, 99)]);
    memory.allocate_at(49, 3).unwrap();
    assert_eq!(memory.list(), vec![(0, 48), (52, 99)]);
}
