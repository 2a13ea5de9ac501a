use flash_sim::errors::MemoryError;
use flash_sim::fluctuator::{FluctuareT, ProdFluctuate, ZeroFluctuate};
use flash_sim::memory::{Address, Memory, MemoryImpl};

const CELLS_PER_PAGE: usize = 16;
const PAGES_PER_BLOCK: usize = 16;

#[test]
fn fluctuate_should_return_fluctuated_value() {
    let target = ProdFluctuate {};
    let count = 101;
    let value = 127;

    for _ in 1..10 {
        let res = target.fluctuate(count, value);
        assert!(res == 126 || res == 128);
    }
}

#[test]
fn fluctuate_should_not_overflow() {
    let target = ProdFluctuate {};
    let count = 100;
    let value = 0;

    for _ in 1..10 {
        let res = target.fluctuate(count, value);
        assert!(res == 0 || res == 1);
    }
}

#[test]
fn fluctuate_stays_in_level_range_across_wear() {
    let target = ProdFluctuate {};

    // Fresh device: the drift magnitude 1000 / 1100 truncates to 0.
    for value in [0u8, 127, 255] {
        assert_eq!(value, target.fluctuate(0, value));
    }

    // Half-worn device: magnitude 1000 / 500 == 2, clamped at the ends.
    for _ in 0..10 {
        let mid = target.fluctuate(600, 127);
        assert!(mid == 125 || mid == 129);
        let low = target.fluctuate(600, 0);
        assert!(low == 0 || low == 2);
        let high = target.fluctuate(600, 255);
        assert!(high == 253 || high == 255);
    }

    // Last rated cycle: the magnitude saturates at 255, and the result
    // still stays within the level range by clamping.
    for _ in 0..10 {
        let res = target.fluctuate(1099, 127);
        assert!(res == 0 || res == 255);
    }
}

#[test]
fn memory_program_should_save_value() {
    let mut target = MemoryImpl::new(ZeroFluctuate {}, 8, PAGES_PER_BLOCK, CELLS_PER_PAGE);
    let mut cells = Vec::new();
    for i in 0..CELLS_PER_PAGE {
        cells.push(i as u8);
    }
    let address = Address(2, 12);
    target.program(address, &cells).unwrap();
    let res = target.read(address).unwrap();

    assert_eq!(cells, *res);
}

#[test]
fn reset_should_delete_values_in_block() {
    let mut target = MemoryImpl::new(ZeroFluctuate {}, 8, PAGES_PER_BLOCK, CELLS_PER_PAGE);
    let mut cells = Vec::new();
    for i in 0..CELLS_PER_PAGE {
        cells.push(i as u8);
    }
    let block = 2;
    for i in 0..PAGES_PER_BLOCK {
        target.program(Address(block, i), &cells).unwrap();
    }
    target.reset(block).unwrap();
    for i in 0..PAGES_PER_BLOCK {
        let res = target.read(Address(block, i)).unwrap();
        assert_eq!(vec![0u8; CELLS_PER_PAGE], *res);
    }
}

#[test]
fn out_of_range_address_is_rejected() {
    let mut target = MemoryImpl::new(ZeroFluctuate {}, 8, PAGES_PER_BLOCK, CELLS_PER_PAGE);
    let cells = vec![0u8; CELLS_PER_PAGE];

    assert_eq!(
        Err(MemoryError::OutOfRange),
        target.read(Address(8, 0)).map(|v| v.clone())
    );
    assert_eq!(
        Err(MemoryError::OutOfRange),
        target.read(Address(0, PAGES_PER_BLOCK)).map(|v| v.clone())
    );
    assert_eq!(
        Err(MemoryError::OutOfRange),
        target.program(Address(8, 0), &cells)
    );
    assert_eq!(Err(MemoryError::OutOfRange), target.reset(8));
}

#[test]
fn reprogram_through_memory_is_rejected_until_block_reset() {
    let mut target = MemoryImpl::new(ZeroFluctuate {}, 2, 2, 4);
    let cells: Vec<u8> = vec![1, 2, 3, 4];
    let address = Address(1, 1);

    target.program(address, &cells).unwrap();
    assert_eq!(
        Err(MemoryError::IllegalReprogram),
        target.program(address, &cells)
    );

    target.reset(1).unwrap();
    assert_eq!(Ok(()), target.program(address, &cells));
    assert_eq!(cells, *target.read(address).unwrap());
}

#[test]
fn program_with_wrong_data_size_is_rejected() {
    let mut target = MemoryImpl::new(ZeroFluctuate {}, 2, 2, 4);
    let cells: Vec<u8> = vec![1, 2, 3];

    assert_eq!(
        Err(MemoryError::SizeMismatch),
        target.program(Address(0, 0), &cells)
    );
    assert_eq!(vec![0u8; 4], *target.read(Address(0, 0)).unwrap());
}
