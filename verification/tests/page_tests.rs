use flash_sim::errors::MemoryError;
use flash_sim::fluctuator::ZeroFluctuate;
use flash_sim::page::Page;

const PAGE_SIZE: usize = 4;

#[test]
fn page_program_should_save_value() {
    let mut target: Page = Page::new(PAGE_SIZE);
    let data: Vec<u8> = vec![64, 64, 0, 0];

    target.program(&data, &ZeroFluctuate {}).unwrap();

    let res = target.read();
    assert_eq!(data, *res);
}

#[test]
fn reset_should_reset_value_and_inc_count() {
    let mut target: Page = Page::new(PAGE_SIZE);
    let data: Vec<u8> = vec![64, 64, 0, 0];

    let count_size_before_reset = target.write_count;

    target.program(&data, &ZeroFluctuate {}).unwrap();
    assert_eq!(data, *target.read());

    target.reset();
    assert_eq!(vec![0; PAGE_SIZE], *target.read());

    let count_size_after_reset = target.write_count;
    assert_eq!(1, count_size_after_reset - count_size_before_reset);
}

#[test]
fn program_after_erase_succeeds_but_reprogram_fails() {
    let mut target: Page = Page::new(PAGE_SIZE);
    let data: Vec<u8> = vec![1, 2, 3, 4];

    assert_eq!(Ok(()), target.program(&data, &ZeroFluctuate {}));
    assert_eq!(data, *target.read());

    let second = target.program(&data, &ZeroFluctuate {});
    assert_eq!(Err(MemoryError::IllegalReprogram), second);
    assert_eq!(data, *target.read());

    target.reset();
    assert_eq!(Ok(()), target.program(&data, &ZeroFluctuate {}));
    assert_eq!(data, *target.read());
}

#[test]
fn program_should_reject_wrong_data_size() {
    let mut target: Page = Page::new(PAGE_SIZE);
    let data: Vec<u8> = vec![1, 2, 3];

    let res = target.program(&data, &ZeroFluctuate {});

    assert_eq!(Err(MemoryError::SizeMismatch), res);
    assert_eq!(vec![0; PAGE_SIZE], *target.read());
}

#[test]
fn reset_of_programmed_page_zeroes_cells_and_advances_wear() {
    let mut target: Page = Page::new(PAGE_SIZE);
    let data: Vec<u8> = vec![9, 8, 7, 6];

    target.program(&data, &ZeroFluctuate {}).unwrap();
    assert_eq!(0, target.write_count);

    target.reset();

    assert_eq!(vec![0; PAGE_SIZE], *target.read());
    assert_eq!(1, target.write_count);
}
