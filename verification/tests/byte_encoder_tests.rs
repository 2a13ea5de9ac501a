use flash_sim::byte_encoder::{ByteEncoder, ByteEncoderImpl};
use flash_sim::controller::CellType;
use flash_sim::errors::MemoryError;

#[test]
fn bit_slice_to_int_should_convert_zero() {
    let in_arg = &[false];

    let res = ByteEncoderImpl::bit_slice_to_int(in_arg);

    assert_eq!(0, res);
}

#[test]
fn bit_slice_to_int_should_convert_max_value() {
    let in_arg = &[true; 5];

    let res = ByteEncoderImpl::bit_slice_to_int(in_arg);

    assert_eq!(31, res);
}

#[test]
fn bit_slice_to_int_should_convert_11() {
    let in_arg = &[true, false, true, true];

    let res = ByteEncoderImpl::bit_slice_to_int(in_arg);

    assert_eq!(11, res);
}

#[test]
fn bit_slice_to_int_should_convert_16() {
    let in_arg = &[true, false, false, false, false];

    let res = ByteEncoderImpl::bit_slice_to_int(in_arg);

    assert_eq!(16, res);
}

#[test]
fn int_to_bit_slice_should_convert_zero() {
    let in_arg = 0;
    let dimension: usize = 4;

    let res = ByteEncoderImpl::int_to_bit_slice(in_arg, dimension);

    assert_eq!(vec![false; dimension], res);
}

#[test]
fn int_to_bit_slice_should_convert_value_in_middle() {
    let in_arg = 11;
    let dimension: usize = 4;

    let res = ByteEncoderImpl::int_to_bit_slice(in_arg, dimension);

    assert_eq!(vec![true, false, true, true], res);
}

#[test]
fn int_to_bit_slice_should_convert_max_value() {
    let in_arg = 15;
    let dimension: usize = 4;

    let res = ByteEncoderImpl::int_to_bit_slice(in_arg, dimension);

    assert_eq!(vec![true; dimension], res);
}

#[test]
fn bit_convertation_should_work() {
    let decimal = 17;
    let dimension = 5;

    let bits = ByteEncoderImpl::int_to_bit_slice(decimal, dimension);

    let decimal_res = ByteEncoderImpl::bit_slice_to_int(&bits[..]);

    assert_eq!(decimal, decimal_res);
}

#[test]
fn encode_bytes_to_page_should_return_right_section_for_zero() {
    let target: ByteEncoderImpl = ByteEncoderImpl::new();

    let in_vec_1 = vec![false; 1];
    let res_1 = target.encode_bytes_to_page(in_vec_1, CellType::Single, 1);
    assert_eq!(Ok(vec![63]), res_1);

    let in_vec_2 = vec![false; 2];
    let res_2 = target.encode_bytes_to_page(in_vec_2, CellType::Double, 1);
    assert_eq!(Ok(vec![31]), res_2);

    let in_vec_3 = vec![false; 3];
    let res_3 = target.encode_bytes_to_page(in_vec_3, CellType::Triple, 1);
    assert_eq!(Ok(vec![15]), res_3);

    let in_vec_4 = vec![false; 4];
    let res_4 = target.encode_bytes_to_page(in_vec_4, CellType::Quadro, 1);
    assert_eq!(Ok(vec![7]), res_4);

    let in_vec_5 = vec![false; 5];
    let res_5 = target.encode_bytes_to_page(in_vec_5, CellType::Penta, 1);
    assert_eq!(Ok(vec![3]), res_5);
}

#[test]
fn encode_bytes_to_page_should_return_right_section_for_max() {
    let target: ByteEncoderImpl = ByteEncoderImpl::new();

    let in_vec_1 = vec![true; 1];
    let res_1 = target.encode_bytes_to_page(in_vec_1, CellType::Single, 1);
    assert_eq!(Ok(vec![191]), res_1);

    let in_vec_2 = vec![true; 2];
    let res_2 = target.encode_bytes_to_page(in_vec_2, CellType::Double, 1);
    assert_eq!(Ok(vec![223]), res_2);

    let in_vec_3 = vec![true; 3];
    let res_3 = target.encode_bytes_to_page(in_vec_3, CellType::Triple, 1);
    assert_eq!(Ok(vec![239]), res_3);

    let in_vec_4 = vec![true; 4];
    let res_4 = target.encode_bytes_to_page(in_vec_4, CellType::Quadro, 1);
    assert_eq!(Ok(vec![247]), res_4);

    let in_vec_5 = vec![true; 5];
    let res_5 = target.encode_bytes_to_page(in_vec_5, CellType::Penta, 1);
    assert_eq!(Ok(vec![251]), res_5);
}

#[test]
fn encode_bytes_to_page_should_return_right_section_for_middle_val() {
    let target: ByteEncoderImpl = ByteEncoderImpl::new();

    let in_vec_2 = vec![true, false];
    let res_2 = target.encode_bytes_to_page(in_vec_2, CellType::Double, 1);
    assert_eq!(Ok(vec![159]), res_2);

    let in_vec_3 = vec![true, false, false];
    let res_3 = target.encode_bytes_to_page(in_vec_3, CellType::Triple, 1);
    assert_eq!(Ok(vec![143]), res_3);

    let in_vec_4 = vec![true, false, false, false];
    let res_4 = target.encode_bytes_to_page(in_vec_4, CellType::Quadro, 1);
    assert_eq!(Ok(vec![135]), res_4);

    let in_vec_5 = vec![true, false, false, false, false];
    let res_5 = target.encode_bytes_to_page(in_vec_5, CellType::Penta, 1);
    assert_eq!(Ok(vec![131]), res_5);
}

#[test]
fn encode_bytes_to_page_should_reject_wrong_vec_size() {
    let target: ByteEncoderImpl = ByteEncoderImpl::new();

    let in_vec = vec![true; 11];
    let res: Result<Vec<u8>, MemoryError> =
        target.encode_bytes_to_page(in_vec, CellType::Triple, 3);

    assert_eq!(Err(MemoryError::SizeMismatch), res);
}

#[test]
fn decode_page_to_bytes_should_reject_wrong_page_size() {
    let target: ByteEncoderImpl = ByteEncoderImpl::new();

    let res = target.decode_page_to_bytes(vec![0, 0], CellType::Single, 3);

    assert_eq!(Err(MemoryError::SizeMismatch), res);
}

#[test]
fn decode_page_to_bytes_should_return_right_section_for_zero() {
    let target: ByteEncoderImpl = ByteEncoderImpl::new();

    let in_arr = vec![0; 1];
    let res_1 = target.decode_page_to_bytes(in_arr.clone(), CellType::Single, 1);
    assert_eq!(Ok(vec![false]), res_1);

    let res_2 = target.decode_page_to_bytes(in_arr.clone(), CellType::Double, 1);
    assert_eq!(Ok(vec![false; 2]), res_2);

    let res_3 = target.decode_page_to_bytes(in_arr.clone(), CellType::Triple, 1);
    assert_eq!(Ok(vec![false; 3]), res_3);

    let res_4 = target.decode_page_to_bytes(in_arr.clone(), CellType::Quadro, 1);
    assert_eq!(Ok(vec![false; 4]), res_4);

    let res_5 = target.decode_page_to_bytes(in_arr.clone(), CellType::Penta, 1);
    assert_eq!(Ok(vec![false; 5]), res_5);
}

#[test]
fn decode_page_to_bytes_should_return_right_section_for_max() {
    let target: ByteEncoderImpl = ByteEncoderImpl::new();

    let in_arr = vec![254; 1];
    let res_1 = target.decode_page_to_bytes(in_arr.clone(), CellType::Single, 1);
    assert_eq!(Ok(vec![true]), res_1);

    let res_2 = target.decode_page_to_bytes(in_arr.clone(), CellType::Double, 1);
    assert_eq!(Ok(vec![true; 2]), res_2);

    let res_3 = target.decode_page_to_bytes(in_arr.clone(), CellType::Triple, 1);
    assert_eq!(Ok(vec![true; 3]), res_3);

    let res_4 = target.decode_page_to_bytes(in_arr.clone(), CellType::Quadro, 1);
    assert_eq!(Ok(vec![true; 4]), res_4);

    let res_5 = target.decode_page_to_bytes(in_arr.clone(), CellType::Penta, 1);
    assert_eq!(Ok(vec![true; 5]), res_5);
}

#[test]
fn decode_handles_top_boundary_levels() {
    let target: ByteEncoderImpl = ByteEncoderImpl::new();

    let in_arr = vec![255; 1];
    let res_1 = target.decode_page_to_bytes(in_arr.clone(), CellType::Single, 1);
    assert_eq!(Ok(vec![true]), res_1);

    let res_5 = target.decode_page_to_bytes(in_arr, CellType::Penta, 1);
    assert_eq!(Ok(vec![true; 5]), res_5);
}

#[test]
fn decode_accepts_any_level_within_the_section() {
    let target: ByteEncoderImpl = ByteEncoderImpl::new();

    // The midpoint of the upper Single section is 191, but any level of
    // [128, 255] carries the same bit.
    let res_1 = target.decode_page_to_bytes(vec![130], CellType::Single, 1);
    assert_eq!(Ok(vec![true]), res_1);

    // A drifted level inside the second Penta section [8, 15].
    let res_5 = target.decode_page_to_bytes(vec![9], CellType::Penta, 1);
    assert_eq!(Ok(vec![false, false, false, false, true]), res_5);
}

#[test]
fn encoding_and_decoding_should_work_consistent() {
    let target: ByteEncoderImpl = ByteEncoderImpl::new();

    let bits = vec![
        false, false, true, false, true, false, false, true, true, true, false, false, true,
        false, true,
    ];

    let pages_5 = target
        .encode_bytes_to_page(bits.clone(), CellType::Triple, 5)
        .unwrap();
    let res_5 = target.decode_page_to_bytes(pages_5, CellType::Triple, 5);
    assert_eq!(Ok(bits.clone()), res_5);

    let pages_3 = target
        .encode_bytes_to_page(bits.clone(), CellType::Penta, 3)
        .unwrap();
    let res_3 = target.decode_page_to_bytes(pages_3, CellType::Penta, 3);
    assert_eq!(Ok(bits), res_3);
}

#[test]
fn round_trip_holds_for_every_density_and_random_bits() {
    let target: ByteEncoderImpl = ByteEncoderImpl::new();
    let cell_types = [
        CellType::Single,
        CellType::Double,
        CellType::Triple,
        CellType::Quadro,
        CellType::Penta,
    ];

    for cell_type in cell_types {
        let mult = cell_type.multiplier() as usize;
        for page_size in 1..8 {
            let mut bits = Vec::new();
            for _ in 0..(page_size * mult) {
                bits.push(rand::random::<bool>());
            }
            let levels = target
                .encode_bytes_to_page(bits.clone(), cell_type, page_size)
                .unwrap();
            assert_eq!(page_size, levels.len());
            let decoded = target.decode_page_to_bytes(levels, cell_type, page_size);
            assert_eq!(Ok(bits), decoded);
        }
    }
}
