use rusty_loader::ihex_to_bytes;
use rusty_loader::HexRecord;
use rusty_loader::IHexError;
use rusty_loader::Mcu;

fn small_mcu() -> Mcu {
    Mcu { code_size: 1024, block_size: 128 }
}

#[test]
fn data_records_land_at_their_offsets() {
    let recs = vec![
        HexRecord::Data { offset: 0, value: vec![1, 2, 3, 4] },
        HexRecord::Data { offset: 16, value: vec![0xAB] },
    ];
    let (image, written) = ihex_to_bytes(&recs, &small_mcu()).unwrap();
    assert_eq!(image.len(), 1024);
    assert_eq!(written, 5);
    assert_eq!(&image[0..4], &[1, 2, 3, 4]);
    assert_eq!(image[4], 0xFF);
    assert_eq!(image[16], 0xAB);
    assert_eq!(image[1023], 0xFF);
}

#[test]
fn extended_segment_address_shifts_by_four_bits() {
    let recs = vec![
        HexRecord::ExtendedSegmentAddress(0x10),
        HexRecord::Data { offset: 4, value: vec![0x5A] },
    ];
    let (image, written) = ihex_to_bytes(&recs, &small_mcu()).unwrap();
    // base = 0x10 << 4 = 0x100, so the byte lands at 0x104.
    assert_eq!(image[0x104], 0x5A);
    assert_eq!(written, 1);
}

#[test]
fn extended_linear_address_shifts_by_sixteen_bits() {
    let mcu = Mcu { code_size: 0x20000, block_size: 1024 };
    let recs = vec![
        HexRecord::ExtendedLinearAddress(0x0001),
        HexRecord::Data { offset: 8, value: vec![0x77] },
    ];
    let (image, _) = ihex_to_bytes(&recs, &mcu).unwrap();
    assert_eq!(image[0x10008], 0x77);
    assert_eq!(image[8], 0xFF);
}

#[test]
fn start_address_records_are_ignored() {
    let recs = vec![
        HexRecord::StartLinearAddress(0xDEADBEEF),
        HexRecord::StartSegmentAddress { cs: 0x1234, ip: 0x5678 },
        HexRecord::Data { offset: 0, value: vec![9] },
    ];
    let (image, written) = ihex_to_bytes(&recs, &small_mcu()).unwrap();
    assert_eq!(image[0], 9);
    assert_eq!(written, 1);
}

#[test]
fn end_address_at_capacity_fails() {
    // End address == code_size: one byte too far, by the strict bound.
    let recs = vec![HexRecord::Data { offset: 1020, value: vec![0, 0, 0, 0] }];
    let r = ihex_to_bytes(&recs, &small_mcu());
    assert_eq!(r, Err(IHexError::AddressTooHigh(1024)));
}

#[test]
fn end_address_one_below_capacity_succeeds() {
    // End address == code_size - 1 is the last the decoder accepts.
    let recs = vec![HexRecord::Data { offset: 1020, value: vec![7, 8, 9] }];
    let (image, written) = ihex_to_bytes(&recs, &small_mcu()).unwrap();
    assert_eq!(written, 3);
    assert_eq!(&image[1020..1023], &[7, 8, 9]);
    assert_eq!(image[1023], 0xFF);
}

#[test]
fn overflow_aborts_the_whole_decode() {
    let recs = vec![
        HexRecord::Data { offset: 0, value: vec![1] },
        HexRecord::Data { offset: 2000, value: vec![2] },
    ];
    let r = ihex_to_bytes(&recs, &small_mcu());
    assert_eq!(r, Err(IHexError::AddressTooHigh(2001)));
}

#[test]
fn end_of_file_truncates_processing() {
    let recs = vec![
        HexRecord::Data { offset: 0, value: vec![1] },
        HexRecord::EndOfFile,
        HexRecord::Data { offset: 1, value: vec![2] },
        // Even an invalid record after the stop is never applied.
        HexRecord::Data { offset: 2000, value: vec![3] },
    ];
    let (image, written) = ihex_to_bytes(&recs, &small_mcu()).unwrap();
    assert_eq!(image[0], 1);
    assert_eq!(image[1], 0xFF);
    assert_eq!(written, 1);
}

#[test]
fn decoding_twice_gives_identical_images() {
    let recs = vec![
        HexRecord::Data { offset: 0, value: vec![1, 2, 3] },
        HexRecord::ExtendedSegmentAddress(0x20),
        HexRecord::Data { offset: 0, value: vec![4, 5] },
    ];
    let (image1, written1) = ihex_to_bytes(&recs, &small_mcu()).unwrap();
    let (image2, written2) = ihex_to_bytes(&recs, &small_mcu()).unwrap();
    assert_eq!(image1, image2);
    assert_eq!(written1, written2);
}
