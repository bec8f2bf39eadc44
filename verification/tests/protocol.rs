use rusty_loader::usb::boot_frame;
use rusty_loader::usb::encode_frame;
use rusty_loader::usb::plan_frames;
use rusty_loader::usb::ProgramError;

#[test]
fn remainder_image_fails_with_zero_frames_planned() {
    // 100 bytes do not divide into 64-byte blocks.
    let binary = vec![0u8; 100];
    let r = plan_frames(&binary, 1024, 64);
    assert_eq!(r, Err(ProgramError::BinaryRemainder));
}

#[test]
fn blank_blocks_at_nonzero_addresses_are_skipped() {
    // Three 4-byte blocks; the middle one is all 0xFF and must be skipped.
    let mut binary = vec![0xFFu8; 12];
    binary[0] = 0xFF; // block 0 is blank too, but is always written
    binary[8] = 0x01;
    let frames = plan_frames(&binary, 12, 4).unwrap();
    let addrs: Vec<usize> = frames.iter().map(|f| f.addr).collect();
    assert_eq!(addrs, vec![0, 8]);
}

#[test]
fn blank_block_at_address_zero_is_always_written() {
    let binary = vec![0xFFu8; 8];
    let frames = plan_frames(&binary, 8, 4).unwrap();
    assert_eq!(frames.len(), 1);
    assert_eq!(frames[0].addr, 0);
    // 2-byte header for address zero, then the block.
    assert_eq!(frames[0].data, vec![0, 0, 0xFF, 0xFF, 0xFF, 0xFF]);
}

#[test]
fn unknown_block_size_fails() {
    let binary = vec![0u8; 600];
    let r = plan_frames(&binary, 1024, 300);
    assert_eq!(r, Err(ProgramError::UnknownBlockSize(300)));
}

#[test]
fn small_flash_takes_plain_little_endian_addresses() {
    // code_size below 0x10000: the header is the address, little-endian.
    let chunk = vec![0xAAu8; 4];
    let frame = encode_frame(0x1234, &chunk, 256, 32256).unwrap();
    assert_eq!(&frame[0..2], &[0x34, 0x12]);
    assert_eq!(&frame[2..], &chunk[..]);
}

#[test]
fn large_flash_drops_the_low_address_byte() {
    // code_size of 130048 needs more than 16 bits of address space: the
    // 2-byte header carries the address shifted right 8 bits.
    let chunk = vec![0x55u8; 4];
    let frame = encode_frame(0x10000, &chunk, 256, 130048).unwrap();
    assert_eq!(&frame[0..2], &[0x00, 0x01]);

    let frame = encode_frame(0x10100, &chunk, 256, 130048).unwrap();
    assert_eq!(&frame[0..2], &[0x01, 0x01]);
}

#[test]
fn wide_blocks_take_a_64_byte_header() {
    let chunk = vec![0x77u8; 512];
    let frame = encode_frame(0x012345, &chunk, 512, 63488).unwrap();
    assert_eq!(frame.len(), 64 + 512);
    assert_eq!(&frame[0..3], &[0x45, 0x23, 0x01]);
    assert!(frame[3..64].iter().all(|&b| b == 0));
    assert_eq!(&frame[64..], &chunk[..]);
}

#[test]
fn plan_caps_at_the_flash_capacity() {
    // Eight 2-byte blocks of data, but only four fit below code_size 8.
    let binary: Vec<u8> = (1..=16).collect();
    let frames = plan_frames(&binary, 8, 2).unwrap();
    let addrs: Vec<usize> = frames.iter().map(|f| f.addr).collect();
    assert_eq!(addrs, vec![0, 2, 4, 6]);
    // Each frame carries its block after the 2-byte header.
    assert_eq!(&frames[3].data[..], &[6, 0, 7, 8]);
}

#[test]
fn boot_frame_is_the_write_size_with_the_reboot_trigger() {
    // A 512-byte block with its 64-byte header.
    let frame = boot_frame(512 + 64);
    assert_eq!(frame.len(), 576);
    assert_eq!(&frame[0..3], &[0xFF, 0xFF, 0xFF]);
    assert!(frame[3..].iter().all(|&b| b == 0));

    // A 128-byte block with its 2-byte header.
    let frame = boot_frame(128 + 2);
    assert_eq!(frame.len(), 130);
    assert_eq!(&frame[0..3], &[0xFF, 0xFF, 0xFF]);
    assert!(frame[3..].iter().all(|&b| b == 0));
}
