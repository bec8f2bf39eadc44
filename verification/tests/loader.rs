use rusty_loader::load_bytes;
use rusty_loader::parse_mcu;
use rusty_loader::FileHint;
use rusty_loader::LoadError;
use rusty_loader::Mcu;

/// One Intel HEX text line: start code, byte count, big-endian offset,
/// record type, data, checksum.
fn ihex_line(offset: u16, rec_type: u8, data: &[u8]) -> String {
    let mut bytes = vec![data.len() as u8, (offset >> 8) as u8, offset as u8, rec_type];
    bytes.extend_from_slice(data);
    let sum: u8 = bytes.iter().fold(0u8, |a, &b| a.wrapping_add(b));
    let mut line = String::from(":");
    for b in &bytes {
        line.push_str(&format!("{:02X}", b));
    }
    line.push_str(&format!("{:02X}", sum.wrapping_neg()));
    line
}

/// A minimal ELF32 executable for the expected CPU family: header, no
/// program headers, one PROGBITS+ALLOC section header per entry, contents
/// appended after the headers.
fn build_elf32(sections: &[(u32, &[u8])]) -> Vec<u8> {
    let shoff: u32 = 52;
    let mut data_off: usize = 52 + 40 * sections.len();
    let mut out: Vec<u8> = Vec::new();
    out.extend_from_slice(&[0x7F, b'E', b'L', b'F', 1, 1, 1, 0, 0, 0, 0, 0, 0, 0, 0, 0]);
    out.extend_from_slice(&2u16.to_le_bytes()); // executable
    out.extend_from_slice(&0x28u16.to_le_bytes()); // the ARM machine type
    out.extend_from_slice(&1u32.to_le_bytes()); // ELF version
    out.extend_from_slice(&0u32.to_le_bytes()); // entry point
    out.extend_from_slice(&0u32.to_le_bytes()); // program header offset
    out.extend_from_slice(&shoff.to_le_bytes()); // section header offset
    out.extend_from_slice(&0u32.to_le_bytes()); // flags
    out.extend_from_slice(&52u16.to_le_bytes()); // ELF header size
    out.extend_from_slice(&32u16.to_le_bytes()); // program header entry size
    out.extend_from_slice(&0u16.to_le_bytes()); // program header count
    out.extend_from_slice(&40u16.to_le_bytes()); // section header entry size
    out.extend_from_slice(&(sections.len() as u16).to_le_bytes()); // section count
    out.extend_from_slice(&0u16.to_le_bytes()); // section-name string table index
    for (addr, data) in sections {
        out.extend_from_slice(&0u32.to_le_bytes()); // name offset
        out.extend_from_slice(&1u32.to_le_bytes()); // PROGBITS
        out.extend_from_slice(&2u32.to_le_bytes()); // ALLOC
        out.extend_from_slice(&addr.to_le_bytes());
        out.extend_from_slice(&(data_off as u32).to_le_bytes());
        out.extend_from_slice(&(data.len() as u32).to_le_bytes());
        out.extend_from_slice(&0u32.to_le_bytes()); // link
        out.extend_from_slice(&0u32.to_le_bytes()); // info
        out.extend_from_slice(&1u32.to_le_bytes()); // alignment
        out.extend_from_slice(&0u32.to_le_bytes()); // entry size
        data_off += data.len();
    }
    for (_, data) in sections {
        out.extend_from_slice(data);
    }
    out
}

#[test]
fn ihex_text_loads_through_the_dispatcher() {
    let mcu = Mcu { code_size: 1024, block_size: 128 };
    let mut text = String::new();
    text.push_str(&ihex_line(0x10, 0, &[1, 2, 3, 4]));
    text.push('\n');
    text.push_str(":00000001FF\n");
    let (image, written) = load_bytes(text.as_bytes(), FileHint::IHEX, &mcu).unwrap();
    assert_eq!(image.len(), 1024);
    assert_eq!(written, 4);
    assert_eq!(&image[0x10..0x14], &[1, 2, 3, 4]);
    assert_eq!(image[0x14], 0xFF);

    // The auto-detecting hint reaches the same decoding.
    let (image2, written2) = load_bytes(text.as_bytes(), FileHint::Any, &mcu).unwrap();
    assert_eq!(image, image2);
    assert_eq!(written, written2);
}

#[test]
fn elf_bytes_load_through_the_dispatcher() {
    let mcu = Mcu { code_size: 1024, block_size: 128 };
    let bytes = build_elf32(&[(0x20, &[5, 6, 7])]);
    let (image, written) = load_bytes(&bytes, FileHint::ELF, &mcu).unwrap();
    assert_eq!(image, vec![5, 6, 7]);
    assert_eq!(written, 3);

    let (image2, _) = load_bytes(&bytes, FileHint::Any, &mcu).unwrap();
    assert_eq!(image, image2);
}

#[test]
fn hints_forbid_the_other_decoder() {
    let mcu = Mcu { code_size: 1024, block_size: 128 };

    let mut text = String::new();
    text.push_str(&ihex_line(0, 0, &[1]));
    text.push('\n');
    text.push_str(":00000001FF\n");
    let r = load_bytes(text.as_bytes(), FileHint::ELF, &mcu);
    assert!(matches!(r, Err(LoadError::NotValidFile)));

    let bytes = build_elf32(&[(0, &[1, 2])]);
    let r = load_bytes(&bytes, FileHint::IHEX, &mcu);
    assert!(matches!(r, Err(LoadError::NotValidFile)));
}

#[test]
fn garbage_is_not_a_valid_file() {
    let mcu = Mcu { code_size: 1024, block_size: 128 };
    let r = load_bytes(b"neither format at all", FileHint::Any, &mcu);
    assert!(matches!(r, Err(LoadError::NotValidFile)));
}

#[test]
fn overflowing_ihex_is_rejected_by_the_dispatcher() {
    let mcu = Mcu { code_size: 16, block_size: 4 };
    let mut text = String::new();
    text.push_str(&ihex_line(12, 0, &[1, 2, 3, 4])); // ends exactly at 16
    text.push('\n');
    text.push_str(":00000001FF\n");
    let r = load_bytes(text.as_bytes(), FileHint::IHEX, &mcu);
    assert!(matches!(r, Err(LoadError::NotValidFile)));
}

#[test]
fn text_after_the_end_of_file_record_is_ignored() {
    let mcu = Mcu { code_size: 1024, block_size: 128 };
    let mut text = String::new();
    text.push_str(&ihex_line(0, 0, &[1, 2]));
    text.push('\n');
    text.push_str(":00000001FF\n");
    // Whatever follows the end-of-file record, valid or not, changes nothing.
    text.push_str(&ihex_line(4, 0, &[9, 9]));
    text.push('\n');
    text.push_str("not a record at all\n");
    let (image, written) = load_bytes(text.as_bytes(), FileHint::IHEX, &mcu).unwrap();
    assert_eq!(&image[0..2], &[1, 2]);
    assert_eq!(image[4], 0xFF);
    assert_eq!(written, 2);
}

#[test]
fn a_bad_byte_before_the_records_spoils_the_parse() {
    let mcu = Mcu { code_size: 1024, block_size: 128 };
    let mut bytes: Vec<u8> = vec![0xFE, b'\n'];
    bytes.extend_from_slice(ihex_line(0, 0, &[1, 2]).as_bytes());
    bytes.extend_from_slice(b"\n:00000001FF\n");
    // The invalid byte becomes a replacement character on its own line, the
    // reader stops at that bad record, and nothing is decoded.
    let r = load_bytes(&bytes, FileHint::IHEX, &mcu);
    assert!(matches!(r, Err(LoadError::NotValidFile)));
}

#[test]
fn ihex_same_as_elf() {
    let mcu = parse_mcu("TEENSYLC").unwrap();
    assert_eq!(mcu.code_size, 63488);

    // A program as ELF32: its code in one section, and a two-byte tail
    // section ending exactly at the flash capacity, so that the assembled
    // buffer spans the whole flash as the Intel HEX image always does.
    let code: Vec<u8> = (0..63486u32).map(|i| (i * 7 + 3) as u8).collect();
    let tail = [0xCC, 0xFF];
    let elf_bytes = build_elf32(&[(0, &code), (63486, &tail)]);

    // The same program as Intel HEX. The strict end bound keeps the last
    // flash byte out of reach of any data record, so both formats leave it
    // at the erased value 0xFF; one extra record re-writing the first byte
    // brings the written total up to the ELF's, which counts both bytes of
    // the tail section.
    let mut payload = code.clone();
    payload.push(0xCC);
    let mut text = String::new();
    let mut off: usize = 0;
    while off < payload.len() {
        let n = (payload.len() - off).min(255);
        text.push_str(&ihex_line(off as u16, 0, &payload[off..off + n]));
        text.push('\n');
        off += n;
    }
    text.push_str(&ihex_line(0, 0, &payload[0..1]));
    text.push('\n');
    text.push_str(":00000001FF\n");

    let (ihex_binary, ihex_len) =
        load_bytes(text.as_bytes(), FileHint::IHEX, &mcu).expect("Failed to load Intel hex file");
    let (elf_binary, elf_len) =
        load_bytes(&elf_bytes, FileHint::ELF, &mcu).expect("Failed to load ELF file");

    assert_eq!(ihex_len, elf_len);
    assert_eq!(ihex_binary.len(), elf_binary.len());
    assert_eq!(ihex_binary, elf_binary);
}
