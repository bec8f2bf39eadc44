use rusty_loader::elf32_to_bytes;
use rusty_loader::Elf32File;
use rusty_loader::ElfError;
use rusty_loader::ElfSection;
use rusty_loader::ElfSegment;
use rusty_loader::Mcu;

fn mcu() -> Mcu {
    Mcu { code_size: 4096, block_size: 128 }
}

fn accepted_file(segments: Vec<ElfSegment>, sections: Vec<ElfSection>) -> Elf32File {
    Elf32File { machine_arm: true, abi_systemv: true, type_exec: true, segments, sections }
}

#[test]
fn no_loadable_sections_is_an_error() {
    // Sections that are not PROGBITS, or not ALLOC, contribute nothing.
    let f = accepted_file(
        vec![],
        vec![
            ElfSection { addr: 0, progbits: false, alloc: true, data: vec![1, 2] },
            ElfSection { addr: 0, progbits: true, alloc: false, data: vec![3, 4] },
        ],
    );
    assert_eq!(elf32_to_bytes(&f, &mcu()), Err(ElfError::NoLoadableSections));
}

#[test]
fn sections_assemble_from_the_least_load_address() {
    let f = accepted_file(
        vec![],
        vec![
            ElfSection { addr: 0x100, progbits: true, alloc: true, data: vec![1, 2, 3, 4] },
            ElfSection { addr: 0x108, progbits: true, alloc: true, data: vec![9, 9] },
        ],
    );
    let (image, written) = elf32_to_bytes(&f, &mcu()).unwrap();
    // base = 0x100, end = 0x10A: the buffer spans exactly the sections.
    assert_eq!(image.len(), 0x0A);
    assert_eq!(&image[0..4], &[1, 2, 3, 4]);
    // The gap between sections stays zero-filled.
    assert_eq!(&image[4..8], &[0, 0, 0, 0]);
    assert_eq!(&image[8..10], &[9, 9]);
    assert_eq!(written, 6);
}

#[test]
fn load_address_translates_through_the_containing_program_header() {
    let segs = vec![ElfSegment {
        vaddr: 0x1000,
        paddr: 0x0000,
        memsz: 0x100,
        is_dynamic: false,
        is_interp: false,
    }];
    let f = accepted_file(
        segs,
        vec![ElfSection { addr: 0x1010, progbits: true, alloc: true, data: vec![0xAA, 0xBB] }],
    );
    let (image, written) = elf32_to_bytes(&f, &mcu()).unwrap();
    // The section's virtual 0x1010 maps to physical 0x0010; as the only
    // section it also sets the base, so the buffer is just its bytes.
    assert_eq!(image, vec![0xAA, 0xBB]);
    assert_eq!(written, 2);
}

#[test]
fn load_address_stays_virtual_without_a_containing_program_header() {
    // The program header covers 0x1000..0x1004 only: too small for the
    // section, so the section's own address is used unchanged.
    let segs = vec![ElfSegment {
        vaddr: 0x1000,
        paddr: 0x0000,
        memsz: 0x4,
        is_dynamic: false,
        is_interp: false,
    }];
    let f = accepted_file(
        segs,
        vec![
            ElfSection { addr: 0x10, progbits: true, alloc: true, data: vec![1] },
            ElfSection { addr: 0x1000, progbits: true, alloc: true, data: vec![2, 3, 4, 5, 6] },
        ],
    );
    // End address 0x1005 passes the 4096-byte capacity.
    assert_eq!(elf32_to_bytes(&f, &mcu()), Err(ElfError::AddressTooHigh(0x1005)));
}

#[test]
fn later_sections_overwrite_earlier_ones() {
    let f = accepted_file(
        vec![],
        vec![
            ElfSection { addr: 0, progbits: true, alloc: true, data: vec![1, 1, 1, 1] },
            ElfSection { addr: 2, progbits: true, alloc: true, data: vec![7, 7] },
        ],
    );
    let (image, written) = elf32_to_bytes(&f, &mcu()).unwrap();
    assert_eq!(image, vec![1, 1, 7, 7]);
    // Overlapping contents still both count toward the written total.
    assert_eq!(written, 6);
}

#[test]
fn end_at_capacity_is_accepted() {
    let small = Mcu { code_size: 8, block_size: 4 };
    let f = accepted_file(
        vec![],
        vec![ElfSection { addr: 4, progbits: true, alloc: true, data: vec![1, 2, 3, 4] }],
    );
    let (image, _) = elf32_to_bytes(&f, &small).unwrap();
    assert_eq!(image, vec![1, 2, 3, 4]);

    let f = accepted_file(
        vec![],
        vec![ElfSection { addr: 5, progbits: true, alloc: true, data: vec![1, 2, 3, 4] }],
    );
    assert_eq!(elf32_to_bytes(&f, &small), Err(ElfError::AddressTooHigh(9)));
}
