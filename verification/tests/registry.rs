use rusty_loader::parse_mcu;
use rusty_loader::supported_mcus;

#[test]
fn list_supported_mcus() {
    let expected_names = vec![
        "at90usb162",
        "atmega32u4",
        "at90usb646",
        "at90usb1286",
        "mkl26z64",
        "mk20dx128",
        "mk20dx256",
        "mk64fx512",
        "mk66fx1m0",
        "TEENSY2",
        "TEENSY2PP",
        "TEENSYLC",
        "TEENSY30",
        "TEENSY31",
        "TEENSY32",
        "TEENSY35",
        "TEENSY36",
    ];
    let names = supported_mcus();
    assert_eq!(expected_names, names);
}

#[test]
fn aliases_resolve_like_their_canonical_names() {
    let pairs = [
        ("TEENSY2", "atmega32u4"),
        ("TEENSY2PP", "at90usb1286"),
        ("TEENSYLC", "mkl26z64"),
        ("TEENSY30", "mk20dx128"),
        ("TEENSY31", "mk20dx256"),
        ("TEENSY32", "mk20dx256"),
        ("TEENSY35", "mk64fx512"),
        ("TEENSY36", "mk66fx1m0"),
    ];
    for (alias, canonical) in pairs {
        let a = parse_mcu(alias).expect("alias must resolve");
        let c = parse_mcu(canonical).expect("canonical name must resolve");
        assert_eq!(a, c);
    }
}

#[test]
fn known_descriptors() {
    let mcu = parse_mcu("TEENSYLC").unwrap();
    assert_eq!(mcu.code_size, 63488);
    assert_eq!(mcu.block_size, 512);

    let mcu = parse_mcu("at90usb162").unwrap();
    assert_eq!(mcu.code_size, 15872);
    assert_eq!(mcu.block_size, 128);

    let mcu = parse_mcu("mk66fx1m0").unwrap();
    assert_eq!(mcu.code_size, 1048576);
    assert_eq!(mcu.block_size, 1024);
}

#[test]
fn unknown_names_yield_nothing() {
    assert!(parse_mcu("").is_none());
    assert!(parse_mcu("teensy40").is_none());
    assert!(parse_mcu("mk20dx25").is_none());
    assert!(parse_mcu("mk20dx2566").is_none());
}

#[test]
fn resolution_is_case_sensitive() {
    assert!(parse_mcu("teensylc").is_none());
    assert!(parse_mcu("Teensylc").is_none());
    assert!(parse_mcu("MKL26Z64").is_none());
    assert!(parse_mcu("teensy2").is_none());
}
