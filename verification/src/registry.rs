//! Registry of the supported microcontrollers: a fixed table keyed by
//! canonical name giving each target's flash capacity and write-block size,
//! and a second table of marketing aliases for those canonical names.
use vstd::prelude::*;
use vstd::string::StringSliceAdditionalSpecFns;

verus! {

/// Flash layout of one supported microcontroller: total firmware storage in
/// bytes, and the chunk size the bootloader writes per USB transfer.
#[derive(Clone, Copy, Debug, PartialEq, Eq, Structural)]
pub struct Mcu {
    pub code_size: usize,
    pub block_size: usize,
}

/// The canonical target names, in table order.
pub open spec fn canonical_mcu_names() -> Seq<Seq<char>> {
    seq![
        "at90usb162"@,
        "atmega32u4"@,
        "at90usb646"@,
        "at90usb1286"@,
        "mkl26z64"@,
        "mk20dx128"@,
        "mk20dx256"@,
        "mk64fx512"@,
        "mk66fx1m0"@,
    ]
}

/// The alias names, in table order.
pub open spec fn alias_mcu_names() -> Seq<Seq<char>> {
    seq![
        "TEENSY2"@,
        "TEENSY2PP"@,
        "TEENSYLC"@,
        "TEENSY30"@,
        "TEENSY31"@,
        "TEENSY32"@,
        "TEENSY35"@,
        "TEENSY36"@,
    ]
}

/// Alias substitution: an alias maps to its canonical name, and any other
/// string (canonical names included) is left unchanged.
pub open spec fn canonical_name_of(name: Seq<char>) -> Seq<char> {
    if name == "TEENSY2"@ {
        "atmega32u4"@
    } else if name == "TEENSY2PP"@ {
        "at90usb1286"@
    } else if name == "TEENSYLC"@ {
        "mkl26z64"@
    } else if name == "TEENSY30"@ {
        "mk20dx128"@
    } else if name == "TEENSY31"@ {
        "mk20dx256"@
    } else if name == "TEENSY32"@ {
        "mk20dx256"@
    } else if name == "TEENSY35"@ {
        "mk64fx512"@
    } else if name == "TEENSY36"@ {
        "mk66fx1m0"@
    } else {
        name
    }
}

/// Exact-match lookup in the canonical table alone, no alias substitution.
pub open spec fn spec_mcu_of_canonical(name: Seq<char>) -> Option<Mcu> {
    if name == "at90usb162"@ {
        Some(Mcu { code_size: 15872, block_size: 128 })
    } else if name == "atmega32u4"@ {
        Some(Mcu { code_size: 32256, block_size: 128 })
    } else if name == "at90usb646"@ {
        Some(Mcu { code_size: 64512, block_size: 256 })
    } else if name == "at90usb1286"@ {
        Some(Mcu { code_size: 130048, block_size: 256 })
    } else if name == "mkl26z64"@ {
        Some(Mcu { code_size: 63488, block_size: 512 })
    } else if name == "mk20dx128"@ {
        Some(Mcu { code_size: 131072, block_size: 1024 })
    } else if name == "mk20dx256"@ {
        Some(Mcu { code_size: 262144, block_size: 1024 })
    } else if name == "mk64fx512"@ {
        Some(Mcu { code_size: 524288, block_size: 1024 })
    } else if name == "mk66fx1m0"@ {
        Some(Mcu { code_size: 1048576, block_size: 1024 })
    } else {
        None
    }
}

/// What `parse_mcu` returns: alias substitution first, then an exact,
/// case-sensitive lookup in the canonical table.
pub open spec fn spec_parse_mcu(name: Seq<char>) -> Option<Mcu> {
    spec_mcu_of_canonical(canonical_name_of(name))
}

/// String equality, decided byte by byte on the UTF-8 encodings.
fn str_eq(a: &str, b: &str) -> (r: bool)
    ensures
        r == (a@ == b@),
{
    proof {
        vstd::utf8::encode_utf8_decode_utf8(a@);
        vstd::utf8::encode_utf8_decode_utf8(b@);
    }
    let ab = a.as_bytes();
    let bb = b.as_bytes();
    if ab.len() != bb.len() {
        return false;
    }
    let mut i: usize = 0;
    while i < ab.len()
        invariant
            ab@ == a.spec_bytes(),
            bb@ == b.spec_bytes(),
            ab@.len() == bb@.len(),
            i <= ab@.len(),
            forall|j: int| 0 <= j < i ==> ab@[j] == bb@[j],
            vstd::utf8::decode_utf8(vstd::utf8::encode_utf8(a@)) == a@,
            vstd::utf8::decode_utf8(vstd::utf8::encode_utf8(b@)) == b@,
        decreases ab@.len() - i,
    {
        if ab[i] != bb[i] {
            return false;
        }
        i = i + 1;
    }
    proof {
        assert(ab@ =~= bb@);
    }
    true
}

/// Resolves a target name to its flash layout: aliases are substituted for
/// their canonical name, then the canonical table is searched for an exact,
/// case-sensitive match. Unknown names yield `None`.
pub fn parse_mcu(arg: &str) -> (r: Option<Mcu>)
    ensures
        r == spec_parse_mcu(arg@),
{
    let name: &str = if str_eq(arg, "TEENSY2") {
        "atmega32u4"
    } else if str_eq(arg, "TEENSY2PP") {
        "at90usb1286"
    } else if str_eq(arg, "TEENSYLC") {
        "mkl26z64"
    } else if str_eq(arg, "TEENSY30") {
        "mk20dx128"
    } else if str_eq(arg, "TEENSY31") {
        "mk20dx256"
    } else if str_eq(arg, "TEENSY32") {
        "mk20dx256"
    } else if str_eq(arg, "TEENSY35") {
        "mk64fx512"
    } else if str_eq(arg, "TEENSY36") {
        "mk66fx1m0"
    } else {
        arg
    };
    assert(name@ == canonical_name_of(arg@));
    if str_eq(name, "at90usb162") {
        Some(Mcu { code_size: 15872, block_size: 128 })
    } else if str_eq(name, "atmega32u4") {
        Some(Mcu { code_size: 32256, block_size: 128 })
    } else if str_eq(name, "at90usb646") {
        Some(Mcu { code_size: 64512, block_size: 256 })
    } else if str_eq(name, "at90usb1286") {
        Some(Mcu { code_size: 130048, block_size: 256 })
    } else if str_eq(name, "mkl26z64") {
        Some(Mcu { code_size: 63488, block_size: 512 })
    } else if str_eq(name, "mk20dx128") {
        Some(Mcu { code_size: 131072, block_size: 1024 })
    } else if str_eq(name, "mk20dx256") {
        Some(Mcu { code_size: 262144, block_size: 1024 })
    } else if str_eq(name, "mk64fx512") {
        Some(Mcu { code_size: 524288, block_size: 1024 })
    } else if str_eq(name, "mk66fx1m0") {
        Some(Mcu { code_size: 1048576, block_size: 1024 })
    } else {
        None
    }
}

/// All accepted target names for display and validation: the canonical names
/// first, then the aliases, each list in table order.
pub fn supported_mcus() -> (r: Vec<&'static str>)
    ensures
        r@.len() == canonical_mcu_names().len() + alias_mcu_names().len(),
        forall|i: int|
            0 <= i < canonical_mcu_names().len() ==> r@[i]@ == canonical_mcu_names()[i],
        forall|i: int|
            0 <= i < alias_mcu_names().len() ==> r@[
                canonical_mcu_names().len() + i
            ]@ == alias_mcu_names()[i],
{
    let mut v: Vec<&'static str> = Vec::new();
    v.push("at90usb162");
    v.push("atmega32u4");
    v.push("at90usb646");
    v.push("at90usb1286");
    v.push("mkl26z64");
    v.push("mk20dx128");
    v.push("mk20dx256");
    v.push("mk64fx512");
    v.push("mk66fx1m0");
    v.push("TEENSY2");
    v.push("TEENSY2PP");
    v.push("TEENSYLC");
    v.push("TEENSY30");
    v.push("TEENSY31");
    v.push("TEENSY32");
    v.push("TEENSY35");
    v.push("TEENSY36");
    v
}

/// Resolving an alias gives the same descriptor as resolving the canonical
/// name the alias stands for; this holds of every name, since substitution
/// never maps one alias to another.
pub proof fn lemma_alias_resolves_as_canonical(name: Seq<char>)
    ensures
        spec_parse_mcu(name) == spec_parse_mcu(canonical_name_of(name)),
{
    reveal_strlit("at90usb162");
    reveal_strlit("atmega32u4");
    reveal_strlit("at90usb646");
    reveal_strlit("at90usb1286");
    reveal_strlit("mkl26z64");
    reveal_strlit("mk20dx128");
    reveal_strlit("mk20dx256");
    reveal_strlit("mk64fx512");
    reveal_strlit("mk66fx1m0");
    reveal_strlit("TEENSY2");
    reveal_strlit("TEENSY2PP");
    reveal_strlit("TEENSYLC");
    reveal_strlit("TEENSY30");
    reveal_strlit("TEENSY31");
    reveal_strlit("TEENSY32");
    reveal_strlit("TEENSY35");
    reveal_strlit("TEENSY36");
    assert("atmega32u4"@[0] == 'a');
    assert("at90usb1286"@[0] == 'a');
    assert("mkl26z64"@[0] == 'm');
    assert("mk20dx128"@[0] == 'm');
    assert("mk20dx256"@[0] == 'm');
    assert("mk64fx512"@[0] == 'm');
    assert("mk66fx1m0"@[0] == 'm');
    assert("TEENSY2"@[0] == 'T');
    assert("TEENSY2PP"@[0] == 'T');
    assert("TEENSYLC"@[0] == 'T');
    assert("TEENSY30"@[0] == 'T');
    assert("TEENSY31"@[0] == 'T');
    assert("TEENSY32"@[0] == 'T');
    assert("TEENSY35"@[0] == 'T');
    assert("TEENSY36"@[0] == 'T');
}

/// Resolution is exact-match and case-sensitive: a name that is neither a
/// canonical name nor an alias, byte for byte, resolves to nothing.
pub proof fn lemma_parse_mcu_exact_match(name: Seq<char>)
    requires
        !canonical_mcu_names().contains(name),
        !alias_mcu_names().contains(name),
    ensures
        spec_parse_mcu(name) is None,
{
    assert(forall|i: int|
        0 <= i < alias_mcu_names().len() ==> alias_mcu_names()[i] != name);
    assert(alias_mcu_names()[0] == "TEENSY2"@);
    assert(alias_mcu_names()[1] == "TEENSY2PP"@);
    assert(alias_mcu_names()[2] == "TEENSYLC"@);
    assert(alias_mcu_names()[3] == "TEENSY30"@);
    assert(alias_mcu_names()[4] == "TEENSY31"@);
    assert(alias_mcu_names()[5] == "TEENSY32"@);
    assert(alias_mcu_names()[6] == "TEENSY35"@);
    assert(alias_mcu_names()[7] == "TEENSY36"@);
    assert(canonical_name_of(name) == name);
    assert(forall|i: int|
        0 <= i < canonical_mcu_names().len() ==> canonical_mcu_names()[i] != name);
    assert(canonical_mcu_names()[0] == "at90usb162"@);
    assert(canonical_mcu_names()[1] == "atmega32u4"@);
    assert(canonical_mcu_names()[2] == "at90usb646"@);
    assert(canonical_mcu_names()[3] == "at90usb1286"@);
    assert(canonical_mcu_names()[4] == "mkl26z64"@);
    assert(canonical_mcu_names()[5] == "mk20dx128"@);
    assert(canonical_mcu_names()[6] == "mk20dx256"@);
    assert(canonical_mcu_names()[7] == "mk64fx512"@);
    assert(canonical_mcu_names()[8] == "mk66fx1m0"@);
}


} // verus!
