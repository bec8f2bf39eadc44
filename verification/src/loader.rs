//! Format dispatch: given a firmware file's raw bytes, an optional format
//! hint and the target's flash layout, try the ELF32 decoder first (its
//! header is cheap to rule out), then fall back to Intel HEX; fail only when
//! every permitted decoder rejects the bytes.
use vstd::prelude::*;

use crate::elf_load::elf32_acceptable;
use crate::elf_load::elf32_of;
use crate::elf_load::elf32_to_bytes;
use crate::elf_load::parse_elf32;
use crate::elf_load::spec_elf32_acceptable;
use crate::elf_load::spec_elf32_to_bytes;
use crate::elf_load::written_total;
use crate::elf_load::written_total_fits;
use crate::ihex_load::ihex_records_of;
use crate::ihex_load::ihex_to_bytes;
use crate::ihex_load::parse_ihex_records;
use crate::ihex_load::spec_ihex_to_bytes;
use crate::registry::Mcu;

verus! {

/// How the input file's format may be interpreted.
#[derive(Copy, Clone, Debug, PartialEq, Eq, Structural)]
pub enum FileHint {
    IHEX,
    ELF,
    Any,
}

impl FileHint {
    /// The hint's display name, as used in diagnostics.
    pub fn to_str(&self) -> (r: &'static str)
        ensures
            *self is IHEX ==> r@ == "Intel hex"@,
            *self is ELF ==> r@ == "ELF"@,
            *self is Any ==> r@ == "Intel hex or ELF"@,
    {
        match self {
            FileHint::IHEX => "Intel hex",
            FileHint::ELF => "ELF",
            FileHint::Any => "Intel hex or ELF",
        }
    }
}

/// Why a firmware file could not be loaded. The two I/O variants are raised
/// by callers that read the file from disk; decoding itself only ever
/// reports `NotValidFile`.
#[derive(Debug)]
pub enum LoadError {
    FailedOpen(std::io::Error),
    FailedRead(std::io::Error),
    NotValidFile,
}

#[verifier::external_type_specification]
#[verifier::external_body]
pub struct ExIoError(std::io::Error);

/// What the lossy UTF-8 decoder returns for given bytes; a function of the
/// bytes alone.
pub uninterp spec fn lossy_text_of(bytes: Seq<u8>) -> Seq<char>;

/// Relies on `String::from_utf8_lossy`: the text depends on the bytes
/// alone, and no byte yields more than one character.
#[verifier::external_body]
fn utf8_lossy(bytes: &[u8]) -> (r: String)
    ensures
        r@ == lossy_text_of(bytes@),
        r@.len() <= bytes@.len(),
{
    String::from_utf8_lossy(bytes).into_owned()
}

/// The ELF32 attempt's outcome: the decoded image, or nothing when the bytes
/// are no ELF32 container, the header checks fail, the written-byte total
/// would not fit a `usize` (a machine limit), or decoding errors out.
pub open spec fn spec_elf_attempt(bytes: Seq<u8>, code_size: nat) -> Option<(Seq<u8>, nat)> {
    match elf32_of(bytes) {
        Some(m) => if spec_elf32_acceptable(m) && written_total(m.sections) <= usize::MAX {
            match spec_elf32_to_bytes(m, code_size) {
                Ok(p) => Some(p),
                Err(_) => None,
            }
        } else {
            None
        },
        None => None,
    }
}

/// The Intel HEX attempt's outcome: the decoded image, or nothing when some
/// line fails to parse or decoding errors out.
pub open spec fn spec_ihex_attempt(bytes: Seq<u8>, code_size: nat) -> Option<(Seq<u8>, nat)> {
    match ihex_records_of(lossy_text_of(bytes)) {
        Some(rs) => match spec_ihex_to_bytes(rs, code_size) {
            Ok(p) => Some(p),
            Err(_) => None,
        },
        None => None,
    }
}

/// What loading returns: the ELF32 attempt first unless the hint forbids it,
/// then the Intel HEX attempt unless the hint forbids that; nothing when
/// every permitted attempt rejects the bytes.
pub open spec fn spec_load_bytes(bytes: Seq<u8>, hint: FileHint, code_size: nat) -> Option<
    (Seq<u8>, nat),
> {
    let from_elf = if hint != FileHint::IHEX {
        spec_elf_attempt(bytes, code_size)
    } else {
        None
    };
    match from_elf {
        Some(p) => Some(p),
        None => if hint != FileHint::ELF {
            spec_ihex_attempt(bytes, code_size)
        } else {
            None
        },
    }
}

/// Decodes a firmware file's bytes into a flat image for the given target,
/// trying the decoders the hint permits, ELF32 before Intel HEX.
pub fn load_bytes(file_buf: &[u8], hint: FileHint, mcu: &Mcu) -> (r: Result<
    (Vec<u8>, usize),
    LoadError,
>)
    ensures
        match r {
            Ok(p) => spec_load_bytes(file_buf@, hint, mcu.code_size as nat) == Some(
                (p.0@, p.1 as nat),
            ),
            Err(e) => spec_load_bytes(file_buf@, hint, mcu.code_size as nat) is None && (
            e matches LoadError::NotValidFile),
        },
{
    let buf_len = file_buf.len();
    assert(file_buf@.len() == buf_len);

    let from_elf: Option<(Vec<u8>, usize)> = if hint != FileHint::IHEX {
        match parse_elf32(file_buf) {
            Some(elf) => {
                if elf32_acceptable(&elf) && written_total_fits(&elf) {
                    match elf32_to_bytes(&elf, mcu) {
                        Ok(p) => Some(p),
                        Err(_) => None,
                    }
                } else {
                    None
                }
            },
            None => None,
        }
    } else {
        None
    };

    let result: Option<(Vec<u8>, usize)> = match from_elf {
        Some(p) => Some(p),
        None => {
            if hint != FileHint::ELF {
                let text = utf8_lossy(file_buf);
                match parse_ihex_records(text.as_str()) {
                    Some(recs) => {
                        match ihex_to_bytes(recs.as_slice(), mcu) {
                            Ok(p) => Some(p),
                            Err(_) => None,
                        }
                    },
                    None => None,
                }
            } else {
                None
            }
        },
    };

    match result {
        Some(p) => Ok(p),
        None => Err(LoadError::NotValidFile),
    }
}

} // verus!
