//! Firmware-flashing library for USB bootloader-capable microcontroller
//! boards: a registry of supported targets, loaders that turn an Intel HEX
//! record stream or an ELF32 executable into a flat flash image, and the
//! chunked USB write protocol that programs and boots the device.

mod registry;
mod ihex_load;
mod elf_load;
mod loader;
pub mod usb;

pub use crate::registry::canonical_mcu_names;
pub use crate::registry::alias_mcu_names;
pub use crate::registry::canonical_name_of;
pub use crate::registry::spec_mcu_of_canonical;
pub use crate::registry::spec_parse_mcu;
pub use crate::registry::parse_mcu;
pub use crate::registry::supported_mcus;
pub use crate::registry::lemma_alias_resolves_as_canonical;
pub use crate::registry::lemma_parse_mcu_exact_match;
pub use crate::registry::Mcu;

pub use crate::ihex_load::HexRecord;
pub use crate::ihex_load::HexRecordV;
pub use crate::ihex_load::IHexError;
pub use crate::ihex_load::recs_view;
pub use crate::ihex_load::erased_image;
pub use crate::ihex_load::write_at;
pub use crate::ihex_load::data_len_of;
pub use crate::ihex_load::sum_data_len;
pub use crate::ihex_load::end_address_reported;
pub use crate::ihex_load::decode_from;
pub use crate::ihex_load::spec_ihex_to_bytes;
pub use crate::ihex_load::ihex_to_bytes;
pub use crate::ihex_load::lemma_ihex_decode_deterministic;
pub use crate::ihex_load::lemma_data_record_end_bound;
pub use crate::ihex_load::lemma_eof_truncates;
pub use crate::ihex_load::lemma_ihex_image_len;

pub use crate::elf_load::ElfSegment;
pub use crate::elf_load::ElfSection;
pub use crate::elf_load::ElfSectionV;
pub use crate::elf_load::Elf32File;
pub use crate::elf_load::Elf32FileV;
pub use crate::elf_load::ElfError;
pub use crate::elf_load::elf_wf;
pub use crate::elf_load::loadable;
pub use crate::elf_load::seg_contains;
pub use crate::elf_load::find_segment;
pub use crate::elf_load::load_addr;
pub use crate::elf_load::load_of;
pub use crate::elf_load::min_load;
pub use crate::elf_load::max_end;
pub use crate::elf_load::written_total;
pub use crate::elf_load::zero_image;
pub use crate::elf_load::place_all;
pub use crate::elf_load::spec_elf32_to_bytes;
pub use crate::elf_load::spec_elf32_acceptable;
pub use crate::elf_load::elf32_acceptable;
pub use crate::elf_load::elf32_to_bytes;

pub use crate::ihex_load::ihex_records_of;
pub use crate::ihex_load::parse_ihex_records;
pub use crate::elf_load::written_total_fits;
pub use crate::elf_load::elf32_of;
pub use crate::elf_load::parse_elf32;
pub use crate::loader::FileHint;
pub use crate::loader::LoadError;
pub use crate::loader::lossy_text_of;
pub use crate::loader::spec_elf_attempt;
pub use crate::loader::spec_ihex_attempt;
pub use crate::loader::spec_load_bytes;
pub use crate::loader::load_bytes;
