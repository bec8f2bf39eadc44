//! Intel HEX decoding: turns an ordered sequence of parsed records into a
//! flat flash image of exactly the target's capacity, erased bytes left at
//! `0xFF`, together with the count of bytes the records actually supplied.
//!
//! Record tokenizing and checksum validation are the text parser's job (the
//! `ihex` crate, behind a trusted wrapper); everything after that — address
//! bookkeeping, bounds checking, byte placement — is verified here.
use vstd::prelude::*;

verus! {

/// One parsed Intel HEX record, as the upstream text parser hands it over.
#[derive(Debug, PartialEq)]
pub enum HexRecord {
    /// Up to 255 data bytes to place at `base_address + offset`.
    Data { offset: u16, value: Vec<u8> },
    /// Hard stop: nothing after this record is applied.
    EndOfFile,
    /// Sets the base address to `value * 16`.
    ExtendedSegmentAddress(u16),
    /// Execution entry point by CS/IP register pair; irrelevant to flashing.
    StartSegmentAddress { cs: u16, ip: u16 },
    /// Sets the base address to `value * 0x10000`.
    ExtendedLinearAddress(u16),
    /// Execution entry point as a linear address; irrelevant to flashing.
    StartLinearAddress(u32),
}

/// The mathematical shape of a record, with the payload as a byte sequence.
pub enum HexRecordV {
    Data { offset: u16, value: Seq<u8> },
    EndOfFile,
    ExtendedSegmentAddress(u16),
    StartSegmentAddress { cs: u16, ip: u16 },
    ExtendedLinearAddress(u16),
    StartLinearAddress(u32),
}

impl View for HexRecord {
    type V = HexRecordV;

    open spec fn view(&self) -> HexRecordV {
        match self {
            HexRecord::Data { offset, value } => HexRecordV::Data {
                offset: *offset,
                value: value@,
            },
            HexRecord::EndOfFile => HexRecordV::EndOfFile,
            HexRecord::ExtendedSegmentAddress(b) => HexRecordV::ExtendedSegmentAddress(*b),
            HexRecord::StartSegmentAddress { cs, ip } => HexRecordV::StartSegmentAddress {
                cs: *cs,
                ip: *ip,
            },
            HexRecord::ExtendedLinearAddress(b) => HexRecordV::ExtendedLinearAddress(*b),
            HexRecord::StartLinearAddress(a) => HexRecordV::StartLinearAddress(*a),
        }
    }
}

/// The views of a slice of records.
pub open spec fn recs_view(recs: Seq<HexRecord>) -> Seq<HexRecordV> {
    recs.map_values(|r: HexRecord| r@)
}

/// Decoding failure.
#[derive(Debug, PartialEq, Eq, Structural)]
pub enum IHexError {
    /// A data record's end address reached or passed the flash capacity; the
    /// payload is that end address, saturated at `usize::MAX` when it does
    /// not fit the address space at all.
    AddressTooHigh(usize),
}

/// An image of `n` bytes holding the erased-flash value everywhere.
pub open spec fn erased_image(n: nat) -> Seq<u8> {
    Seq::new(n, |i: int| 0xFFu8)
}

/// `image` with `value` written at offset `at`, other bytes unchanged.
pub open spec fn write_at(image: Seq<u8>, at: int, value: Seq<u8>) -> Seq<u8> {
    Seq::new(image.len(), |i: int| if at <= i < at + value.len() {
        value[i - at]
    } else {
        image[i]
    })
}

/// The payload length of a data record; zero for every other record.
pub open spec fn data_len_of(r: HexRecordV) -> nat {
    match r {
        HexRecordV::Data { value, .. } => value.len(),
        _ => 0,
    }
}

/// Total payload length over a record sequence.
pub open spec fn sum_data_len(recs: Seq<HexRecordV>) -> nat
    decreases recs.len(),
{
    if recs.len() == 0 {
        0
    } else {
        data_len_of(recs[0]) + sum_data_len(recs.drop_first())
    }
}

/// The end address a failing data record reports: itself if it fits a
/// `usize`, else saturated.
pub open spec fn end_address_reported(end: nat) -> usize {
    if end > usize::MAX {
        usize::MAX
    } else {
        end as usize
    }
}

/// One linear pass over the remaining records: `base` is the current base
/// address, `image` the bytes placed so far, `written` the byte count so far.
pub open spec fn decode_from(
    recs: Seq<HexRecordV>,
    base: nat,
    image: Seq<u8>,
    written: nat,
) -> Result<(Seq<u8>, nat), IHexError>
    decreases recs.len(),
{
    if recs.len() == 0 {
        Ok((image, written))
    } else {
        match recs[0] {
            HexRecordV::Data { offset, value } => {
                let end = base + offset as nat + value.len();
                if end >= image.len() {
                    Err(IHexError::AddressTooHigh(end_address_reported(end)))
                } else {
                    decode_from(
                        recs.drop_first(),
                        base,
                        write_at(image, base + offset as int, value),
                        written + value.len(),
                    )
                }
            },
            HexRecordV::EndOfFile => Ok((image, written)),
            HexRecordV::ExtendedSegmentAddress(b) => decode_from(
                recs.drop_first(),
                b as nat * 16,
                image,
                written,
            ),
            HexRecordV::ExtendedLinearAddress(b) => decode_from(
                recs.drop_first(),
                b as nat * 0x10000,
                image,
                written,
            ),
            _ => decode_from(recs.drop_first(), base, image, written),
        }
    }
}

/// What Intel HEX decoding returns for a record sequence and a flash
/// capacity: the finished image of exactly `code_size` bytes and the written
/// count, or the first data record's overflowing end address.
pub open spec fn spec_ihex_to_bytes(recs: Seq<HexRecordV>, code_size: nat) -> Result<
    (Seq<u8>, nat),
    IHexError,
> {
    decode_from(recs, 0, erased_image(code_size), 0)
}

/// Decodes Intel HEX records against a target's flash capacity.
///
/// Processes records in order, keeping a base-address register that starts at
/// zero: data records land at `base + offset` and must end strictly below
/// `code_size`, segment and linear base records reset the register, an
/// end-of-file record stops processing at once, and start-address records are
/// ignored. Any overflowing data record aborts the whole decode.
pub fn ihex_to_bytes(recs: &[HexRecord], mcu: &crate::registry::Mcu) -> (r: Result<
    (Vec<u8>, usize),
    IHexError,
>)
    requires
        sum_data_len(recs_view(recs@)) <= usize::MAX,
    ensures
        match r {
            Ok(p) => spec_ihex_to_bytes(recs_view(recs@), mcu.code_size as nat) == Ok::<
                _,
                IHexError,
            >((p.0@, p.1 as nat)),
            Err(e) => spec_ihex_to_bytes(recs_view(recs@), mcu.code_size as nat) == Err::<
                (Seq<u8>, nat),
                _,
            >(e),
        },
{
    let ghost rv = recs_view(recs@);
    let code_size = mcu.code_size;
    let mut base: usize = 0;
    let mut bytes: Vec<u8> = vec_filled_ff(code_size);
    let mut len: usize = 0;

    assert(bytes@ =~= erased_image(code_size as nat));
    assert(rv.skip(0) =~= rv);

    let mut i: usize = 0;
    while i < recs.len()
        invariant
            i <= recs.len(),
            code_size == mcu.code_size,
            rv == recs_view(recs@),
            rv.len() == recs@.len(),
            bytes@.len() == code_size,
            base <= 0xFFFF0000,
            len + sum_data_len(rv.skip(i as int)) <= usize::MAX,
            decode_from(rv.skip(i as int), base as nat, bytes@, len as nat)
                == spec_ihex_to_bytes(rv, code_size as nat),
        decreases recs.len() - i,
    {
        proof {
            assert(rv.skip(i as int)[0] == rv[i as int]);
            assert(rv[i as int] == recs@[i as int]@);
            assert(rv.skip(i as int).drop_first() =~= rv.skip(i as int + 1));
        }
        match &recs[i] {
            HexRecord::Data { offset, value } => {
                let addr = base + (*offset as usize);
                let end_opt = addr.checked_add(value.len());
                match end_opt {
                    Some(end) => {
                        if end >= code_size {
                            return Err(IHexError::AddressTooHigh(end));
                        }
                        let ghost snap = bytes@;
                        let mut n: usize = 0;
                        while n < value.len()
                            invariant
                                n <= value@.len(),
                                addr + value@.len() < bytes@.len(),
                                bytes@.len() <= usize::MAX,
                                bytes@.len() == snap.len(),
                                bytes@ =~= write_at(snap, addr as int, value@.take(n as int)),
                            decreases value@.len() - n,
                        {
                            assert(addr + n < bytes@.len());
                            bytes.set(addr + n, value[n]);
                            proof {
                                assert(bytes@ =~= write_at(
                                    snap,
                                    addr as int,
                                    value@.take(n as int + 1),
                                ));
                            }
                            n = n + 1;
                        }
                        proof {
                            assert(value@.take(value@.len() as int) =~= value@);
                        }
                        len = len + value.len();
                    },
                    None => {
                        // The mathematical end address exceeds the address
                        // space, so it certainly reaches the capacity.
                        assert(end_address_reported(
                            base as nat + *offset as nat + value@.len(),
                        ) == usize::MAX) by {
                            assert(base + *offset as nat + value@.len() > usize::MAX);
                        };
                        return Err(IHexError::AddressTooHigh(usize::MAX));
                    },
                }
            },
            HexRecord::EndOfFile => {
                return Ok((bytes, len));
            },
            HexRecord::ExtendedSegmentAddress(b) => {
                base = (*b as usize) * 16;
            },
            HexRecord::ExtendedLinearAddress(b) => {
                base = (*b as usize) * 0x10000;
            },
            HexRecord::StartSegmentAddress { .. } => {},
            HexRecord::StartLinearAddress(_) => {},
        }
        i = i + 1;
    }
    proof {
        assert(rv.skip(recs@.len() as int) =~= Seq::<HexRecordV>::empty());
    }
    Ok((bytes, len))
}

/// A vector of `n` bytes, all holding the erased-flash value.
fn vec_filled_ff(n: usize) -> (r: Vec<u8>)
    ensures
        r@ == erased_image(n as nat),
{
    let mut v: Vec<u8> = Vec::new();
    let mut i: usize = 0;
    while i < n
        invariant
            i <= n,
            v@ =~= erased_image(i as nat),
        decreases n - i,
    {
        v.push(0xFF);
        proof {
            assert(v@ =~= erased_image(i as nat + 1));
        }
        i = i + 1;
    }
    v
}

/// What the Intel HEX text parser returns for a given text: the records in
/// order, or nothing when some line fails to tokenize or checksum. The
/// parse depends on the text alone.
pub uninterp spec fn ihex_records_of(text: Seq<char>) -> Option<Seq<HexRecordV>>;

#[verifier::external_type_specification]
#[verifier::external_body]
pub struct ExIhexRecord(::ihex::Record);

/// Relies on ihex::Record only as data: maps each variant to its library
/// counterpart, one arm each, moving fields.
#[verifier::external_body]
fn record_of(r: ::ihex::Record) -> (h: HexRecord)
{
    match r {
        ::ihex::Record::Data { offset, value } => HexRecord::Data { offset, value },
        ::ihex::Record::EndOfFile => HexRecord::EndOfFile,
        ::ihex::Record::ExtendedSegmentAddress(b) => HexRecord::ExtendedSegmentAddress(b),
        ::ihex::Record::StartSegmentAddress { cs, ip } => HexRecord::StartSegmentAddress { cs, ip },
        ::ihex::Record::ExtendedLinearAddress(b) => HexRecord::ExtendedLinearAddress(b),
        ::ihex::Record::StartLinearAddress(a) => HexRecord::StartLinearAddress(a),
    }
}

/// Relies on ihex's `Reader`: tokenizes and checksum-validates the text line
/// by line, stopping at the first bad record (`None`) and yielding nothing
/// after an end-of-file record. The parse is a function of the text alone,
/// and each payload byte takes two text characters, so the total payload
/// length is bounded by the text length.
#[verifier::external_body]
pub fn parse_ihex_records(text: &str) -> (r: Option<Vec<HexRecord>>)
    ensures
        match r {
            Some(v) => ihex_records_of(text@) == Some(recs_view(v@)) && sum_data_len(recs_view(v@))
                <= text@.len(),
            None => ihex_records_of(text@) is None,
        },
{
    let parsed: Result<Vec<::ihex::Record>, _> = ::ihex::Reader::new(text).collect();
    match parsed {
        Ok(rs) => Some(rs.into_iter().map(record_of).collect()),
        Err(_) => None,
    }
}

/// Decoding is a function of the record sequence and the capacity alone: two
/// decodes of the same records give the same outcome, byte for byte.
pub proof fn lemma_ihex_decode_deterministic(
    recs: Seq<HexRecordV>,
    code_size: nat,
    r1: Result<(Seq<u8>, nat), IHexError>,
    r2: Result<(Seq<u8>, nat), IHexError>,
)
    requires
        r1 == spec_ihex_to_bytes(recs, code_size),
        r2 == spec_ihex_to_bytes(recs, code_size),
    ensures
        r1 == r2,
{
}

/// A lone data record fails with `AddressTooHigh` exactly when its end
/// address reaches the capacity, and otherwise lands its bytes; the last end
/// address a decode accepts is `code_size - 1`.
pub proof fn lemma_data_record_end_bound(offset: u16, value: Seq<u8>, code_size: nat)
    ensures
        offset + value.len() >= code_size ==> spec_ihex_to_bytes(
            seq![HexRecordV::Data { offset, value }],
            code_size,
        ) == Err::<(Seq<u8>, nat), _>(
            IHexError::AddressTooHigh(end_address_reported(offset as nat + value.len())),
        ),
        offset + value.len() < code_size ==> spec_ihex_to_bytes(
            seq![HexRecordV::Data { offset, value }],
            code_size,
        ) == Ok::<_, IHexError>(
            (write_at(erased_image(code_size), offset as int, value), value.len()),
        ),
{
    reveal_with_fuel(decode_from, 3);
    let s = seq![HexRecordV::Data { offset, value }];
    assert(s[0] == HexRecordV::Data { offset, value });
    if offset + value.len() < code_size {
        assert(s.drop_first() =~= Seq::<HexRecordV>::empty());
        assert(decode_from(
            Seq::<HexRecordV>::empty(),
            0,
            write_at(erased_image(code_size), offset as int, value),
            value.len(),
        ) == Ok::<_, IHexError>(
            (write_at(erased_image(code_size), offset as int, value), value.len()),
        ));
    }
}

/// A successful decode's image always spans exactly the flash capacity.
pub proof fn lemma_ihex_image_len(recs: Seq<HexRecordV>, code_size: nat, img: Seq<u8>, w: nat)
    requires
        spec_ihex_to_bytes(recs, code_size) == Ok::<_, IHexError>((img, w)),
    ensures
        img.len() == code_size,
{
    lemma_decode_from_len(recs, 0, erased_image(code_size), 0);
}

proof fn lemma_decode_from_len(recs: Seq<HexRecordV>, base: nat, image: Seq<u8>, written: nat)
    ensures
        decode_from(recs, base, image, written) matches Ok(p) ==> p.0.len() == image.len(),
    decreases recs.len(),
{
    if recs.len() != 0 {
        match recs[0] {
            HexRecordV::Data { offset, value } => {
                let end = base + offset as nat + value.len();
                if end < image.len() {
                    lemma_decode_from_len(
                        recs.drop_first(),
                        base,
                        write_at(image, base + offset as int, value),
                        written + value.len(),
                    );
                }
            },
            HexRecordV::EndOfFile => {},
            HexRecordV::ExtendedSegmentAddress(b) => {
                lemma_decode_from_len(recs.drop_first(), b as nat * 16, image, written);
            },
            HexRecordV::ExtendedLinearAddress(b) => {
                lemma_decode_from_len(recs.drop_first(), b as nat * 0x10000, image, written);
            },
            _ => {
                lemma_decode_from_len(recs.drop_first(), base, image, written);
            },
        }
    }
}

/// An end-of-file record truncates processing: whatever records follow it,
/// the decode's outcome is the same as if they were not there.
pub proof fn lemma_eof_truncates(
    before: Seq<HexRecordV>,
    after: Seq<HexRecordV>,
    code_size: nat,
)
    ensures
        spec_ihex_to_bytes(before.push(HexRecordV::EndOfFile) + after, code_size)
            == spec_ihex_to_bytes(before.push(HexRecordV::EndOfFile), code_size),
{
    lemma_eof_truncates_from(before, after, 0, erased_image(code_size), 0);
}

proof fn lemma_eof_truncates_from(
    before: Seq<HexRecordV>,
    after: Seq<HexRecordV>,
    base: nat,
    image: Seq<u8>,
    written: nat,
)
    ensures
        decode_from(before.push(HexRecordV::EndOfFile) + after, base, image, written)
            == decode_from(before.push(HexRecordV::EndOfFile), base, image, written),
    decreases before.len(),
{
    let lhs = before.push(HexRecordV::EndOfFile) + after;
    let rhs = before.push(HexRecordV::EndOfFile);
    if before.len() == 0 {
        assert(lhs[0] == HexRecordV::EndOfFile);
        assert(rhs[0] == HexRecordV::EndOfFile);
    } else {
        assert(lhs[0] == before[0]);
        assert(rhs[0] == before[0]);
        assert(lhs.drop_first() =~= before.drop_first().push(HexRecordV::EndOfFile) + after);
        assert(rhs.drop_first() =~= before.drop_first().push(HexRecordV::EndOfFile));
        match before[0] {
            HexRecordV::Data { offset, value } => {
                let end = base + offset + value.len();
                if end < image.len() {
                    lemma_eof_truncates_from(
                        before.drop_first(),
                        after,
                        base,
                        write_at(image, base + offset as int, value),
                        written + value.len(),
                    );
                }
            },
            HexRecordV::EndOfFile => {},
            HexRecordV::ExtendedSegmentAddress(b) => {
                lemma_eof_truncates_from(before.drop_first(), after, b as nat * 16, image, written);
            },
            HexRecordV::ExtendedLinearAddress(b) => {
                lemma_eof_truncates_from(
                    before.drop_first(),
                    after,
                    b as nat * 0x10000,
                    image,
                    written,
                );
            },
            _ => {
                lemma_eof_truncates_from(before.drop_first(), after, base, image, written);
            },
        }
    }
}

} // verus!
