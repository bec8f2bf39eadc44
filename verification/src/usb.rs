//! The device session and the flashing protocol engine: connecting to the
//! bootloader over USB, slicing a firmware image into blocks, skipping blocks
//! the erased flash already holds, framing each block with its address
//! header, and writing the frames and the reboot command with the protocol's
//! timeouts.
//!
//! The USB transport itself is the platform's business (the `rusb` crate,
//! behind trusted wrappers); which bytes go out, and when, is verified here.
use std::time::Duration;

use vstd::prelude::*;

use crate::elf_load::zero_image;
use crate::ihex_load::HexRecordV;
use crate::registry::Mcu;

verus! {

const TEENSY_VENDOR_ID: u16 = 0x16C0;
const TEENSY_PRODUCT_ID: u16 = 0x0478;
const SOFT_REBOOTER_PRODUCT_ID: u16 = 0x0483;

/// A transport-level failure, mirroring the libusb error set.
#[derive(Clone, Copy, Debug, PartialEq, Eq, Structural)]
pub enum UsbError {
    Io,
    InvalidParam,
    Access,
    NoDevice,
    NotFound,
    Busy,
    Timeout,
    Overflow,
    Pipe,
    Interrupted,
    NoMem,
    NotSupported,
    BadDescriptor,
    Other,
}

/// A failure of the platform USB backend.
#[derive(Clone, Copy, Debug, PartialEq, Eq, Structural)]
pub enum SystemError {
    LibUsb(UsbError),
}

/// Why a connection attempt failed: the device is simply not present (worth
/// retrying after the user resets the board), or the system failed (not
/// worth retrying).
#[derive(Clone, Copy, Debug, PartialEq, Eq, Structural)]
pub enum ConnectError {
    System(SystemError),
    DeviceNotFound,
}

/// Why a single timed write failed.
#[derive(Clone, Copy, Debug, PartialEq, Eq, Structural)]
pub enum WriteError {
    System(SystemError),
    Timeout,
}

/// Why programming failed: the image length does not divide into blocks, the
/// block size belongs to no known device class, or a block write failed.
#[derive(Clone, Copy, Debug, PartialEq, Eq, Structural)]
pub enum ProgramError {
    BinaryRemainder,
    UnknownBlockSize(usize),
    WriteError(WriteError),
}

// ---------------------------------------------------------------------------
// The flashing protocol engine: pure, verified frame planning.
// ---------------------------------------------------------------------------

/// Whether every byte of a block already holds the erased-flash value.
pub open spec fn spec_block_blank(chunk: Seq<u8>) -> bool {
    forall|i: int| 0 <= i < chunk.len() ==> chunk[i] == 0xFFu8
}

/// The block sizes the wire protocol knows a frame layout for.
pub open spec fn spec_valid_block_size(block_size: nat) -> bool {
    block_size <= 256 || block_size == 512 || block_size == 1024
}

/// The per-write header size a session derives from its block size.
pub open spec fn spec_header_size_for(block_size: usize) -> usize {
    if block_size == 512 || block_size == 1024 {
        64
    } else {
        2
    }
}

/// The address header preceding a block's bytes. Blocks of at most 256
/// bytes take a 2-byte header: the address as little-endian 16 bits when the
/// whole flash is addressable that way, else the address shifted right 8
/// bits (its low byte is always zero for this block-size class). Blocks of
/// 512 or 1024 bytes take a 64-byte header: the address as little-endian 24
/// bits, zero-padded.
pub open spec fn spec_frame_header(addr: nat, block_size: nat, code_size: nat) -> Seq<u8> {
    if block_size <= 256 {
        if code_size < 0x10000 {
            seq![(addr % 0x100) as u8, ((addr / 0x100) % 0x100) as u8]
        } else {
            seq![((addr / 0x100) % 0x100) as u8, ((addr / 0x10000) % 0x100) as u8]
        }
    } else {
        seq![
            (addr % 0x100) as u8,
            ((addr / 0x100) % 0x100) as u8,
            ((addr / 0x10000) % 0x100) as u8,
        ] + zero_image(61)
    }
}

/// A whole wire frame: the address header followed by the block's bytes.
pub open spec fn spec_data_frame(addr: nat, chunk: Seq<u8>, block_size: nat, code_size: nat) -> Seq<
    u8,
> {
    spec_frame_header(addr, block_size, code_size) + chunk
}

/// One planned write: the block's flash address and the frame to send.
#[derive(Debug, PartialEq)]
pub struct Frame {
    pub addr: usize,
    pub data: Vec<u8>,
}

/// The mathematical shape of a planned write.
pub struct FrameV {
    pub addr: usize,
    pub data: Seq<u8>,
}

impl View for Frame {
    type V = FrameV;

    open spec fn view(&self) -> FrameV {
        FrameV { addr: self.addr, data: self.data@ }
    }
}

/// The views of a vector of frames.
pub open spec fn frames_view(frames: Seq<Frame>) -> Seq<FrameV> {
    frames.map_values(|f: Frame| f@)
}

/// How many blocks the engine walks: one per address step below the flash
/// capacity, and never more than the image provides.
pub open spec fn spec_block_count(binary_len: nat, code_size: nat, block_size: nat) -> nat {
    let n_chunks = binary_len / block_size;
    let n_addr = code_size / block_size + if code_size % block_size != 0 {
        1nat
    } else {
        0nat
    };
    if n_chunks < n_addr {
        n_chunks
    } else {
        n_addr
    }
}

/// The frames for blocks `k` to `n`: a block at a non-zero address whose
/// bytes all hold the erased-flash value is skipped, every other block gets
/// one frame.
pub open spec fn plan_from(
    binary: Seq<u8>,
    code_size: nat,
    block_size: nat,
    k: nat,
    n: nat,
) -> Seq<FrameV>
    decreases n - k,
{
    if k >= n {
        Seq::empty()
    } else {
        let addr = k * block_size;
        let chunk = binary.subrange(addr as int, addr as int + block_size);
        let rest = plan_from(binary, code_size, block_size, k + 1, n);
        if addr != 0 && spec_block_blank(chunk) {
            rest
        } else {
            seq![
                FrameV {
                    addr: addr as usize,
                    data: spec_data_frame(addr, chunk, block_size, code_size),
                },
            ] + rest
        }
    }
}

/// What the engine plans for an image: nothing but `BinaryRemainder` when
/// the image does not divide into blocks, nothing but `UnknownBlockSize`
/// when a block would need a frame layout the protocol lacks, else the
/// frames in address order.
pub open spec fn spec_plan_frames(binary: Seq<u8>, code_size: nat, block_size: nat) -> Result<
    Seq<FrameV>,
    ProgramError,
> {
    let n = spec_block_count(binary.len(), code_size, block_size);
    if binary.len() % block_size != 0 {
        Err(ProgramError::BinaryRemainder)
    } else if !spec_valid_block_size(block_size) && n > 0 {
        Err(ProgramError::UnknownBlockSize(block_size as usize))
    } else {
        Ok(plan_from(binary, code_size, block_size, 0, n))
    }
}

/// Whether every byte of the block holds the erased-flash value.
pub fn block_is_blank(chunk: &[u8]) -> (r: bool)
    ensures
        r == spec_block_blank(chunk@),
{
    let mut i: usize = 0;
    while i < chunk.len()
        invariant
            i <= chunk@.len(),
            forall|j: int| 0 <= j < i ==> chunk@[j] == 0xFFu8,
        decreases chunk@.len() - i,
    {
        if chunk[i] != 0xFF {
            return false;
        }
        i = i + 1;
    }
    true
}

/// Appends a slice's bytes to a vector.
fn push_all(v: &mut Vec<u8>, s: &[u8])
    requires
        old(v)@.len() + s@.len() <= usize::MAX,
    ensures
        final(v)@ == old(v)@ + s@,
{
    let ghost snap = v@;
    let mut i: usize = 0;
    while i < s.len()
        invariant
            i <= s@.len(),
            snap.len() + s@.len() <= usize::MAX,
            v@ == snap + s@.take(i as int),
        decreases s@.len() - i,
    {
        v.push(s[i]);
        proof {
            assert(snap + s@.take(i as int + 1) =~= (snap + s@.take(i as int)).push(s@[i as int]));
        }
        i = i + 1;
    }
    proof {
        assert(s@.take(s@.len() as int) =~= s@);
    }
}

/// Builds the wire frame for one block: the address header for the device's
/// block-size class, then the block's bytes. A block size the protocol has
/// no layout for is an unknown device class.
pub fn encode_frame(addr: usize, chunk: &[u8], block_size: usize, code_size: usize) -> (r: Result<
    Vec<u8>,
    ProgramError,
>)
    requires
        chunk@.len() + 64 <= usize::MAX,
    ensures
        spec_valid_block_size(block_size as nat) ==> (r matches Ok(v) && v@ == spec_data_frame(
            addr as nat,
            chunk@,
            block_size as nat,
            code_size as nat,
        )),
        !spec_valid_block_size(block_size as nat) ==> r == Err::<Vec<u8>, _>(
            ProgramError::UnknownBlockSize(block_size),
        ),
{
    let mut buf: Vec<u8> = Vec::new();
    if block_size <= 256 {
        if code_size < 0x10000 {
            buf.push((addr % 0x100) as u8);
            buf.push(((addr / 0x100) % 0x100) as u8);
        } else {
            buf.push(((addr / 0x100) % 0x100) as u8);
            buf.push(((addr / 0x10000) % 0x100) as u8);
        }
        assert(buf@ =~= spec_frame_header(addr as nat, block_size as nat, code_size as nat));
    } else if block_size == 512 || block_size == 1024 {
        buf.push((addr % 0x100) as u8);
        buf.push(((addr / 0x100) % 0x100) as u8);
        buf.push(((addr / 0x10000) % 0x100) as u8);
        let mut i: usize = 0;
        while i < 61
            invariant
                i <= 61,
                buf@.len() == 3 + i,
                buf@ =~= seq![
                    ((addr as nat) % 0x100) as u8,
                    (((addr as nat) / 0x100) % 0x100) as u8,
                    (((addr as nat) / 0x10000) % 0x100) as u8,
                ] + zero_image(i as nat),
            decreases 61 - i,
        {
            buf.push(0);
            proof {
                assert(zero_image(i as nat + 1) =~= zero_image(i as nat).push(0u8));
            }
            i = i + 1;
        }
        assert(buf@ =~= spec_frame_header(addr as nat, block_size as nat, code_size as nat));
    } else {
        return Err(ProgramError::UnknownBlockSize(block_size));
    }
    push_all(&mut buf, chunk);
    Ok(buf)
}

/// Plans the whole programming pass over an image: checks that the image
/// divides into blocks, walks the blocks in address order, applies the skip
/// rule, and frames every block that is written. The block at address zero
/// is never skipped: it carries addressing semantics for the bootloader.
pub fn plan_frames(binary: &[u8], code_size: usize, block_size: usize) -> (r: Result<
    Vec<Frame>,
    ProgramError,
>)
    requires
        1 <= block_size,
    ensures
        match r {
            Ok(v) => spec_plan_frames(binary@, code_size as nat, block_size as nat) == Ok::<
                _,
                ProgramError,
            >(frames_view(v@)),
            Err(e) => spec_plan_frames(binary@, code_size as nat, block_size as nat) == Err::<
                Seq<FrameV>,
                _,
            >(e),
        },
{
    let len = binary.len();
    if len % block_size != 0 {
        return Err(ProgramError::BinaryRemainder);
    }
    let n_chunks = len / block_size;
    let q = code_size / block_size;
    let n_addr = if code_size % block_size != 0 {
        proof {
            assert(code_size as int % 1int == 0);
            vstd::arithmetic::div_mod::lemma_fundamental_div_mod(
                code_size as int,
                block_size as int,
            );
            assert(q < usize::MAX) by (nonlinear_arith)
                requires
                    block_size >= 2,
                    code_size as int == block_size as int * (q as int) + (
                    code_size as int % block_size as int),
                    0 <= code_size as int % block_size as int,
                    code_size <= usize::MAX,
            ;
        }
        q + 1
    } else {
        q
    };
    let n = if n_chunks < n_addr {
        n_chunks
    } else {
        n_addr
    };
    assert(n as nat == spec_block_count(binary@.len(), code_size as nat, block_size as nat));

    let valid = block_size <= 256 || block_size == 512 || block_size == 1024;
    if !valid {
        if n > 0 {
            return Err(ProgramError::UnknownBlockSize(block_size));
        } else {
            let frames: Vec<Frame> = Vec::new();
            assert(frames_view(frames@) =~= plan_from(
                binary@,
                code_size as nat,
                block_size as nat,
                0,
                n as nat,
            ));
            return Ok(frames);
        }
    }

    proof {
        vstd::arithmetic::div_mod::lemma_fundamental_div_mod(len as int, block_size as int);
    }
    assert(n * block_size <= len) by (nonlinear_arith)
        requires
            n <= len as int / block_size as int,
            block_size >= 1,
            len as int == block_size as int * (len as int / block_size as int),
    ;

    let mut frames: Vec<Frame> = Vec::new();
    proof {
        assert(frames_view(frames@) + plan_from(
            binary@,
            code_size as nat,
            block_size as nat,
            0,
            n as nat,
        ) =~= plan_from(binary@, code_size as nat, block_size as nat, 0, n as nat));
    }
    let mut k: usize = 0;
    while k < n
        invariant
            k <= n,
            1 <= block_size,
            spec_valid_block_size(block_size as nat),
            n * block_size <= binary@.len(),
            binary@.len() == len,
            frames_view(frames@) + plan_from(
                binary@,
                code_size as nat,
                block_size as nat,
                k as nat,
                n as nat,
            ) == plan_from(binary@, code_size as nat, block_size as nat, 0, n as nat),
        decreases n - k,
    {
        assert((k + 1) * block_size <= n * block_size) by (nonlinear_arith)
            requires
                k + 1 <= n,
                block_size >= 1,
        ;
        assert(k * block_size + block_size == (k + 1) * block_size) by (nonlinear_arith);
        let addr = k * block_size;
        let chunk: &[u8] = &binary[addr..addr + block_size];
        assert(chunk@ == binary@.subrange(addr as int, addr as int + block_size as int));
        let skipped = addr != 0 && block_is_blank(chunk);
        if !skipped {
            // A valid block size always frames; the error arm is dead.
            let data = match encode_frame(addr, chunk, block_size, code_size) {
                Ok(d) => d,
                Err(e) => {
                    return Err(e);
                },
            };
            let ghost prev = frames@;
            frames.push(Frame { addr, data });
            proof {
                assert(frames_view(frames@) =~= frames_view(prev) + seq![
                    FrameV {
                        addr: addr,
                        data: spec_data_frame(
                            addr as nat,
                            chunk@,
                            block_size as nat,
                            code_size as nat,
                        ),
                    },
                ]);
            }
        }
        proof {
            assert(frames_view(frames@) + plan_from(
                binary@,
                code_size as nat,
                block_size as nat,
                k as nat + 1,
                n as nat,
            ) =~= plan_from(binary@, code_size as nat, block_size as nat, 0, n as nat));
        }
        k = k + 1;
    }
    Ok(frames)
}

/// The reboot frame: `n` bytes, the first three `0xFF`, the rest zero.
pub open spec fn spec_boot_frame(n: nat) -> Seq<u8> {
    Seq::new(n, |i: int| if i < 3 {
        0xFFu8
    } else {
        0u8
    })
}

/// The boot frame always spans the session's whole write size, opens with
/// the three-byte reboot trigger, and holds nothing else.
pub proof fn lemma_boot_frame_shape(n: nat)
    requires
        n >= 3,
    ensures
        spec_boot_frame(n).len() == n,
        forall|i: int| 0 <= i < 3 ==> spec_boot_frame(n)[i] == 0xFFu8,
        forall|i: int| 3 <= i < n ==> spec_boot_frame(n)[i] == 0u8,
{
}

/// Builds the reboot frame: `write_size` zero bytes with the first three set
/// to the documented reboot trigger sequence.
pub fn boot_frame(write_size: usize) -> (r: Vec<u8>)
    requires
        write_size >= 3,
    ensures
        r@ == spec_boot_frame(write_size as nat),
{
    let mut buf: Vec<u8> = Vec::new();
    let mut i: usize = 0;
    while i < write_size
        invariant
            i <= write_size,
            write_size >= 3,
            buf@ =~= spec_boot_frame(write_size as nat).take(i as int),
        decreases write_size - i,
    {
        buf.push(if i < 3 {
            0xFF
        } else {
            0
        });
        proof {
            assert(buf@ =~= spec_boot_frame(write_size as nat).take(i as int + 1));
        }
        i = i + 1;
    }
    proof {
        assert(spec_boot_frame(write_size as nat).take(write_size as int) =~= spec_boot_frame(
            write_size as nat,
        ));
    }
    buf
}

/// Every planned frame at a non-zero address covers a block that is not all
/// erased-flash bytes: blank blocks away from address zero are never
/// written.
pub proof fn lemma_skip_rule(
    binary: Seq<u8>,
    code_size: nat,
    block_size: nat,
    frames: Seq<FrameV>,
    i: int,
)
    requires
        1 <= block_size,
        binary.len() <= usize::MAX,
        spec_plan_frames(binary, code_size, block_size) == Ok::<_, ProgramError>(frames),
        0 <= i < frames.len(),
    ensures
        frames[i].addr != 0 ==> !spec_block_blank(
            binary.subrange(frames[i].addr as int, frames[i].addr + block_size),
        ),
        frames[i].addr + block_size <= binary.len(),
{
    let n = spec_block_count(binary.len(), code_size, block_size);
    vstd::arithmetic::div_mod::lemma_fundamental_div_mod(
        binary.len() as int,
        block_size as int,
    );
    assert(n * block_size <= binary.len()) by (nonlinear_arith)
        requires
            n <= binary.len() as int / block_size as int,
            block_size >= 1,
            binary.len() as int == block_size as int * (binary.len() as int / block_size as int)
                + binary.len() as int % block_size as int,
            binary.len() as int % block_size as int >= 0,
    ;
    lemma_plan_from_skip(binary, code_size, block_size, 0, n, i);
}

proof fn lemma_plan_from_skip(
    binary: Seq<u8>,
    code_size: nat,
    block_size: nat,
    k: nat,
    n: nat,
    i: int,
)
    requires
        1 <= block_size,
        binary.len() <= usize::MAX,
        k <= n,
        n * block_size <= binary.len(),
        0 <= i < plan_from(binary, code_size, block_size, k, n).len(),
    ensures
        plan_from(binary, code_size, block_size, k, n)[i].addr != 0 ==> !spec_block_blank(
            binary.subrange(
                plan_from(binary, code_size, block_size, k, n)[i].addr as int,
                plan_from(binary, code_size, block_size, k, n)[i].addr + block_size,
            ),
        ),
        plan_from(binary, code_size, block_size, k, n)[i].addr + block_size <= binary.len(),
    decreases n - k,
{
    let addr = k * block_size;
    assert(addr + block_size <= n * block_size) by (nonlinear_arith)
        requires
            k + 1 <= n,
            block_size >= 1,
            addr == k * block_size,
    ;
    let chunk = binary.subrange(addr as int, addr as int + block_size);
    let rest = plan_from(binary, code_size, block_size, k + 1, n);
    if addr != 0 && spec_block_blank(chunk) {
        lemma_plan_from_skip(binary, code_size, block_size, k + 1, n, i);
    } else {
        if i == 0 {
        } else {
            lemma_plan_from_skip(binary, code_size, block_size, k + 1, n, i - 1);
        }
    }
}

/// When there is at least one block, the plan opens with the block at
/// address zero: it is written whatever its contents.
pub proof fn lemma_first_block_always_written(binary: Seq<u8>, code_size: nat, block_size: nat)
    requires
        1 <= block_size,
        binary.len() % block_size == 0,
        spec_valid_block_size(block_size),
        spec_block_count(binary.len(), code_size, block_size) > 0,
    ensures
        spec_plan_frames(binary, code_size, block_size) matches Ok(frames) && frames.len() > 0
            && frames[0].addr == 0,
{
    let n = spec_block_count(binary.len(), code_size, block_size);
    assert(0 * block_size == 0) by (nonlinear_arith);
    assert(plan_from(binary, code_size, block_size, 0, n)[0].addr == 0);
}

/// Every descriptor the registry hands out has a block size the wire
/// protocol knows, and a flash capacity that divides evenly into blocks.
pub proof fn lemma_registry_descriptor_layout(name: Seq<char>, m: Mcu)
    requires
        crate::registry::spec_parse_mcu(name) == Some(m),
    ensures
        1 <= m.block_size,
        spec_valid_block_size(m.block_size as nat),
        m.code_size % m.block_size == 0,
{
    assert(15872usize % 128 == 0);
    assert(32256usize % 128 == 0);
    assert(64512usize % 256 == 0);
    assert(130048usize % 256 == 0);
    assert(63488usize % 512 == 0);
    assert(131072usize % 1024 == 0);
    assert(262144usize % 1024 == 0);
    assert(524288usize % 1024 == 0);
    assert(1048576usize % 1024 == 0);
}

/// An Intel HEX image decoded for a registry descriptor always divides
/// evenly into that descriptor's blocks: planning it never fails, neither
/// with a remainder nor with an unknown block size.
pub proof fn lemma_loaded_image_always_plans(
    name: Seq<char>,
    m: Mcu,
    recs: Seq<HexRecordV>,
    img: Seq<u8>,
    written: nat,
)
    requires
        crate::registry::spec_parse_mcu(name) == Some(m),
        crate::ihex_load::spec_ihex_to_bytes(recs, m.code_size as nat) == Ok::<
            _,
            crate::ihex_load::IHexError,
        >((img, written)),
    ensures
        spec_plan_frames(img, m.code_size as nat, m.block_size as nat) is Ok,
{
    lemma_registry_descriptor_layout(name, m);
    crate::ihex_load::lemma_ihex_image_len(recs, m.code_size as nat, img, written);
}

// ---------------------------------------------------------------------------
// The trusted USB transport.
// ---------------------------------------------------------------------------

#[verifier::external_type_specification]
#[verifier::external_body]
pub struct ExRusbError(rusb::Error);

/// The platform transport: an exclusively owned handle to one USB device,
/// released when the value is dropped. Opaque to the verifier: rusb's
/// `DeviceHandle` carries a trait-bounded context parameter that cannot be
/// declared to it, so the handle lives behind this wall and only the trusted
/// functions below touch it.
#[verifier::external_body]
pub struct SysTeensy {
    handle: rusb::DeviceHandle<rusb::GlobalContext>,
}

/// Relies on rusb::Error only as data: maps each variant to its library
/// counterpart, one arm each.
#[verifier::external_body]
fn usb_error_of(e: rusb::Error) -> (r: UsbError)
{
    match e {
        rusb::Error::Io => UsbError::Io,
        rusb::Error::InvalidParam => UsbError::InvalidParam,
        rusb::Error::Access => UsbError::Access,
        rusb::Error::NoDevice => UsbError::NoDevice,
        rusb::Error::NotFound => UsbError::NotFound,
        rusb::Error::Busy => UsbError::Busy,
        rusb::Error::Timeout => UsbError::Timeout,
        rusb::Error::Overflow => UsbError::Overflow,
        rusb::Error::Pipe => UsbError::Pipe,
        rusb::Error::Interrupted => UsbError::Interrupted,
        rusb::Error::NoMem => UsbError::NoMem,
        rusb::Error::NotSupported => UsbError::NotSupported,
        rusb::Error::BadDescriptor => UsbError::BadDescriptor, rusb::Error::Other => UsbError::Other,
    }
}

/// Relies on rusb::open_device_with_vid_pid: opens the first USB device
/// matching the identifiers; none present, or any failure while opening,
/// gives `None`. The outcome depends on what is plugged in.
#[verifier::external_body]
fn usb_open(vid: u16, pid: u16) -> (r: Option<SysTeensy>)
{
    rusb::open_device_with_vid_pid(vid, pid).map(|handle| SysTeensy { handle })
}

/// Relies on rusb::DeviceHandle::kernel_driver_active: whether a kernel
/// driver currently claims the interface; unsupported on some platforms.
#[verifier::external_body]
fn usb_kernel_driver_active(t: &SysTeensy, iface: u8) -> (r: Result<bool, UsbError>)
{
    t.handle.kernel_driver_active(iface).map_err(usb_error_of)
}

/// Relies on rusb::DeviceHandle::detach_kernel_driver: detaches the kernel
/// driver from the interface so it can be claimed.
#[verifier::external_body]
fn usb_detach_kernel_driver(t: &SysTeensy, iface: u8) -> (r: Result<(), UsbError>)
{
    t.handle.detach_kernel_driver(iface).map_err(usb_error_of)
}

/// Relies on rusb::DeviceHandle::claim_interface: claims the interface for
/// this handle.
#[verifier::external_body]
fn usb_claim_interface(t: &SysTeensy, iface: u8) -> (r: Result<(), UsbError>)
{
    t.handle.claim_interface(iface).map_err(usb_error_of)
}

/// Relies on rusb::DeviceHandle::write_control: one timed control transfer;
/// `Ok(n)` means `n` bytes of the buffer were transferred, never more than
/// the buffer holds. The outcome depends on the device.
#[verifier::external_body]
fn usb_write_control(
    t: &SysTeensy,
    request_type: u8,
    request: u8,
    value: u16,
    index: u16,
    buf: &[u8],
    timeout: Duration,
) -> (r: Result<usize, UsbError>)
    ensures
        r matches Ok(n) ==> n <= buf@.len(),
{
    t.handle.write_control(request_type, request, value, index, buf, timeout).map_err(usb_error_of)
}

/// Relies on Duration::from_millis.
#[verifier::external_body]
fn duration_from_millis(ms: u64) -> (r: Duration)
{
    Duration::from_millis(ms)
}

impl SysTeensy {
    /// Opens the USB device with the given identifiers and claims its first
    /// interface, detaching an active kernel driver where the platform
    /// supports that.
    pub fn connect(vid: u16, pid: u16) -> (r: Result<Self, ConnectError>) {
        let t = match usb_open(vid, pid) {
            Some(t) => t,
            None => {
                return Err(ConnectError::DeviceNotFound);
            },
        };
        match usb_kernel_driver_active(&t, 0) {
            Ok(true) => {
                match usb_detach_kernel_driver(&t, 0) {
                    Ok(()) => {},
                    Err(e) => {
                        return Err(ConnectError::System(SystemError::LibUsb(e)));
                    },
                }
            },
            Ok(false) => {},
            Err(UsbError::NotSupported) => {},
            Err(e) => {
                return Err(ConnectError::System(SystemError::LibUsb(e)));
            },
        }
        match usb_claim_interface(&t, 0) {
            Ok(()) => Ok(t),
            Err(e) => Err(ConnectError::System(SystemError::LibUsb(e))),
        }
    }

    /// One timed control-transfer write carrying `buf` to the device;
    /// success only when the whole buffer went out within the timeout.
    pub fn write(&mut self, buf: &[u8], timeout: Duration) -> (r: Result<(), WriteError>) {
        match usb_write_control(&*self, 0x21, 9, 0x0200, 0, buf, timeout) {
            Ok(n) => if n == buf.len() {
                Ok(())
            } else {
                Err(WriteError::Timeout)
            },
            Err(UsbError::Timeout) => Err(WriteError::Timeout),
            Err(e) => Err(WriteError::System(SystemError::LibUsb(e))),
        }
    }
}

// ---------------------------------------------------------------------------
// The device session.
// ---------------------------------------------------------------------------

/// A connected bootloader session: the exclusively owned transport, the
/// target's flash layout, and the per-write header size derived at connect
/// time.
pub struct Teensy {
    sys: SysTeensy,
    code_size: usize,
    block_size: usize,
    header_size: usize,
}

impl Teensy {
    /// The target's flash capacity this session was opened for.
    pub closed spec fn spec_code_size(&self) -> usize {
        self.code_size
    }

    /// The target's write-block size this session was opened for.
    pub closed spec fn spec_block_size(&self) -> usize {
        self.block_size
    }

    /// The per-write header size this session derived from the block size.
    pub closed spec fn spec_header_size(&self) -> usize {
        self.header_size
    }

    /// Opens a session to the bootloader device for the given target,
    /// deriving the header size from the target's block size.
    pub fn connect(mcu: Mcu) -> (r: Result<Self, ConnectError>)
        ensures
            r matches Ok(t) ==> t.spec_code_size() == mcu.code_size && t.spec_block_size()
                == mcu.block_size && t.spec_header_size() == spec_header_size_for(mcu.block_size),
    {
        let header_size: usize = if mcu.block_size == 512 || mcu.block_size == 1024 {
            64
        } else {
            2
        };
        match SysTeensy::connect(TEENSY_VENDOR_ID, TEENSY_PRODUCT_ID) {
            Ok(sys) => Ok(
                Teensy { sys, code_size: mcu.code_size, block_size: mcu.block_size, header_size },
            ),
            Err(e) => Err(e),
        }
    }

    /// One timed write to the device, as the transport offers it.
    pub fn write(&mut self, buf: &[u8], timeout: Duration) -> (r: Result<(), WriteError>)
        ensures
            final(self).spec_code_size() == old(self).spec_code_size(),
            final(self).spec_block_size() == old(self).spec_block_size(),
            final(self).spec_header_size() == old(self).spec_header_size(),
    {
        self.sys.write(buf, timeout)
    }

    /// Sends the reboot frame: a write-size buffer of zeros opening with
    /// `0xFF 0xFF 0xFF`, with a 500 ms timeout.
    pub fn boot(&mut self) -> (r: Result<(), WriteError>)
        requires
            old(self).spec_block_size() + old(self).spec_header_size() >= 3,
            old(self).spec_block_size() + old(self).spec_header_size() <= usize::MAX,
        ensures
            final(self).spec_code_size() == old(self).spec_code_size(),
            final(self).spec_block_size() == old(self).spec_block_size(),
            final(self).spec_header_size() == old(self).spec_header_size(),
    {
        let ws = self.write_size();
        let buf = boot_frame(ws);
        self.write(buf.as_slice(), duration_from_millis(500))
    }

    /// Programs an image: plans the frames (failing before any write when
    /// the image does not divide into blocks, or when the block size belongs
    /// to no known device class), then writes each frame in address order,
    /// reporting each frame's address through `feedback` just before its
    /// write. The first write gets a 5000 ms timeout, the bootloader being
    /// slow to answer its first packet; every later write gets 500 ms. Any
    /// write failure aborts the whole pass.
    pub fn program(&mut self, binary: &[u8], feedback: impl Fn(usize)) -> (r: Result<
        (),
        ProgramError,
    >)
        requires
            old(self).spec_block_size() >= 1,
            forall|a: usize| call_requires(feedback, (a,)),
        ensures
            final(self).spec_code_size() == old(self).spec_code_size(),
            final(self).spec_block_size() == old(self).spec_block_size(),
            final(self).spec_header_size() == old(self).spec_header_size(),
            match spec_plan_frames(
                binary@,
                old(self).spec_code_size() as nat,
                old(self).spec_block_size() as nat,
            ) {
                Err(e) => r == Err::<(), ProgramError>(e),
                Ok(_) => r is Ok || r matches Err(ProgramError::WriteError(_)),
            },
    {
        let frames = match plan_frames(binary, self.code_size, self.block_size) {
            Ok(f) => f,
            Err(e) => {
                return Err(e);
            },
        };
        let mut j: usize = 0;
        while j < frames.len()
            invariant
                j <= frames@.len(),
                spec_plan_frames(
                    binary@,
                    old(self).spec_code_size() as nat,
                    old(self).spec_block_size() as nat,
                ) is Ok,
                self.spec_code_size() == old(self).spec_code_size(),
                self.spec_block_size() == old(self).spec_block_size(),
                self.spec_header_size() == old(self).spec_header_size(),
                forall|a: usize| call_requires(feedback, (a,)),
            decreases frames@.len() - j,
        {
            let f = &frames[j];
            feedback(f.addr);
            let timeout = duration_from_millis(
                if f.addr == 0 {
                    5000
                } else {
                    500
                },
            );
            match self.write(f.data.as_slice(), timeout) {
                Ok(()) => {},
                Err(e) => {
                    return Err(ProgramError::WriteError(e));
                },
            }
            j = j + 1;
        }
        Ok(())
    }

    /// The whole frame size of one write: a block and its header.
    fn write_size(&self) -> (r: usize)
        requires
            self.spec_block_size() + self.spec_header_size() <= usize::MAX,
        ensures
            r == self.spec_block_size() + self.spec_header_size(),
    {
        self.block_size + self.header_size
    }
}

/// A session to a running application's soft-reboot interface, used to drop
/// the device into its bootloader without touching the reset button.
pub struct SoftRebootor {
    sys: SysTeensy,
}

impl SoftRebootor {
    /// Opens a session to the soft-reboot device.
    pub fn connect() -> (r: Result<Self, ConnectError>) {
        match SysTeensy::connect(TEENSY_VENDOR_ID, SOFT_REBOOTER_PRODUCT_ID) {
            Ok(sys) => Ok(SoftRebootor { sys }),
            Err(e) => Err(e),
        }
    }

    /// Sends the one-byte soft-reboot command with a 500 ms timeout.
    pub fn reboot(&mut self) -> (r: Result<(), WriteError>) {
        let buf: Vec<u8> = vec![134];
        self.sys.write(buf.as_slice(), duration_from_millis(500))
    }
}

} // verus!
