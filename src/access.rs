//! Bus addresses, the operations the bus applies to cartridge memory, and the two
//! decode tables that place an address in ROM or RAM.

use vstd::prelude::*;

verus! {

/// A 24-bit bus address: a bank byte and a 16-bit offset inside it.
#[derive(Debug, Clone, Copy, PartialEq, Eq, Structural)]
pub struct Addr24 {
    pub bank: u8,
    pub addr: u16,
}

/// An operation applied to one byte of a buffer: a read, a write, or anything
/// else the bus wants to do there.
pub trait Access: Sized {
    type Output;

    /// Whether applying `self` at `index` of `before` may leave `after` and return `out`.
    spec fn performs(&self, before: Seq<u8>, index: int, after: Seq<u8>, out: Self::Output) -> bool;

    fn access_slice(self, slice: &mut Vec<u8>, index: usize) -> (out: Self::Output)
        requires
            index < old(slice)@.len(),
        ensures
            final(slice)@.len() == old(slice)@.len(),
            self.performs(old(slice)@, index as int, final(slice)@, out),
    ;
}

/// Reads the byte.
#[derive(Debug, Clone, Copy)]
pub struct Read;

impl Access for Read {
    type Output = u8;

    open spec fn performs(&self, before: Seq<u8>, index: int, after: Seq<u8>, out: u8) -> bool {
        after == before && out == before[index]
    }

    fn access_slice(self, slice: &mut Vec<u8>, index: usize) -> (out: u8) {
        slice[index]
    }
}

/// Stores the byte it carries.
#[derive(Debug, Clone, Copy)]
pub struct Write(pub u8);

impl Access for Write {
    type Output = ();

    open spec fn performs(&self, before: Seq<u8>, index: int, after: Seq<u8>, out: ()) -> bool {
        after == before.update(index, self.0)
    }

    fn access_slice(self, slice: &mut Vec<u8>, index: usize) -> (out: ()) {
        slice.set(index, self.0);
    }
}

/// Where an address lands, before the index is wrapped to the buffer's length.
#[derive(Debug, Clone, Copy, PartialEq, Eq, Structural)]
pub enum Slot {
    Ram(u32),
    Rom(u32),
}

/// The decode table of the 32 KiB-bank mode.
pub open spec fn lorom_slot(bank: u8, offset: u16) -> Option<Slot> {
    if (0x70 <= bank <= 0x7d || bank >= 0xf0) && offset < 0x8000 {
        Some(Slot::Ram(((bank % 16) * 0x8000 + offset) as u32))
    } else if bank >= 0x40 || offset >= 0x8000 {
        Some(Slot::Rom(((bank % 128) * 0x8000 + offset % 0x8000) as u32))
    } else {
        None
    }
}

/// The decode table of the 64 KiB-bank mode.
pub open spec fn hirom_slot(bank: u8, offset: u16) -> Option<Slot> {
    if bank % 128 < 0x40 && 0x6000 <= offset < 0x8000 {
        Some(Slot::Ram(((bank % 64) * 0x2000 + offset % 0x2000) as u32))
    } else if bank % 128 >= 0x40 || offset >= 0x8000 {
        Some(Slot::Rom(((bank % 64) * 0x10000 + offset) as u32))
    } else {
        None
    }
}

/// Where `addr` lands in the given mode, if anywhere.
pub open spec fn slot_of(is_lorom: bool, addr: Addr24) -> Option<Slot> {
    if is_lorom {
        lorom_slot(addr.bank, addr.addr)
    } else {
        hirom_slot(addr.bank, addr.addr)
    }
}

/// Decodes an address with the table of the given mode.
pub fn locate(is_lorom: bool, addr: Addr24) -> (r: Option<Slot>)
    ensures
        r == slot_of(is_lorom, addr),
{
    let bank = addr.bank;
    let offset = addr.addr;
    if is_lorom {
        if ((0x70 <= bank && bank <= 0x7d) || bank >= 0xf0) && offset <= 0x7fff {
            let b = bank as u32;
            let o = offset as u32;
            assert(((b & 0xf) << 15u32) | o == (b % 16) * 0x8000 + o) by (bit_vector)
                requires
                    b < 256 && o < 0x8000,
            ;
            Some(Slot::Ram(((b & 0xf) << 15) | o))
        } else if bank >= 0x40 || offset >= 0x8000 {
            let b = bank as u32;
            let o = offset as u32;
            assert(((b & 0x7f) << 15u32) | (o & 0x7fff) == (b % 128) * 0x8000 + o % 0x8000)
                by (bit_vector)
                requires
                    b < 256 && o < 0x10000,
            ;
            Some(Slot::Rom(((b & 0x7f) << 15) | (o & 0x7fff)))
        } else {
            None
        }
    } else {
        let masked = bank & 0x7f;
        assert(bank & 0x7f == bank % 128) by (bit_vector);
        if masked <= 0x3f && 0x6000 <= offset && offset <= 0x7fff {
            let b = bank as u32;
            let o = offset as u32;
            assert(((b & 0x3f) << 13u32) | (o & 0x1fff) == (b % 64) * 0x2000 + o % 0x2000)
                by (bit_vector)
                requires
                    b < 256 && o < 0x10000,
            ;
            Some(Slot::Ram(((b & 0x3f) << 13) | (o & 0x1fff)))
        } else if masked >= 0x40 || offset >= 0x8000 {
            let b = bank as u32;
            let o = offset as u32;
            assert(((b & 0x3f) << 16u32) | o == (b % 64) * 0x10000 + o) by (bit_vector)
                requires
                    b < 256 && o < 0x10000,
            ;
            Some(Slot::Rom(((b & 0x3f) << 16) | o))
        } else {
            None
        }
    }
}

/// A raw index wrapped to a buffer of `len` bytes by masking with `len - 1`.
pub open spec fn wrap_index(raw: u32, len: nat) -> int {
    (raw as u64 & (len - 1) as u64) as int
}

/// A wrapped index falls inside its non-empty buffer.
pub proof fn lemma_wrap_in_bounds(raw: u32, len: nat)
    requires
        0 < len <= usize::MAX,
    ensures
        0 <= wrap_index(raw, len) < len,
{
    let m = (len - 1) as u64;
    let x = raw as u64;
    assert(x & m <= m) by (bit_vector);
}

/// Masks a raw index into a non-empty buffer of `len` bytes.
pub fn wrap(raw: u32, len: usize) -> (r: usize)
    requires
        len > 0,
    ensures
        r == wrap_index(raw, len as nat),
        r < len,
{
    let mask = (len - 1) as u64;
    let r = (raw as u64) & mask;
    assert((raw as u64) & mask <= mask) by (bit_vector);
    r as usize
}

} // verus!
