//! Building a cartridge from a dump, and the accessor the bus calls on every cycle.

use vstd::prelude::*;
use crate::access::{slot_of, locate, wrap, wrap_index, Access, Addr24, Slot};
use crate::header::{describes, header_score, window_decodes, Header, WINDOW_LEN};

verus! {

/// The smallest dump that can hold a cartridge.
pub const MINIMUM_SIZE: usize = 0x8000;

/// Length of the header that some copiers put in front of a dump.
pub const COPIER_HEADER: usize = 512;

/// Why a dump could not become a cartridge.
#[derive(Debug, Clone, Copy, PartialEq, Eq, Structural)]
pub enum ReadRomError {
    TooSmall(usize),
    AlignError(usize),
    NoSuitableHeader,
}

/// The dump proper: without its copier header where its length shows one.
pub open spec fn dump_of(bytes: Seq<u8>) -> Seq<u8> {
    if bytes.len() % 1024 == 0 {
        bytes
    } else {
        bytes.subrange(COPIER_HEADER as int, bytes.len() as int)
    }
}

/// Offset of the `i`-th header candidate; the first two stand for the 32 KiB-bank
/// mode, the third for the 64 KiB-bank mode.
pub open spec fn header_offset(i: int) -> int {
    if i == 0 {
        0x7fb0
    } else if i == 1 {
        0xffb0
    } else {
        0x40ffb0
    }
}

/// The window of the `i`-th header candidate.
pub open spec fn window_at(d: Seq<u8>, i: int) -> Seq<u8> {
    d.subrange(header_offset(i), header_offset(i) + WINDOW_LEN)
}

/// Whether the `i`-th candidate lies inside the dump and decodes.
pub open spec fn usable(d: Seq<u8>, i: int) -> bool {
    &&& 0 <= i < 3
    &&& d.len() >= header_offset(i) + WINDOW_LEN
    &&& window_decodes(window_at(d, i))
}

/// Whether some candidate decodes.
pub open spec fn any_usable(d: Seq<u8>) -> bool {
    usable(d, 0) || usable(d, 1) || usable(d, 2)
}

/// Candidate `i` is the first of the highest score among the first `k` candidates.
pub open spec fn wins_among(d: Seq<u8>, i: int, k: int) -> bool {
    &&& usable(d, i)
    &&& i < k
    &&& forall|j: int|
        0 <= j < i && usable(d, j) ==> header_score(window_at(d, j)) < header_score(
            window_at(d, i),
        )
    &&& forall|j: int|
        i < j < k && usable(d, j) ==> header_score(window_at(d, j)) <= header_score(
            window_at(d, i),
        )
}

/// Candidate `i` is the one the scan selects.
pub open spec fn wins(d: Seq<u8>, i: int) -> bool {
    wins_among(d, i, 3)
}

/// Length of the ROM buffer: the declared size, or the dump's length if that is larger.
pub open spec fn rom_len_for(declared: u32, n: nat) -> nat {
    if declared as nat > n {
        declared as nat
    } else {
        n
    }
}

/// The wrapping 16-bit sum of all bytes of `s`.
pub open spec fn sum16(s: Seq<u8>) -> u16
    decreases s.len(),
{
    if s.len() == 0 {
        0
    } else {
        vstd::wrapping::u16_specs::wrapping_add(sum16(s.drop_last()), s.last() as u16)
    }
}

/// A cartridge: its header, its mapping mode, its ROM and its RAM.
#[derive(Debug, Clone)]
pub struct Cartridge {
    header: Header,
    is_lorom: bool,
    rom: Vec<u8>,
    ram: Vec<u8>,
    rom_checksum: u16,
}

impl Cartridge {
    pub closed spec fn spec_header(&self) -> Header {
        self.header
    }

    /// Whether the 32 KiB-bank decode table is in use.
    pub closed spec fn lorom_mode(&self) -> bool {
        self.is_lorom
    }

    pub closed spec fn rom_bytes(&self) -> Seq<u8> {
        self.rom@
    }

    pub closed spec fn ram_bytes(&self) -> Seq<u8> {
        self.ram@
    }

    /// The checksum computed over the ROM when it was loaded.
    pub closed spec fn loaded_checksum(&self) -> u16 {
        self.rom_checksum
    }

    /// A cartridge has some ROM, and both buffers fit in memory.
    pub open spec fn wf(&self) -> bool {
        &&& 0 < self.rom_bytes().len() <= usize::MAX
        &&& self.ram_bytes().len() <= usize::MAX
    }

    /// Where this cartridge answers `addr`: no RAM means no RAM slot.
    pub open spec fn served_slot(&self, addr: Addr24) -> Option<Slot> {
        match slot_of(self.lorom_mode(), addr) {
            Some(Slot::Ram(raw)) => if self.ram_bytes().len() == 0 {
                None
            } else {
                Some(Slot::Ram(raw))
            },
            other => other,
        }
    }

    /// Loads a dump: checks its size, drops a copier header, picks the header
    /// candidate with the best score, tiles the dump over the declared ROM size
    /// and gives the cartridge zeroed RAM of the declared size. A checksum that
    /// disagrees with the header does not stop the load.
    pub fn from_bytes(bytes: &[u8]) -> (r: Result<Cartridge, ReadRomError>)
        ensures
            bytes@.len() < MINIMUM_SIZE ==> r == Err::<Cartridge, ReadRomError>(
                ReadRomError::TooSmall(bytes@.len() as usize),
            ),
            bytes@.len() >= MINIMUM_SIZE && bytes@.len() % 512 != 0 ==> r == Err::<
                Cartridge,
                ReadRomError,
            >(ReadRomError::AlignError(bytes@.len() as usize)),
            bytes@.len() >= MINIMUM_SIZE && bytes@.len() % 512 == 0 && !any_usable(
                dump_of(bytes@),
            ) ==> r == Err::<Cartridge, ReadRomError>(ReadRomError::NoSuitableHeader),
            r is Ok <==> (bytes@.len() >= MINIMUM_SIZE && bytes@.len() % 512 == 0 && any_usable(
                dump_of(bytes@),
            )),
            r matches Ok(c) ==> loaded_from(bytes@, c),
    {
        let n = bytes.len();
        if n < MINIMUM_SIZE {
            return Err(ReadRomError::TooSmall(n));
        }
        if n % 512 != 0 {
            return Err(ReadRomError::AlignError(n));
        }
        let base: usize = if n % 1024 == 0 {
            0
        } else {
            COPIER_HEADER
        };
        let dump = vstd::slice::slice_subrange(bytes, base, n);
        let ghost d = dump@;
        assert(d =~= dump_of(bytes@));
        let best = select_header(dump);
        let (header, _score, is_lorom) = match best {
            Some(b) => b,
            None => {
                return Err(ReadRomError::NoSuitableHeader);
            },
        };
        let rom = tile(dump, header.rom_size);
        let rom_checksum = checksum16(&rom);
        let ram = zeroed(header.ram_size);
        let c = Cartridge { header, is_lorom, rom, ram, rom_checksum };
        Ok(c)
    }

    pub fn header(&self) -> (r: &Header)
        ensures
            *r == self.spec_header(),
    {
        &self.header
    }

    /// Whether the 32 KiB-bank decode table is in use.
    pub fn is_lorom(&self) -> (r: bool)
        ensures
            r == self.lorom_mode(),
    {
        self.is_lorom
    }

    pub fn rom_len(&self) -> (r: usize)
        ensures
            r == self.rom_bytes().len(),
    {
        self.rom.len()
    }

    pub fn ram_len(&self) -> (r: usize)
        ensures
            r == self.ram_bytes().len(),
    {
        self.ram.len()
    }

    /// The wrapping 16-bit sum of the ROM as it was loaded.
    pub fn computed_checksum(&self) -> (r: u16)
        ensures
            r == self.loaded_checksum(),
    {
        self.rom_checksum
    }

    /// Whether the loaded ROM sums to the checksum its header stores; a mismatch
    /// is only worth a warning.
    pub fn checksum_matches(&self) -> (r: bool)
        ensures
            r == (self.loaded_checksum() == self.spec_header().checksum),
    {
        self.rom_checksum == self.header.checksum
    }

    fn access_ram<A: Access>(&mut self, access: A, index: u32) -> (out: A::Output)
        requires
            old(self).ram@.len() > 0,
        ensures
            access.performs(
                old(self).ram@,
                wrap_index(index, old(self).ram@.len()),
                final(self).ram@,
                out,
            ),
            final(self).ram@.len() == old(self).ram@.len(),
            final(self).rom@ == old(self).rom@,
            final(self).header == old(self).header,
            final(self).is_lorom == old(self).is_lorom,
            final(self).rom_checksum == old(self).rom_checksum,
    {
        let at = wrap(index, self.ram.len());
        access.access_slice(&mut self.ram, at)
    }

    fn access_rom<A: Access>(&mut self, access: A, index: u32) -> (out: A::Output)
        requires
            old(self).rom@.len() > 0,
        ensures
            access.performs(
                old(self).rom@,
                wrap_index(index, old(self).rom@.len()),
                final(self).rom@,
                out,
            ),
            final(self).rom@.len() == old(self).rom@.len(),
            final(self).ram@ == old(self).ram@,
            final(self).header == old(self).header,
            final(self).is_lorom == old(self).is_lorom,
            final(self).rom_checksum == old(self).rom_checksum,
    {
        let at = wrap(index, self.rom.len());
        access.access_slice(&mut self.rom, at)
    }

    /// Applies `access` where `addr` lands in ROM or RAM, and returns its result;
    /// `None`, with nothing touched, where the cartridge does not answer `addr`.
    pub fn access<A: Access>(&mut self, access: A, addr: Addr24) -> (r: Option<A::Output>)
        requires
            old(self).wf(),
        ensures
            access_result(*old(self), access, addr, *final(self), r),
    {
        match locate(self.is_lorom, addr) {
            Some(Slot::Ram(raw)) => {
                if self.ram.len() == 0 {
                    None
                } else {
                    Some(self.access_ram(access, raw))
                }
            },
            Some(Slot::Rom(raw)) => Some(self.access_rom(access, raw)),
            None => None,
        }
    }
}

/// What `c` is when loaded from the dump `bytes`.
pub open spec fn loaded_from(bytes: Seq<u8>, c: Cartridge) -> bool {
    let d = dump_of(bytes);
    &&& c.wf()
    &&& exists|i: int|
        wins(d, i) && describes(window_at(d, i), c.spec_header()) && c.lorom_mode() == (i < 2)
    &&& c.rom_bytes().len() == rom_len_for(c.spec_header().rom_size, d.len())
    &&& forall|k: int| 0 <= k < c.rom_bytes().len() ==> c.rom_bytes()[k] == d[k % (d.len() as int)]
    &&& c.ram_bytes() == Seq::new(c.spec_header().ram_size as nat, |k: int| 0u8)
    &&& c.loaded_checksum() == sum16(c.rom_bytes())
}

/// What one access through `a` at `addr` does to `before`, leaving `after` and returning `r`.
pub open spec fn access_result<A: Access>(
    before: Cartridge,
    a: A,
    addr: Addr24,
    after: Cartridge,
    r: Option<A::Output>,
) -> bool {
    &&& after.wf()
    &&& after.spec_header() == before.spec_header()
    &&& after.lorom_mode() == before.lorom_mode()
    &&& after.loaded_checksum() == before.loaded_checksum()
    &&& match before.served_slot(addr) {
        None => {
            &&& r is None
            &&& after.rom_bytes() == before.rom_bytes()
            &&& after.ram_bytes() == before.ram_bytes()
        },
        Some(Slot::Ram(raw)) => {
            &&& r matches Some(o) && a.performs(
                before.ram_bytes(),
                wrap_index(raw, before.ram_bytes().len()),
                after.ram_bytes(),
                o,
            )
            &&& after.ram_bytes().len() == before.ram_bytes().len()
            &&& after.rom_bytes() == before.rom_bytes()
        },
        Some(Slot::Rom(raw)) => {
            &&& r matches Some(o) && a.performs(
                before.rom_bytes(),
                wrap_index(raw, before.rom_bytes().len()),
                after.rom_bytes(),
                o,
            )
            &&& after.rom_bytes().len() == before.rom_bytes().len()
            &&& after.ram_bytes() == before.ram_bytes()
        },
    }
}

/// Tries the three header candidates of a dump and keeps the first of the highest
/// score, with the mapping mode its offset stands for.
pub fn select_header(dump: &[u8]) -> (r: Option<(Header, u16, bool)>)
    ensures
        r is Some <==> any_usable(dump@),
        r matches Some((h, s, l)) ==> exists|i: int|
            {
                &&& wins(dump@, i)
                &&& describes(window_at(dump@, i), h)
                &&& s == header_score(window_at(dump@, i))
                &&& l == (i < 2)
            },
{
    let ghost d = dump@;
    let dn = dump.len();
    let mut best: Option<(Header, u16, bool)> = None;
    let ghost mut chosen: int = 0;
    let mut k: usize = 0;
    while k < 3
        invariant
            k <= 3,
            d == dump@,
            dn == d.len(),
            best is None <==> (forall|j: int| 0 <= j < k ==> !usable(d, j)),
            best matches Some((h, s, l)) ==> {
                &&& wins_among(d, chosen, k as int)
                &&& describes(window_at(d, chosen), h)
                &&& s == header_score(window_at(d, chosen))
                &&& l == (chosen < 2)
            },
        decreases 3 - k,
    {
        let offset: usize = if k == 0 {
            0x7fb0
        } else if k == 1 {
            0xffb0
        } else {
            0x40ffb0
        };
        let is_lorom = k < 2;
        let ghost none_before = best is None;
        assert(offset as int == header_offset(k as int));
        if dn >= offset + WINDOW_LEN {
            let window = vstd::slice::slice_subrange(dump, offset, offset + WINDOW_LEN);
            assert(window@ == window_at(d, k as int));
            match Header::from_bytes(window) {
                Some((new, score)) => {
                    let better = match &best {
                        Some((_, s, _)) => score > *s,
                        None => true,
                    };
                    if better {
                        best = Some((new, score, is_lorom));
                        proof {
                            chosen = k as int;
                        }
                    }
                },
                None => {},
            }
        }
        assert(usable(d, k as int) ==> best is Some);
        assert(!usable(d, k as int) ==> (best is None <==> none_before));
        k = k + 1;
    }
    proof {
        if best is Some {
            assert(wins(d, chosen));
        }
    }
    best
}

/// A buffer of `rom_len_for(declared, dump)` bytes holding the dump over and over.
fn tile(dump: &[u8], declared: u32) -> (rom: Vec<u8>)
    requires
        dump@.len() > 0,
    ensures
        rom@.len() == rom_len_for(declared, dump@.len()),
        forall|k: int| 0 <= k < rom@.len() ==> rom@[k] == dump@[k % (dump@.len() as int)],
{
    let ghost d = dump@;
    let dn = dump.len();
    let wanted = declared as usize;
    let rom_len: usize = if wanted > dn {
        wanted
    } else {
        dn
    };
    let mut rom: Vec<u8> = Vec::new();
    let mut i: usize = 0;
    while i < rom_len
        invariant
            d == dump@,
            dn == d.len(),
            dn > 0,
            i <= rom_len,
            rom_len == rom_len_for(declared, d.len()),
            rom@.len() == i,
            forall|k: int| 0 <= k < i ==> rom@[k] == d[k % (dn as int)],
        decreases rom_len - i,
    {
        rom.push(dump[i % dn]);
        i = i + 1;
    }
    rom
}

/// The wrapping 16-bit sum of the bytes of `rom`.
fn checksum16(rom: &Vec<u8>) -> (sum: u16)
    ensures
        sum == sum16(rom@),
{
    let mut sum: u16 = 0;
    let mut i: usize = 0;
    while i < rom.len()
        invariant
            i <= rom@.len(),
            sum == sum16(rom@.take(i as int)),
        decreases rom@.len() - i,
    {
        assert(rom@.take(i + 1).drop_last() =~= rom@.take(i as int));
        sum = sum.wrapping_add(rom[i] as u16);
        i = i + 1;
    }
    assert(rom@.take(rom@.len() as int) =~= rom@);
    sum
}

/// `len` zero bytes.
fn zeroed(len: u32) -> (ram: Vec<u8>)
    ensures
        ram@ == Seq::new(len as nat, |k: int| 0u8),
{
    let n = len as usize;
    let mut ram: Vec<u8> = Vec::new();
    let mut i: usize = 0;
    while i < n
        invariant
            n == len,
            i <= n,
            ram@ == Seq::new(i as nat, |k: int| 0u8),
        decreases n - i,
    {
        ram.push(0);
        assert(ram@ =~= Seq::new((i + 1) as nat, |k: int| 0u8));
        i = i + 1;
    }
    ram
}

} // verus!
