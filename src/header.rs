//! Decoding of the header window that the manufacturer stores in the dump.

use vstd::prelude::*;

verus! {

/// Length of a header window: 16 bytes of extended header, then 64 of primary header.
pub const WINDOW_LEN: usize = 80;

/// Where the primary header starts inside a window.
pub const PRIMARY: usize = 16;

/// Length of the title field.
pub const TITLE_LEN: usize = 21;

/// Score for each printable byte of the title.
pub const VALID_CHAR: u16 = 2;

/// Score for a checksum whose stored complement agrees.
pub const VALID_CHECKSUM_COMPLEMENT: u16 = 32;

/// Score for a speed nibble that signals its flag.
pub const VALID_SPEED_INDICATION: u16 = 24;

/// Score for a country code in the known range.
pub const KNOWN_COUNTRY: u16 = 10;

/// Developer id that announces the later extended header.
pub const EXTENDED_DEVELOPER: u8 = 51;

/// The high and the low nibble of a byte.
pub fn split_byte(byte: u8) -> (r: (u8, u8))
    ensures
        r.0 == byte / 16,
        r.1 == byte % 16,
{
    assert(byte >> 4u8 == byte / 16 && byte & 15u8 == byte % 16) by (bit_vector);
    (byte >> 4, byte & 15)
}

/// The mapping modes a cartridge may declare.
#[derive(Debug, Clone, Copy, PartialEq, Eq, Structural)]
pub enum RomType {
    LoRom,
    HiRom,
    LoRomSDD1,
    LoRomSA1,
    ExHiRom,
    HiRomSPC7110,
}

/// The mapping mode that a low nibble names, if any.
pub open spec fn rom_type_of(code: u8) -> Option<RomType> {
    if code == 0 {
        Some(RomType::LoRom)
    } else if code == 1 {
        Some(RomType::HiRom)
    } else if code == 2 {
        Some(RomType::LoRomSDD1)
    } else if code == 3 {
        Some(RomType::LoRomSA1)
    } else if code == 5 {
        Some(RomType::ExHiRom)
    } else if code == 10 {
        Some(RomType::HiRomSPC7110)
    } else {
        None
    }
}

impl RomType {
    pub fn from_byte(byte: u8) -> (r: Option<RomType>)
        ensures
            r == rom_type_of(byte),
    {
        match byte {
            0 => Some(RomType::LoRom),
            1 => Some(RomType::HiRom),
            2 => Some(RomType::LoRomSDD1),
            3 => Some(RomType::LoRomSA1),
            5 => Some(RomType::ExHiRom),
            10 => Some(RomType::HiRomSPC7110),
            _ => None,
        }
    }
}

/// A size field: 1 KiB shifted left by the stored code, in 32 bits
/// (the shift amount taken modulo 32, bits shifted out are lost).
pub open spec fn size_of_code(code: u8) -> u32 {
    vstd::wrapping::u32_specs::wrapping_shl(0x400u32, code as u32)
}

fn size_from_code(code: u8) -> (r: u32)
    ensures
        r == size_of_code(code),
{
    0x400u32.wrapping_shl(code as u32)
}


/// A little-endian 16-bit word.
pub open spec fn le16(lo: u8, hi: u8) -> u16 {
    (lo + 256 * hi) as u16
}

/// A byte of printable ASCII.
pub open spec fn is_printable(b: u8) -> bool {
    0x20 <= b <= 0x7e
}

/// The printable bytes of `s`, in order.
pub open spec fn printable_bytes(s: Seq<u8>) -> Seq<u8>
    decreases s.len(),
{
    if s.len() == 0 {
        Seq::empty()
    } else {
        let rest = printable_bytes(s.drop_last());
        if is_printable(s.last()) {
            rest.push(s.last())
        } else {
            rest
        }
    }
}

/// Filtering never lengthens a sequence.
pub proof fn lemma_printable_len(s: Seq<u8>)
    ensures
        printable_bytes(s).len() <= s.len(),
    decreases s.len(),
{
    if s.len() > 0 {
        lemma_printable_len(s.drop_last());
    }
}

/// `s` without the spaces at its end.
pub open spec fn trim_trailing_spaces(s: Seq<u8>) -> Seq<u8>
    decreases s.len(),
{
    if s.len() > 0 && s.last() == 0x20 {
        trim_trailing_spaces(s.drop_last())
    } else {
        s
    }
}

/// The raw title field of a window.
pub open spec fn title_bytes(w: Seq<u8>) -> Seq<u8> {
    w.subrange(PRIMARY as int, PRIMARY + TITLE_LEN)
}

/// The display name of a window: its printable title bytes, trailing spaces removed.
pub open spec fn name_of(w: Seq<u8>) -> Seq<char> {
    trim_trailing_spaces(printable_bytes(title_bytes(w))).map_values(|b: u8| b as char)
}

/// The speed nibble of a window.
pub open spec fn speed_of(w: Seq<u8>) -> u8 {
    w[37] / 16
}

/// Stored checksum of a window.
pub open spec fn checksum_of(w: Seq<u8>) -> u16 {
    le16(w[46], w[47])
}

/// Stored checksum complement of a window.
pub open spec fn complement_of(w: Seq<u8>) -> u16 {
    le16(w[44], w[45])
}

/// Whether a window's mapping-mode nibble names a known mode.
pub open spec fn window_decodes(w: Seq<u8>) -> bool {
    rom_type_of(w[37] % 16) is Some
}

/// The plausibility score of a window.
pub open spec fn header_score(w: Seq<u8>) -> u16 {
    (VALID_CHAR * printable_bytes(title_bytes(w)).len()
        + (if speed_of(w) % 2 == 1 { VALID_SPEED_INDICATION } else { 0 })
        + (if w[41] <= 20 { KNOWN_COUNTRY } else { 0 })
        + (if complement_of(w) + checksum_of(w) == 0xffff {
        VALID_CHECKSUM_COMPLEMENT
    } else {
        0
    })) as u16
}

/// The later extended header, stored in the 16 bytes before the primary header.
#[derive(Debug, Clone)]
pub struct ExtendedHeader {
    pub maker: [u8; 2],
    pub game: [u8; 4],
    pub flash_size: u32,
    pub ram_size: u32,
    pub special_version: u8,
}

/// Which extended header a cartridge carries.
#[derive(Debug, Clone)]
pub enum OptExtendedHeader {
    Old { subtype: u8 },
    Later { subtype: u8, header: ExtendedHeader },
    Absent,
}

/// Whether `e` is the extended header that window `w` announces.
pub open spec fn extended_matches(w: Seq<u8>, e: OptExtendedHeader) -> bool {
    match e {
        OptExtendedHeader::Later { subtype, header } => {
            &&& w[42] == EXTENDED_DEVELOPER
            &&& subtype == w[15]
            &&& header.maker@ == w.subrange(0, 2)
            &&& header.game@ == w.subrange(2, 6)
            &&& header.flash_size == size_of_code(w[12])
            &&& header.ram_size == size_of_code(w[13])
            &&& header.special_version == w[14]
        },
        OptExtendedHeader::Old { subtype } => {
            &&& w[42] != EXTENDED_DEVELOPER
            &&& w[36] == 0
            &&& subtype == w[15]
        },
        OptExtendedHeader::Absent => w[42] != EXTENDED_DEVELOPER && w[36] != 0,
    }
}

/// The decoded primary header.
#[derive(Debug, Clone)]
pub struct Header {
    pub name: String,
    pub speed: u8,
    pub rom_type: RomType,
    pub extended: OptExtendedHeader,
    pub is_fast: bool,
    pub coprocessor: u8,
    pub chips: u8,
    pub rom_size: u32,
    pub ram_size: u32,
    pub country: u8,
    pub developer_id: u8,
    pub version: u8,
    pub checksum_complement: u16,
    pub checksum: u16,
}

/// Whether `h` holds the fields that window `w` stores.
pub open spec fn describes(w: Seq<u8>, h: Header) -> bool {
    &&& h.name@ == name_of(w)
    &&& h.speed == speed_of(w)
    &&& rom_type_of(w[37] % 16) == Some(h.rom_type)
    &&& h.is_fast == (speed_of(w) / 2 % 2 == 1)
    &&& h.coprocessor == w[38] / 16
    &&& h.chips == w[38] % 16
    &&& h.rom_size == size_of_code(w[39])
    &&& h.ram_size == size_of_code(w[40])
    &&& h.country == w[41]
    &&& h.developer_id == w[42]
    &&& h.version == w[43]
    &&& h.checksum_complement == complement_of(w)
    &&& h.checksum == checksum_of(w)
    &&& extended_matches(w, h.extended)
}

/// Relies on String::push: appends one character at the end.
pub assume_specification[ String::push ](s: &mut String, ch: char)
    ensures
        final(s)@ == old(s)@.push(ch),
;


impl Header {
    /// Decodes an 80-byte window; `None` when its mapping-mode nibble names no known
    /// mode, else the header and its plausibility score.
    pub fn from_bytes(full_bytes: &[u8]) -> (r: Option<(Header, u16)>)
        requires
            full_bytes@.len() == WINDOW_LEN,
        ensures
            r is Some <==> window_decodes(full_bytes@),
            r matches Some((h, score)) ==> describes(full_bytes@, h) && score == header_score(
                full_bytes@,
            ),
    {
        let ghost w = full_bytes@;
        let mut kept: Vec<u8> = Vec::new();
        let mut score: u16 = 0;
        let mut i: usize = 0;
        while i < TITLE_LEN
            invariant
                w == full_bytes@,
                w.len() == WINDOW_LEN,
                i <= TITLE_LEN,
                kept@ == printable_bytes(w.subrange(PRIMARY as int, PRIMARY + i)),
                kept@.len() <= i,
                score == VALID_CHAR * kept@.len(),
            decreases TITLE_LEN - i,
        {
            let c = full_bytes[PRIMARY + i];
            assert(w.subrange(PRIMARY as int, PRIMARY + i + 1).drop_last() =~= w.subrange(
                PRIMARY as int,
                PRIMARY + i,
            ));
            if 0x20 <= c && c <= 0x7e {
                kept.push(c);
                score = score + VALID_CHAR;
            }
            i = i + 1;
        }
        assert(w.subrange(PRIMARY as int, PRIMARY + TITLE_LEN) =~= title_bytes(w));
        let mut end: usize = kept.len();
        assert(kept@.take(end as int) =~= kept@);
        while end > 0 && kept[end - 1] == 0x20
            invariant
                end <= kept@.len(),
                trim_trailing_spaces(kept@) == trim_trailing_spaces(kept@.take(end as int)),
            decreases end,
        {
            assert(kept@.take(end as int).drop_last() =~= kept@.take(end - 1));
            end = end - 1;
        }
        assert(trim_trailing_spaces(kept@.take(end as int)) == kept@.take(end as int));
        let mut name = String::new();
        let mut j: usize = 0;
        while j < end
            invariant
                j <= end <= kept@.len(),
                name@ == kept@.take(j as int).map_values(|b: u8| b as char),
            decreases end - j,
        {
            name.push(kept[j] as char);
            assert(kept@.take(j + 1).map_values(|b: u8| b as char) =~= kept@.take(
                j as int,
            ).map_values(|b: u8| b as char).push(kept@[j as int] as char));
            j = j + 1;
        }
        assert(name@ =~= name_of(w));
        let (speed, mode) = split_byte(full_bytes[37]);
        if speed % 2 == 1 {
            score = score + VALID_SPEED_INDICATION;
        }
        let is_fast = speed / 2 % 2 == 1;
        let rom_type = match RomType::from_byte(mode) {
            Some(t) => t,
            None => {
                return None;
            },
        };
        let (coprocessor, chips) = split_byte(full_bytes[38]);
        let rom_size = size_from_code(full_bytes[39]);
        let ram_size = size_from_code(full_bytes[40]);
        let country = full_bytes[41];
        if country <= 20 {
            score = score + KNOWN_COUNTRY;
        }
        let developer_id = full_bytes[42];
        let version = full_bytes[43];
        let checksum_complement = full_bytes[44] as u16 + (full_bytes[45] as u16) * 256;
        let checksum = full_bytes[46] as u16 + (full_bytes[47] as u16) * 256;
        if checksum_complement as u32 + checksum as u32 == 0xffff {
            score = score + VALID_CHECKSUM_COMPLEMENT;
        }
        let extended = if developer_id == EXTENDED_DEVELOPER {
            let maker = [full_bytes[0], full_bytes[1]];
            let game = [full_bytes[2], full_bytes[3], full_bytes[4], full_bytes[5]];
            assert(maker@ =~= w.subrange(0, 2));
            assert(game@ =~= w.subrange(2, 6));
            OptExtendedHeader::Later {
                subtype: full_bytes[15],
                header: ExtendedHeader {
                    maker,
                    game,
                    flash_size: size_from_code(full_bytes[12]),
                    ram_size: size_from_code(full_bytes[13]),
                    special_version: full_bytes[14],
                },
            }
        } else if full_bytes[36] == 0 {
            OptExtendedHeader::Old { subtype: full_bytes[15] }
        } else {
            OptExtendedHeader::Absent
        };
        let header = Header {
            name,
            speed,
            rom_type,
            extended,
            is_fast,
            coprocessor,
            chips,
            rom_size,
            ram_size,
            country,
            developer_id,
            version,
            checksum_complement,
            checksum,
        };
        Some((header, score))
    }
}

} // verus!
