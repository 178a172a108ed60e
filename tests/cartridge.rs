use snesulate::cartridge::{select_header, MINIMUM_SIZE};
use snesulate::header::split_byte;
use snesulate::{
    Addr24, Cartridge, Header, OptExtendedHeader, Read, ReadRomError, RomType, Write,
};

/// An 80-byte header window with the given fields.
fn window(title: &[u8], map: u8, rom_code: u8, ram_code: u8, country: u8, valid_pair: bool) -> Vec<u8> {
    let mut w = vec![0u8; 80];
    for i in 0..21 {
        w[16 + i] = if i < title.len() { title[i] } else { b' ' };
    }
    w[37] = map;
    w[38] = 0x12;
    w[39] = rom_code;
    w[40] = ram_code;
    w[41] = country;
    w[42] = 0x01;
    w[43] = 0x02;
    let checksum: u16 = 0x1234;
    let complement: u16 = if valid_pair { !checksum } else { 0x0000 };
    w[44] = (complement & 0xff) as u8;
    w[45] = (complement >> 8) as u8;
    w[46] = (checksum & 0xff) as u8;
    w[47] = (checksum >> 8) as u8;
    w
}

/// A dump of `len` bytes, byte `i` being `i * 7 + 3` truncated, with `w` written at `at`.
fn dump_with(len: usize, at: usize, w: &[u8]) -> Vec<u8> {
    let mut d: Vec<u8> = (0..len).map(|i| (i.wrapping_mul(7).wrapping_add(3)) as u8).collect();
    d[at..at + 80].copy_from_slice(w);
    d
}

fn lorom_dump() -> Vec<u8> {
    dump_with(0x8000, 0x7fb0, &window(b"LOROM GAME", 0x20, 5, 1, 1, true))
}

fn read(c: &mut Cartridge, bank: u8, addr: u16) -> Option<u8> {
    c.access(Read, Addr24 { bank, addr })
}

#[test]
fn too_small_reports_length() {
    for len in [0usize, 1, 512, 1024, 32767] {
        let r = Cartridge::from_bytes(&vec![0u8; len]);
        assert!(matches!(r, Err(ReadRomError::TooSmall(n)) if n == len));
    }
}

#[test]
fn unaligned_length_is_refused() {
    for len in [32769usize, 33000, 0x10000 + 100] {
        let r = Cartridge::from_bytes(&vec![0u8; len]);
        assert!(matches!(r, Err(ReadRomError::AlignError(n)) if n == len));
    }
}

#[test]
fn no_decodable_header() {
    let r = Cartridge::from_bytes(&vec![0xffu8; 0x8000]);
    assert!(matches!(r, Err(ReadRomError::NoSuitableHeader)));
}

#[test]
fn copier_header_is_skipped() {
    let body = lorom_dump();
    let mut bytes = vec![0xeeu8; 512];
    bytes.extend_from_slice(&body);
    assert_eq!(bytes.len(), 33280);
    let mut c = Cartridge::from_bytes(&bytes).unwrap();
    assert_eq!(c.header().name, "LOROM GAME");
    assert_eq!(c.rom_len(), 0x8000);
    assert_eq!(read(&mut c, 0x00, 0x8000), Some(body[0]));
    assert_eq!(read(&mut c, 0x00, 0x8001), Some(body[1]));
    assert_eq!(read(&mut c, 0x00, 0xffff), Some(body[0x7fff]));
}

#[test]
fn aligned_dump_keeps_first_bytes() {
    let body = lorom_dump();
    let mut c = Cartridge::from_bytes(&body).unwrap();
    assert!(c.is_lorom());
    assert_eq!(read(&mut c, 0x00, 0x8000), Some(body[0]));
}

#[test]
fn valid_complement_wins_when_second() {
    let b = window(b"CANDIDATE", 0x20, 6, 1, 1, false);
    let a = window(b"CANDIDATE", 0x21, 6, 1, 1, true);
    let mut d = dump_with(0x10000, 0x7fb0, &b);
    d[0xffb0..0x10000].copy_from_slice(&a);
    let c = Cartridge::from_bytes(&d).unwrap();
    assert!(c.is_lorom());
    assert_eq!(c.header().rom_type, RomType::HiRom);
}

#[test]
fn header_at_second_offset_selects_32k_mode() {
    let mut d = dump_with(0x10000, 0xffb0, &window(b"SECOND", 0x21, 6, 1, 1, true));
    d[0x7fb0 + 37] = 0x2f;
    let mut c = Cartridge::from_bytes(&d).unwrap();
    assert!(c.is_lorom());
    assert_eq!(c.header().name, "SECOND");
    // the 32 KiB-bank table: bank 0x00 below 0x8000 is unmapped
    assert_eq!(read(&mut c, 0x00, 0x7fff), None);
    assert_eq!(read(&mut c, 0x01, 0x8000), Some(d[0x8000]));
}

#[test]
fn valid_complement_wins_when_first() {
    let a = window(b"CANDIDATE", 0x20, 6, 1, 1, true);
    let b = window(b"CANDIDATE", 0x21, 6, 1, 1, false);
    let mut d = dump_with(0x10000, 0x7fb0, &a);
    d[0xffb0..0x10000].copy_from_slice(&b);
    let c = Cartridge::from_bytes(&d).unwrap();
    assert!(c.is_lorom());
    assert_eq!(c.header().rom_type, RomType::LoRom);
}

#[test]
fn equal_scores_keep_first_candidate() {
    let a = window(b"SAME", 0x20, 6, 1, 1, true);
    let b = window(b"SAME", 0x21, 6, 1, 1, true);
    let mut d = dump_with(0x10000, 0x7fb0, &a);
    d[0xffb0..0x10000].copy_from_slice(&b);
    let (h, score, lorom) = select_header(&d).unwrap();
    assert!(lorom);
    assert_eq!(h.rom_type, RomType::LoRom);
    assert_eq!(score, 2 * 21 + 10 + 32);
}

#[test]
fn short_dump_is_tiled() {
    let d = dump_with(0x8000, 0x7fb0, &window(b"TILED", 0x20, 7, 1, 1, true));
    let mut c = Cartridge::from_bytes(&d).unwrap();
    assert_eq!(c.header().rom_size, 0x20000);
    assert_eq!(c.rom_len(), 0x20000);
    for bank in 0u8..4 {
        for off in [0x8000u16, 0x8123, 0xfffe, 0xffff] {
            let k = (bank as usize) * 0x8000 + (off as usize & 0x7fff);
            assert_eq!(read(&mut c, bank, off), Some(d[k % d.len()]));
        }
    }
    // bank 4 wraps to the start of the 128 KiB buffer
    assert_eq!(read(&mut c, 0x04, 0x8000), Some(d[0]));
}

#[test]
fn lorom_low_half_of_bank_zero_is_unmapped() {
    let d = lorom_dump();
    let mut c = Cartridge::from_bytes(&d).unwrap();
    assert_eq!(read(&mut c, 0x00, 0x7fff), None);
    assert_eq!(read(&mut c, 0x3f, 0x0000), None);
    assert_eq!(read(&mut c, 0x00, 0x8000), Some(d[0]));
    assert_eq!(read(&mut c, 0x40, 0x0000), Some(d[0]));
}

#[test]
fn lorom_ram_bank_and_rom_precedence() {
    let d = lorom_dump();
    let mut c = Cartridge::from_bytes(&d).unwrap();
    assert_eq!(c.ram_len(), 0x800);
    assert_eq!(c.access(Write(0x5a), Addr24 { bank: 0x70, addr: 0x0000 }), Some(()));
    assert_eq!(read(&mut c, 0x70, 0x0000), Some(0x5a));
    // a 2 KiB RAM repeats every 0x800 bytes
    assert_eq!(read(&mut c, 0x70, 0x0800), Some(0x5a));
    assert_eq!(read(&mut c, 0xf0, 0x0000), Some(0x5a));
    // offset 0x9000 in bank 0x7e reaches ROM: index (0x7e << 15 | 0x1000) & 0x7fff
    assert_eq!(read(&mut c, 0x7e, 0x9000), Some(d[0x1000]));
    assert_eq!(read(&mut c, 0x7d, 0x8000), Some(d[0]));
    // bank 0x7e below 0x8000 is ROM as well, bank >= 0x40
    assert_eq!(read(&mut c, 0x7e, 0x0010), Some(d[0x10]));
}

#[test]
fn write_then_read_ram() {
    let mut c = Cartridge::from_bytes(&lorom_dump()).unwrap();
    for (i, addr) in [0x0000u16, 0x0010, 0x07ff, 0x7fff].iter().enumerate() {
        let v = 0x10 + i as u8;
        assert_eq!(c.access(Write(v), Addr24 { bank: 0x71, addr: *addr }), Some(()));
        assert_eq!(read(&mut c, 0x71, *addr), Some(v));
    }
}

#[test]
fn write_to_unmapped_address_changes_nothing() {
    let d = lorom_dump();
    let mut c = Cartridge::from_bytes(&d).unwrap();
    assert_eq!(c.access(Write(0x77), Addr24 { bank: 0x00, addr: 0x1000 }), None);
    assert_eq!(read(&mut c, 0x70, 0x1000), Some(0));
}

#[test]
fn zero_ram_is_unmapped() {
    let d = dump_with(0x8000, 0x7fb0, &window(b"NO RAM", 0x20, 5, 22, 1, true));
    let mut c = Cartridge::from_bytes(&d).unwrap();
    assert_eq!(c.header().ram_size, 0);
    assert_eq!(c.ram_len(), 0);
    assert_eq!(read(&mut c, 0x70, 0x0000), None);
    assert_eq!(c.access(Write(1), Addr24 { bank: 0x70, addr: 0 }), None);
}

fn hirom_dump() -> Vec<u8> {
    let mut d = dump_with(0x410000, 0x40ffb0, &window(b"HIROM GAME", 0x31, 6, 3, 1, true));
    // make both 32 KiB-mode candidates undecodable
    d[0x7fb0 + 37] = 0x2f;
    d[0xffb0 + 37] = 0x2f;
    d
}

#[test]
fn hirom_decode_table() {
    let d = hirom_dump();
    let mut c = Cartridge::from_bytes(&d).unwrap();
    assert!(!c.is_lorom());
    assert_eq!(c.header().name, "HIROM GAME");
    assert_eq!(c.rom_len(), 0x410000);
    assert_eq!(c.ram_len(), 0x2000);
    assert_eq!(read(&mut c, 0x00, 0x5fff), None);
    assert_eq!(read(&mut c, 0x00, 0x0000), None);
    assert_eq!(read(&mut c, 0x40, 0x0000), Some(d[0]));
    assert_eq!(read(&mut c, 0x00, 0x8000), Some(d[0x8000]));
    assert_eq!(read(&mut c, 0x80, 0x8001), Some(d[0x8001]));
    assert_eq!(read(&mut c, 0xc0, 0x1234), Some(d[0x1234]));
    assert_eq!(c.access(Write(0x99), Addr24 { bank: 0x00, addr: 0x6000 }), Some(()));
    assert_eq!(read(&mut c, 0x80, 0x6000), Some(0x99));
    assert_eq!(read(&mut c, 0x00, 0x6000), Some(0x99));
    // bank 1 starts 0x2000 further into RAM, which an 8 KiB RAM wraps back to 0
    assert_eq!(read(&mut c, 0x01, 0x6000), Some(0x99));
    assert_eq!(read(&mut c, 0x00, 0x6001), Some(0));
}

#[test]
fn checksum_mismatch_still_loads() {
    let d = lorom_dump();
    let c = Cartridge::from_bytes(&d).unwrap();
    let sum = d.iter().fold(0u16, |a, b| a.wrapping_add(*b as u16));
    assert_eq!(c.computed_checksum(), sum);
    assert_ne!(c.header().checksum, sum);
    assert!(!c.checksum_matches());
}

#[test]
fn matching_checksum_is_reported() {
    let mut d = lorom_dump();
    let w = 0x7fb0 + 44;
    d[w] = 0xff;
    d[w + 1] = 0xff;
    d[w + 2] = 0;
    d[w + 3] = 0;
    let sum = d.iter().fold(0u16, |a, b| a.wrapping_add(*b as u16));
    let comp = !sum;
    d[w] = (comp & 0xff) as u8;
    d[w + 1] = (comp >> 8) as u8;
    d[w + 2] = (sum & 0xff) as u8;
    d[w + 3] = (sum >> 8) as u8;
    let c = Cartridge::from_bytes(&d).unwrap();
    assert_eq!(c.header().checksum, sum);
    assert_eq!(c.computed_checksum(), sum);
    assert!(c.checksum_matches());
}

#[test]
fn header_fields_and_score() {
    let w = window(b"HELLO", 0x30, 8, 3, 1, true);
    let (h, score) = Header::from_bytes(&w).unwrap();
    assert_eq!(h.name, "HELLO");
    assert_eq!(h.speed, 3);
    assert!(h.is_fast);
    assert_eq!(h.rom_type, RomType::LoRom);
    assert_eq!(h.coprocessor, 1);
    assert_eq!(h.chips, 2);
    assert_eq!(h.rom_size, 0x40000);
    assert_eq!(h.ram_size, 0x2000);
    assert_eq!(h.country, 1);
    assert_eq!(h.developer_id, 1);
    assert_eq!(h.version, 2);
    assert_eq!(h.checksum, 0x1234);
    assert_eq!(h.checksum_complement, 0xedcb);
    assert_eq!(score, 42 + 24 + 10 + 32);
    assert!(matches!(h.extended, OptExtendedHeader::Absent));
}

#[test]
fn header_score_without_bonuses() {
    let mut w = window(b"", 0x25, 0, 0, 21, false);
    for i in 16..37 {
        w[i] = 0x01;
    }
    let (h, score) = Header::from_bytes(&w).unwrap();
    assert_eq!(score, 0);
    assert_eq!(h.name, "");
    assert_eq!(h.speed, 2);
    assert!(h.is_fast);
    assert_eq!(h.rom_type, RomType::ExHiRom);
    assert_eq!(h.rom_size, 0x400);
}

#[test]
fn title_drops_unprintable_and_trailing_spaces() {
    let mut w = window(b"A\x00B C", 0x20, 0, 0, 1, false);
    w[16 + 20] = b'~';
    let (h, score) = Header::from_bytes(&w).unwrap();
    assert_eq!(h.name, "AB C               ~");
    assert_eq!(score, 2 * 20 + 10);
    let w2 = window(b"AB  ", 0x20, 0, 0, 1, false);
    let (h2, _) = Header::from_bytes(&w2).unwrap();
    assert_eq!(h2.name, "AB");
}

#[test]
fn unknown_mode_rejects_window() {
    for mode in [4u8, 6, 7, 8, 9, 11, 15] {
        let w = window(b"X", 0x20 | mode, 0, 0, 1, true);
        assert!(Header::from_bytes(&w).is_none());
    }
    assert_eq!(RomType::from_byte(2), Some(RomType::LoRomSDD1));
    assert_eq!(RomType::from_byte(3), Some(RomType::LoRomSA1));
    assert_eq!(RomType::from_byte(10), Some(RomType::HiRomSPC7110));
    assert_eq!(RomType::from_byte(16), None);
}

#[test]
fn size_codes_shift_in_32_bits() {
    let (h, _) = Header::from_bytes(&window(b"S", 0x20, 21, 22, 1, true)).unwrap();
    assert_eq!(h.rom_size, 0x8000_0000);
    assert_eq!(h.ram_size, 0);
    let (h, _) = Header::from_bytes(&window(b"S", 0x20, 32, 33, 1, true)).unwrap();
    assert_eq!(h.rom_size, 0x400);
    assert_eq!(h.ram_size, 0x800);
}

#[test]
fn later_extended_header() {
    let mut w = window(b"EXT", 0x20, 0, 0, 1, true);
    w[42] = 51;
    for i in 0..16 {
        w[i] = 0x40 + i as u8;
    }
    w[12] = 3;
    w[13] = 1;
    let (h, _) = Header::from_bytes(&w).unwrap();
    match h.extended {
        OptExtendedHeader::Later { subtype, header } => {
            assert_eq!(subtype, 0x4f);
            assert_eq!(header.maker, [0x40, 0x41]);
            assert_eq!(header.game, [0x42, 0x43, 0x44, 0x45]);
            assert_eq!(header.flash_size, 0x2000);
            assert_eq!(header.ram_size, 0x800);
            assert_eq!(header.special_version, 0x4e);
        }
        _ => panic!("expected a later extended header"),
    }
}

#[test]
fn old_extended_header() {
    let mut w = window(b"OLD", 0x20, 0, 0, 1, true);
    w[36] = 0;
    w[15] = 0x07;
    let (h, _) = Header::from_bytes(&w).unwrap();
    assert!(matches!(h.extended, OptExtendedHeader::Old { subtype: 7 }));
}

#[test]
fn nibbles() {
    assert_eq!(split_byte(0xa5), (0x0a, 0x05));
    assert_eq!(split_byte(0x00), (0, 0));
    assert_eq!(MINIMUM_SIZE, 0x8000);
}
