//! Properties that relate several calls of the accessor.

use vstd::prelude::*;
use crate::access::{lemma_wrap_in_bounds, wrap_index, Addr24, Read, Slot, Write};
use crate::cartridge::{access_result, dump_of, loaded_from, usable, window_at, wins, Cartridge};
use crate::header::{lemma_printable_len, checksum_of, describes, complement_of, header_score, speed_of, title_bytes};

verus! {

/// Writing a byte at an address the cartridge answers, then reading that same
/// address, gives back the byte written.
pub proof fn lemma_write_then_read(
    c0: Cartridge,
    addr: Addr24,
    value: u8,
    c1: Cartridge,
    written: Option<()>,
    c2: Cartridge,
    read: Option<u8>,
)
    requires
        c0.wf(),
        access_result(c0, Write(value), addr, c1, written),
        access_result(c1, Read, addr, c2, read),
        written is Some,
    ensures
        read == Some(value),
{
    assert(c1.wf());
    assert(c1.ram_bytes().len() == c0.ram_bytes().len());
    assert(c1.rom_bytes().len() == c0.rom_bytes().len());
    assert(c1.served_slot(addr) == c0.served_slot(addr));
    match c0.served_slot(addr) {
        Some(Slot::Ram(raw)) => {
            let at = wrap_index(raw, c0.ram_bytes().len());
            assert(c1.ram_bytes() == c0.ram_bytes().update(at, value));
            assert(0 <= at < c0.ram_bytes().len()) by {
                lemma_wrap_in_bounds(raw, c0.ram_bytes().len());
            }
            assert(c1.ram_bytes()[at] == value);
        },
        Some(Slot::Rom(raw)) => {
            let at = wrap_index(raw, c0.rom_bytes().len());
            assert(c1.rom_bytes() == c0.rom_bytes().update(at, value));
            assert(0 <= at < c0.rom_bytes().len()) by {
                lemma_wrap_in_bounds(raw, c0.rom_bytes().len());
            }
            assert(c1.rom_bytes()[at] == value);
        },
        None => {},
    }
}

/// Of two header candidates at the two 32 KiB-mode offsets that differ in score
/// only by the checksum check, the one whose stored complement agrees with its
/// checksum is selected, whichever of the two is tried first.
pub proof fn lemma_valid_complement_selected(bytes: Seq<u8>, c: Cartridge, a: int, b: int)
    requires
        loaded_from(bytes, c),
        (a == 0 && b == 1) || (a == 1 && b == 0),
        usable(dump_of(bytes), a),
        usable(dump_of(bytes), b),
        !usable(dump_of(bytes), 2),
        title_bytes(window_at(dump_of(bytes), a)) == title_bytes(window_at(dump_of(bytes), b)),
        speed_of(window_at(dump_of(bytes), a)) == speed_of(window_at(dump_of(bytes), b)),
        window_at(dump_of(bytes), a)[41] == window_at(dump_of(bytes), b)[41],
        complement_of(window_at(dump_of(bytes), a)) + checksum_of(window_at(dump_of(bytes), a))
            == 0xffff,
        complement_of(window_at(dump_of(bytes), b)) + checksum_of(window_at(dump_of(bytes), b))
            != 0xffff,
    ensures
        c.lorom_mode(),
        describes(window_at(dump_of(bytes), a), c.spec_header()),
{
    let d = dump_of(bytes);
    lemma_printable_len(title_bytes(window_at(d, a)));
    assert(header_score(window_at(d, a)) == header_score(window_at(d, b)) + 32);
    let i = choose|i: int|
        wins(d, i) && describes(window_at(d, i), c.spec_header()) && c.lorom_mode() == (i < 2);
    assert(i == a);
}

} // verus!
