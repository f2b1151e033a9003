use vstd::prelude::*;
use crate::error::Error;

verus! {

/// Where the program partition starts in the address space.
pub const PROGRAM_ADDRESS: u32 = 0x1008_0000;

/// Size of the program partition in bytes.
pub const PROGRAM_LENGTH: u32 = 0x13_E000;

/// Offset of the program partition from the start of flash.
pub const PROGRAM_OFFSET: u32 = PROGRAM_ADDRESS - 0x1000_0000;

/// The value in watchdog scratch register 0 that asks the next boot to jump
/// into the program partition.
pub const BOOT_PROGRAM_MAGIC: u32 = 0x0550_1EAD;

/// What the firmware does when it starts, by what it finds in watchdog
/// scratch register 0.
pub enum StartUp {
    /// Clear the register and jump into the program partition.
    BootProgram,
    /// Bring up the hardware and load `program.bin` into the program
    /// partition.
    LoadProgram,
}

/// The start-up path for the value in the scratch register: the program
/// is booted exactly when the register holds the boot magic.
pub open spec fn start_up_path(scratch: u32) -> StartUp {
    if scratch == BOOT_PROGRAM_MAGIC {
        StartUp::BootProgram
    } else {
        StartUp::LoadProgram
    }
}

/// What the scratch register is set to before the jump into the program.
pub const SCRATCH_CLEARED: u32 = 0;

/// What the firmware does when it starts.
pub fn start_up(scratch: u32) -> (s: StartUp)
    ensures
        s == start_up_path(scratch),
{
    if scratch == BOOT_PROGRAM_MAGIC {
        StartUp::BootProgram
    } else {
        StartUp::LoadProgram
    }
}

/// The value to leave in the scratch register after an attempt to load the
/// program: the boot magic, followed by a reset, when it loaded; nothing
/// (the register and the board stay as they are) when it failed.
pub open spec fn scratch_after(loaded: bool) -> Option<u32> {
    if loaded {
        Some(BOOT_PROGRAM_MAGIC)
    } else {
        None
    }
}

/// What to write to the scratch register after the load: `Some` of the
/// boot magic when it loaded, after which the board resets; `None` when it
/// failed.
pub fn scratch_after_load<T>(r: &Result<T, Error>) -> (v: Option<u32>)
    ensures
        v == scratch_after(r is Ok),
{
    match r {
        Ok(_) => Some(BOOT_PROGRAM_MAGIC),
        Err(_) => None,
    }
}

/// A start boots the program exactly when the load before it succeeded,
/// and only once: the boot clears the register, so the start after it
/// loads again.
pub proof fn lemma_boot_follows_load(loaded: bool)
    ensures
        scratch_after(loaded) is Some <==> loaded,
        scratch_after(loaded) matches Some(v) ==> start_up_path(v) == StartUp::BootProgram,
        start_up_path(SCRATCH_CLEARED) == StartUp::LoadProgram,
{
}

/// Size of a flash erase sector (`embassy_rp::flash::ERASE_SIZE`).
pub const ERASE_SIZE: u32 = 4096;

/// `size` rounded up to a whole number of erase sectors.
pub open spec fn erase_span(size: int) -> int {
    (size + ERASE_SIZE - 1) / (ERASE_SIZE as int) * ERASE_SIZE
}

/// How many bytes of flash to erase before writing a program of `size`
/// bytes: `size` rounded up to whole erase sectors. Fails for an empty
/// program and for one that does not fit the program partition.
pub fn program_erase_length(size: u32) -> (r: Result<u32, Error>)
    requires
        size + ERASE_SIZE - 1 <= u32::MAX,
    ensures
        size == 0 ==> r is Err && r->Err_0@ == "target is empty"@,
        size != 0 && erase_span(size as int) > PROGRAM_LENGTH ==> r is Err && r->Err_0@
            == "target too large for PROGRAM partition"@,
        size != 0 && erase_span(size as int) <= PROGRAM_LENGTH ==> r == Ok::<u32, Error>(
            erase_span(size as int) as u32,
        ),
{
    if size == 0 {
        return Err(Error::new("target is empty"));
    }
    let sum: u32 = size + (ERASE_SIZE - 1);
    let erase_len: u32 = sum & !(ERASE_SIZE - 1);
    assert(sum & !(4095u32) == (sum / 4096) * 4096) by (bit_vector);
    if erase_len > PROGRAM_LENGTH {
        return Err(Error::new("target too large for PROGRAM partition"));
    }
    Ok(erase_len)
}

/// The erase length is whole sectors, covers the program, and wastes less
/// than one sector.
pub proof fn lemma_erase_span_bounds(size: int)
    requires
        size >= 0,
    ensures
        erase_span(size) % (ERASE_SIZE as int) == 0,
        size <= erase_span(size) < size + ERASE_SIZE,
{
    let q = (size + ERASE_SIZE - 1) / (ERASE_SIZE as int);
    assert(erase_span(size) == q * 4096);
    assert((q * 4096) % 4096 == 0) by (nonlinear_arith);
    assert(q * 4096 <= size + 4095 < q * 4096 + 4096) by (nonlinear_arith)
        requires
            q == (size + 4095) / 4096,
            size >= 0,
    ;
}

} // verus!
