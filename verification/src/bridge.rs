use vstd::prelude::*;
use crate::colour::{packed_rgb, rgb};

verus! {

/// The highest brightness level the C LED driver takes.
pub const MAX_LEVEL: u32 = 100;

/// The PWM value of full brightness in the C LED driver.
pub const MAX_BRIGHTNESS: u32 = 8192;

/// Width of the C driver's frame in pixels.
pub const FRAME_WIDTH: u32 = 160;

/// Height of the C driver's frame in pixels.
pub const FRAME_HEIGHT: u32 = 128;

/// Number of pixels in the C driver's frame.
pub const FRAME_SIZE: u32 = FRAME_WIDTH * FRAME_HEIGHT;

/// The LEDs that the C driver can open.
#[allow(non_camel_case_types)]
pub enum LED_TYPE {
    PICO,
    STATUS,
    NETWORK,
}

impl LED_TYPE {
    /// The GPIO pin of the LED: 0, 28 and 4.
    pub open spec fn spec_pin(self) -> u32 {
        match self {
            LED_TYPE::PICO => 0,
            LED_TYPE::STATUS => 28,
            LED_TYPE::NETWORK => 4,
        }
    }

    /// The GPIO pin of the LED, which is the value the C driver receives.
    pub fn pin(&self) -> (p: u32)
        ensures
            p == self.spec_pin(),
    {
        match self {
            LED_TYPE::PICO => 0,
            LED_TYPE::STATUS => 28,
            LED_TYPE::NETWORK => 4,
        }
    }
}

/// An LED handle of the C driver; it is only ever seen behind a pointer.
pub struct LED {
    _private: [u8; 0],
}

/// The file open modes of the C storage driver (FatFs).
#[allow(non_camel_case_types)]
pub enum FMODE {
    FA_READ,
    FA_WRITE,
    FA_OPEN_EXISTING,
    FA_CREATE_NEW,
    FA_CREATE_ALWAYS,
    FA_OPEN_ALWAYS,
    FA_OPEN_APPEND,
}

impl FMODE {
    /// The mode flags: 0x01, 0x02, 0x00, 0x04, 0x08, 0x10 and 0x30.
    pub open spec fn spec_bits(self) -> u8 {
        match self {
            FMODE::FA_READ => 0x01,
            FMODE::FA_WRITE => 0x02,
            FMODE::FA_OPEN_EXISTING => 0x00,
            FMODE::FA_CREATE_NEW => 0x04,
            FMODE::FA_CREATE_ALWAYS => 0x08,
            FMODE::FA_OPEN_ALWAYS => 0x10,
            FMODE::FA_OPEN_APPEND => 0x30,
        }
    }

    /// The mode flags, which are the value the C driver receives.
    pub fn bits(&self) -> (b: u8)
        ensures
            b == self.spec_bits(),
    {
        match self {
            FMODE::FA_READ => 0x01,
            FMODE::FA_WRITE => 0x02,
            FMODE::FA_OPEN_EXISTING => 0x00,
            FMODE::FA_CREATE_NEW => 0x04,
            FMODE::FA_CREATE_ALWAYS => 0x08,
            FMODE::FA_OPEN_ALWAYS => 0x10,
            FMODE::FA_OPEN_APPEND => 0x30,
        }
    }
}

/// The result codes of the C storage driver (FatFs), numbered 0 onwards in
/// this order.
#[allow(non_camel_case_types)]
pub enum FRESULT {
    FR_OK,
    FR_DISK_ERR,
    FR_INT_ERR,
    FR_NOT_READY,
    FR_NO_FILE,
    FR_NO_PATH,
    FR_INVALID_NAME,
    FR_DENIED,
    FR_EXIST,
    FR_INVALID_OBJECT,
    FR_WRITE_PROTECTED,
    FR_INVALID_DRIVE,
    FR_NOT_ENABLED,
    FR_NO_FILESYSTEM,
    FR_MKFS_ABORTED,
    FR_TIMEOUT,
    FR_LOCKED,
    FR_NOT_ENOUGH_CORE,
    FR_TOO_MANY_OPEN_FILES,
    FR_INVALID_PARAMETER,
}

/// A file handle of the C storage driver; it is only ever seen behind a
/// pointer.
pub struct FIL {
    _private: [u8; 0],
}

/// Packs an 8-bit-per-channel colour for the C screen driver, as `rgb`
/// does.
#[allow(non_snake_case)]
pub fn RGB(r: u8, g: u8, b: u8) -> (packed: u16)
    ensures
        packed == packed_rgb(r, g, b),
{
    rgb(r, g, b)
}

} // verus!
