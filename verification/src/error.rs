use vstd::prelude::*;
use embassy_rp::spi::Error as SpiError;
use embedded_sdmmc::SdCardError;

verus! {

/// An error carrying a static description of what went wrong.
#[derive(Debug)]
pub struct Error {
    inner: &'static str,
}

impl View for Error {
    type V = Seq<char>;

    /// The description.
    closed spec fn view(&self) -> Seq<char> {
        self.inner@
    }
}

impl Error {
    /// An error with the given description.
    pub fn new(reason: &'static str) -> (e: Self)
        ensures
            e@ == reason@,
    {
        Self { inner: reason }
    }

    /// The description, as the error prints itself.
    pub fn message(&self) -> (m: &'static str)
        ensures
            m@ == self@,
    {
        self.inner
    }
}

/// `SpiError`, which `From` below turns into an `Error`.
#[verifier::external_type_specification]
#[verifier::external_body]
pub struct ExSpiError(SpiError);

/// `SdCardError`, which `From` below turns into an `Error`.
#[verifier::external_type_specification]
#[verifier::external_body]
pub struct ExSdCardError(SdCardError);

impl From<SpiError> for Error {
    /// Any SPI error is reported as "SPI Error".
    fn from(_e: SpiError) -> (r: Self)
        ensures
            r@ == "SPI Error"@,
    {
        Self { inner: "SPI Error" }
    }
}

impl vstd::std_specs::convert::FromSpecImpl<SpiError> for Error {
    open spec fn obeys_from_spec() -> bool {
        true
    }

    closed spec fn from_spec(v: SpiError) -> Self {
        Self { inner: "SPI Error" }
    }
}

impl From<SdCardError> for Error {
    /// Any SD card error is reported as "SD Card Error".
    fn from(_e: SdCardError) -> (r: Self)
        ensures
            r@ == "SD Card Error"@,
    {
        Self { inner: "SD Card Error" }
    }
}

impl vstd::std_specs::convert::FromSpecImpl<SdCardError> for Error {
    open spec fn obeys_from_spec() -> bool {
        true
    }

    closed spec fn from_spec(v: SdCardError) -> Self {
        Self { inner: "SD Card Error" }
    }
}

} // verus!
