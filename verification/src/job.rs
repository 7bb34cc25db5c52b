//! Assembling a render job from the caller's raw arguments.

use vstd::prelude::*;

use crate::address::{
    addrs_view, decode_address, decode_addresses, spec_decode_address, spec_decode_addresses,
    Address, AddressV, DecodeError,
};
use crate::num::{parse_u32, spec_parse_u32};

verus! {

/// Page width used when none is given, in millimeters.
pub const DEFAULT_WIDTH_MM: u32 = 162;

/// Page height used when none is given, in millimeters.
pub const DEFAULT_HEIGHT_MM: u32 = 114;

/// Output path used when none is given.
pub open spec fn default_output() -> Seq<char> {
    "addresses.pdf"@
}

/// One render request: the sender, the recipients in output order, the page
/// size in millimeters, and the output path.
pub struct Job {
    pub sender_address: Address,
    pub addresses: Vec<Address>,
    pub width: u32,
    pub height: u32,
    pub output: String,
}

/// Model of a [`Job`].
pub struct JobV {
    pub sender_address: AddressV,
    pub addresses: Seq<AddressV>,
    pub width: u32,
    pub height: u32,
    pub output: Seq<char>,
}

impl View for Job {
    type V = JobV;

    open spec fn view(&self) -> JobV {
        JobV {
            sender_address: self.sender_address@,
            addresses: addrs_view(self.addresses@),
            width: self.width,
            height: self.height,
            output: self.output@,
        }
    }
}

/// Why a job could not be assembled.
#[derive(Clone, Copy, PartialEq, Eq, Structural, Debug)]
pub enum Error {
    /// The width is not an unsigned decimal integer.
    InvalidWidth,
    /// The height is not an unsigned decimal integer.
    InvalidHeight,
    /// The sender payload does not decode to an address.
    Sender(DecodeError),
    /// The recipients payload does not decode to an address array.
    Recipients(DecodeError),
}

/// The page dimension denoted by an optional argument: the given value parsed
/// as a decimal integer, or the default.
pub open spec fn spec_dim(d: Option<&str>, default: u32) -> Option<u32> {
    match d {
        Some(t) => spec_parse_u32(t@),
        None => Some(default),
    }
}

/// Assembles the render job: parses the page dimensions (defaulting to
/// 162 mm x 114 mm), decodes the sender address and the recipient array, and
/// fills in the output path (defaulting to `addresses.pdf`). On failure the
/// first error in that order is returned: width, sender, height, recipients.
pub fn build_job(
    input: &str,
    sender: &str,
    output: Option<String>,
    width: Option<&str>,
    height: Option<&str>,
) -> (r: Result<Job, Error>)
    ensures
        match r {
            Ok(j) => {
                &&& spec_dim(width, DEFAULT_WIDTH_MM) == Some(j.width)
                &&& spec_dim(height, DEFAULT_HEIGHT_MM) == Some(j.height)
                &&& spec_decode_address(sender@) == Ok::<AddressV, DecodeError>(j@.sender_address)
                &&& spec_decode_addresses(input@) == Ok::<Seq<AddressV>, DecodeError>(j@.addresses)
                &&& j@.output == match output {
                    Some(o) => o@,
                    None => default_output(),
                }
            },
            Err(e) => match e {
                Error::InvalidWidth => spec_dim(width, DEFAULT_WIDTH_MM) is None,
                Error::Sender(de) => spec_dim(width, DEFAULT_WIDTH_MM) is Some
                    && spec_decode_address(sender@) == Err::<AddressV, DecodeError>(de),
                Error::InvalidHeight => spec_dim(width, DEFAULT_WIDTH_MM) is Some
                    && spec_decode_address(sender@) is Ok && spec_dim(
                    height,
                    DEFAULT_HEIGHT_MM,
                ) is None,
                Error::Recipients(de) => spec_dim(width, DEFAULT_WIDTH_MM) is Some
                    && spec_decode_address(sender@) is Ok && spec_dim(
                    height,
                    DEFAULT_HEIGHT_MM,
                ) is Some && spec_decode_addresses(input@) == Err::<Seq<AddressV>, DecodeError>(de),
            },
        },
{
    let width_mm = match width {
        Some(w) => match parse_u32(w) {
            Some(x) => x,
            None => {
                return Err(Error::InvalidWidth);
            },
        },
        None => DEFAULT_WIDTH_MM,
    };
    let sender_address = match decode_address(sender) {
        Ok(a) => a,
        Err(e) => {
            return Err(Error::Sender(e));
        },
    };
    let height_mm = match height {
        Some(h) => match parse_u32(h) {
            Some(x) => x,
            None => {
                return Err(Error::InvalidHeight);
            },
        },
        None => DEFAULT_HEIGHT_MM,
    };
    let addresses = match decode_addresses(input) {
        Ok(a) => a,
        Err(e) => {
            return Err(Error::Recipients(e));
        },
    };
    let output_path = match output {
        Some(o) => o,
        None => "addresses.pdf".to_owned(),
    };
    Ok(
        Job {
            sender_address,
            addresses,
            width: width_mm,
            height: height_mm,
            output: output_path,
        },
    )
}

} // verus!
