//! The header at the start of the shared region.
//!
//! The header is `LAYOUT_SIZE` bytes long, in the native byte order of the
//! machine that both host and worker run on:
//!
//! | bytes   | field                                       |
//! |---------|---------------------------------------------|
//! | 0..4    | magic number, `MAGIC`                       |
//! | 4..8    | layout version, `VERSION`                   |
//! | 8..16   | size of each channel's ring                 |
//! | 16..40  | host-to-worker channel: offset, write, read |
//! | 40..64  | worker-to-host channel: offset, write, read |
//!
//! The bytes after the header are the payload, in which the two rings lie.
//! The program that maps the region reads the header's words in native
//! order and hands them to this module as values.
use vstd::prelude::*;
use vstd::slice::slice_subrange;

verus! {

/// Magic number that opens a region of this layout.
pub const MAGIC: u32 = 0x95abe799;

/// Version of the layout.
pub const VERSION: u32 = 1;

/// Size of the header in bytes.
pub const LAYOUT_SIZE: usize = 64;

/// Offset of the host-to-worker channel's control words in the header.
pub const HOST_TO_WORKER_AT: usize = 16;

/// Offset of the worker-to-host channel's control words in the header.
pub const WORKER_TO_HOST_AT: usize = 40;

/// The fields of the header that are written once, when the host sets the
/// region up.
pub struct LayoutHeader {
    pub magic: u32,
    pub version: u32,
    pub channel_size: u64,
}

/// A header whose magic number or version this library does not know.
pub struct UnsupportedLayout {
    pub magic: u32,
    pub version: u32,
}

/// The lower-case hexadecimal digit of `d`, below 16.
pub open spec fn hex_digit(d: nat) -> char {
    if d < 10 {
        (48 + d) as char
    } else {
        (87 + d) as char
    }
}

/// The lower-case hexadecimal digits of `n`, without leading zeros.
pub open spec fn hex_digits(n: nat) -> Seq<char>
    decreases n,
{
    if n < 16 {
        seq![hex_digit(n)]
    } else {
        hex_digits(n / 16).push(hex_digit(n % 16))
    }
}

/// `n` as `format!("{:#08x}", n)` writes it: `0x`, then its hexadecimal
/// digits, padded with zeros to six digits.
pub open spec fn hex08(n: nat) -> Seq<char> {
    let digits = hex_digits(n);
    let pad = if digits.len() < 6 {
        Seq::new((6 - digits.len()) as nat, |i: int| '0')
    } else {
        Seq::empty()
    };
    seq!['0', 'x'] + pad + digits
}

/// The text of the error that reports an unsupported layout.
pub open spec fn unsupported_layout_text(magic: u32, version: u32) -> Seq<char> {
    "Unsupported layout: magic = "@ + hex08(magic as nat) + ", version = "@ + hex08(version as nat)
}

/// Formats the report of an unsupported layout with `format!`, whose
/// `{:#08x}` writes each number as `hex08` spells it out.
#[verifier::external_body]
fn format_unsupported_layout(magic: u32, version: u32) -> (text: String)
    ensures
        text@ == unsupported_layout_text(magic, version),
{
    format!("Unsupported layout: magic = {:#08x}, version = {:#08x}", magic, version)
}

impl UnsupportedLayout {
    /// The error's text, naming the magic number and the version found.
    pub fn message(&self) -> (text: String)
        ensures
            text@ == unsupported_layout_text(self.magic, self.version),
    {
        format_unsupported_layout(self.magic, self.version)
    }
}

impl LayoutHeader {
    /// Whether the header carries this layout's magic number and version.
    pub fn verify(&self) -> (ok: bool)
        ensures
            ok == (self.magic == MAGIC && self.version == VERSION),
    {
        self.magic == MAGIC && self.version == VERSION
    }
}

/// Checks the header of a freshly mapped region, its words read in native
/// order: the header itself where the magic number and the version are this
/// layout's, else the error that names them.
pub fn check_layout(header: LayoutHeader) -> (r: Result<LayoutHeader, UnsupportedLayout>)
    ensures
        header.magic == MAGIC && header.version == VERSION ==> r == Ok::<
            LayoutHeader,
            UnsupportedLayout,
        >(header),
        !(header.magic == MAGIC && header.version == VERSION) ==> r == Err::<
            LayoutHeader,
            UnsupportedLayout,
        >(UnsupportedLayout { magic: header.magic, version: header.version }),
{
    if header.verify() {
        Ok(header)
    } else {
        Err(UnsupportedLayout { magic: header.magic, version: header.version })
    }
}

/// The payload: the bytes of the region after the header.
pub fn payload(region: &[u8]) -> (p: &[u8])
    requires
        region@.len() >= LAYOUT_SIZE,
    ensures
        p@ == region@.subrange(LAYOUT_SIZE as int, region@.len() as int),
{
    slice_subrange(region, LAYOUT_SIZE, region.len())
}

} // verus!
