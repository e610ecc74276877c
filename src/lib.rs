use vstd::prelude::*;

pub mod page;
pub mod parse;

verus! {

/// `std::io::Error` is carried through opaquely inside [`Error::FileIO`].
#[verifier::external_type_specification]
#[verifier::external_body]
pub struct ExIoError(std::io::Error);

/// Errors reported while reading pages or decoding their headers.
#[derive(Debug)]
pub enum Error {
    /// Opening, seeking in or reading the database file failed.
    FileIO(std::io::Error),
    /// A page-type byte outside the four known codes.
    PageType(u8),
    /// A structure could not be decoded; the tag names the decoder.
    Nom(&'static str),
}

} // verus!
