use vstd::prelude::*;

use crate::Error;
use crate::parse::{page_header, parse_header};

verus! {

/// The effective page size for the raw 16-bit field at file offset 16.
pub open spec fn effective_page_size(raw: nat) -> nat {
    if raw == 1 {
        65536
    } else {
        raw
    }
}

/// Decode the big-endian page-size field of the file header.
pub fn page_size_from_field(field: [u8; 2]) -> (r: u64)
    ensures
        r == effective_page_size((field[0] as nat) * 256 + field[1] as nat),
{
    let raw: u64 = (field[0] as u64) * 256 + field[1] as u64;
    if raw == 1 {
        65536
    } else {
        raw
    }
}

/// The four kinds of B-tree page.
#[derive(Debug, Clone, Copy, PartialEq, Eq, Structural)]
pub enum PageType {
    InteriorIndex,
    InteriorTable,
    LeafIndex,
    LeafTable,
}

/// The page kind that a page-type byte stands for, if any.
pub open spec fn page_type_of(b: u8) -> Option<PageType> {
    if b == 0x02 {
        Some(PageType::InteriorIndex)
    } else if b == 0x05 {
        Some(PageType::InteriorTable)
    } else if b == 0x0a {
        Some(PageType::LeafIndex)
    } else if b == 0x0d {
        Some(PageType::LeafTable)
    } else {
        None
    }
}

/// The byte that encodes a page kind.
pub open spec fn page_type_byte(t: PageType) -> u8 {
    match t {
        PageType::InteriorIndex => 0x02,
        PageType::InteriorTable => 0x05,
        PageType::LeafIndex => 0x0a,
        PageType::LeafTable => 0x0d,
    }
}

/// Interior pages carry a right-most child pointer; leaf pages do not.
pub open spec fn is_interior(t: PageType) -> bool {
    t is InteriorIndex || t is InteriorTable
}

impl TryFrom<u8> for PageType {
    type Error = Error;

    fn try_from(value: u8) -> (r: Result<PageType, Error>) {
        match value {
            0x02 => Ok(PageType::InteriorIndex),
            0x05 => Ok(PageType::InteriorTable),
            0x0a => Ok(PageType::LeafIndex),
            0x0d => Ok(PageType::LeafTable),
            _ => Err(Error::PageType(value)),
        }
    }
}

impl vstd::std_specs::convert::TryFromSpecImpl<u8> for PageType {
    open spec fn obeys_try_from_spec() -> bool {
        true
    }

    open spec fn try_from_spec(v: u8) -> Result<PageType, Error> {
        match page_type_of(v) {
            Some(t) => Ok(t),
            None => Err(Error::PageType(v)),
        }
    }
}

/// Every known page-type byte names exactly one page kind, every page kind
/// has exactly one byte, and every other byte is rejected.
pub proof fn lemma_page_type_bijection(b: u8, t: PageType)
    ensures
        (page_type_of(b) is Some) <==> (b == 0x02 || b == 0x05 || b == 0x0a || b == 0x0d),
        page_type_of(page_type_byte(t)) == Some(t),
        page_type_of(b) == Some(t) <==> b == page_type_byte(t),
{
}

/// B-Tree Page Header
#[derive(Debug, PartialEq, Eq, Structural, Clone, Copy)]
pub struct PageHeader {
    pub page_type: PageType,
    pub first_freeblock: Option<u16>,
    pub cell_count: u16,
    pub cell_content: u16,
    pub fragmented_free_bytes: u8,
    pub right_pointer: Option<u32>,
}

impl PageHeader {
    /// A first freeblock, when present, is a nonzero offset, and a right-most
    /// pointer is present exactly on interior pages.
    pub open spec fn wf(self) -> bool {
        &&& self.first_freeblock != Some(0u16)
        &&& (self.right_pointer is Some <==> is_interior(self.page_type))
    }
}

/// Relies on `std::io::Error::from` with `ErrorKind::UnexpectedEof`: the
/// error reported when the file ends before a whole page was read.
#[verifier::external_body]
fn unexpected_eof() -> std::io::Error {
    std::io::Error::from(std::io::ErrorKind::UnexpectedEof)
}

/// The byte offset `(page_number - 1) * page_size` at which a page starts,
/// or `None` where it does not fit in 64 bits.
pub fn page_offset(page_number: u64, page_size: u64) -> (r: Option<u64>)
    requires
        page_number >= 1,
    ensures
        r == (if (page_number - 1) * page_size <= u64::MAX {
            Some(((page_number - 1) * page_size) as u64)
        } else {
            None
        }),
{
    (page_number - 1).checked_mul(page_size)
}

/// The raw bytes of one page together with its 1-based number.
pub struct Page {
    data: Vec<u8>,
    pub page_number: u64,
}

impl Page {
    /// The bytes of the page.
    pub closed spec fn bytes(&self) -> Seq<u8> {
        self.data@
    }

    /// The 1-based number of the page.
    pub closed spec fn number(&self) -> u64 {
        self.page_number
    }

    /// The bytes at which the page's B-tree header starts: page 1 reserves
    /// its first 100 bytes for the file header.
    pub open spec fn header_region(&self) -> Seq<u8> {
        if self.number() == 1 {
            if self.bytes().len() >= 100 {
                self.bytes().skip(100)
            } else {
                Seq::empty()
            }
        } else {
            self.bytes()
        }
    }

    /// Build page `page_number` from the bytes read for it. A read that came
    /// back with other than `page_size` bytes is an I/O error: no short or
    /// padded page is ever made.
    pub fn from_read(data: Vec<u8>, page_size: u64, page_number: u64) -> (r: Result<Page, Error>)
        requires
            page_number >= 1,
        ensures
            r is Ok <==> data@.len() == page_size,
            r matches Ok(p) ==> p.bytes() == data@ && p.number() == page_number,
            r matches Err(e) ==> e is FileIO,
    {
        if data.len() as u64 != page_size {
            return Err(Error::FileIO(unexpected_eof()));
        }
        Ok(Page { data, page_number })
    }

    /// The bytes of the page.
    pub fn data(&self) -> (r: &[u8])
        ensures
            r@ == self.bytes(),
    {
        self.data.as_slice()
    }

    /// Decode the B-tree header of this page.
    pub fn get_header(&self) -> (r: Result<PageHeader, Error>)
        ensures
            match r {
                Ok(h) => parse_header(self.header_region()) == Some(h) && h.wf(),
                Err(e) => parse_header(self.header_region()) is None && e == Error::Nom(
                    "page header",
                ),
            },
    {
        let input = if self.page_number == 1 {
            if self.data.len() < 100 {
                return Err(Error::Nom("page header"));
            }
            vstd::slice::slice_subrange(self.data.as_slice(), 100, self.data.len())
        } else {
            self.data.as_slice()
        };
        assert(input@ =~= self.header_region());
        match page_header(input) {
            Ok((_, h)) => Ok(h),
            Err(_) => Err(Error::Nom("page header")),
        }
    }
}

} // verus!
