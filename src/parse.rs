use vstd::prelude::*;

use crate::page::{
    PageType, PageHeader, page_type_of, page_type_byte, is_interior, lemma_page_type_bijection,
};

verus! {

/// Why a decoder rejected its input.
#[derive(Debug, Clone, Copy, PartialEq, Eq, Structural)]
pub enum ParseError {
    /// The input ended before the structure was complete.
    Incomplete,
    /// The page-type byte is not one of the four known codes.
    PageType(u8),
}

/// Big-endian 16-bit integer at `s[i..i + 2]`.
pub open spec fn be16(s: Seq<u8>, i: int) -> u16 {
    ((s[i] as int) * 0x100 + (s[i + 1] as int)) as u16
}

/// Big-endian 32-bit integer at `s[i..i + 4]`.
pub open spec fn be32(s: Seq<u8>, i: int) -> u32 {
    ((s[i] as int) * 0x1000000 + (s[i + 1] as int) * 0x10000 + (s[i + 2] as int) * 0x100
        + (s[i + 3] as int)) as u32
}

/// Number of bytes taken by the header of a page of type `t`.
pub open spec fn header_len(t: PageType) -> nat {
    if is_interior(t) {
        12
    } else {
        8
    }
}

/// The header that `s` begins with, if any.
pub open spec fn parse_header(s: Seq<u8>) -> Option<PageHeader> {
    if s.len() < 1 {
        None
    } else {
        match page_type_of(s[0]) {
            None => None,
            Some(t) => if s.len() < header_len(t) {
                None
            } else {
                Some(
                    PageHeader {
                        page_type: t,
                        first_freeblock: if be16(s, 1) == 0 {
                            None
                        } else {
                            Some(be16(s, 1))
                        },
                        cell_count: be16(s, 3),
                        cell_content: be16(s, 5),
                        fragmented_free_bytes: s[7],
                        right_pointer: if is_interior(t) {
                            Some(be32(s, 8))
                        } else {
                            None
                        },
                    },
                )
            },
        }
    }
}

/// The error reported for an input that holds no header.
pub open spec fn header_error(s: Seq<u8>) -> ParseError {
    if s.len() >= 1 && page_type_of(s[0]) is None {
        ParseError::PageType(s[0])
    } else {
        ParseError::Incomplete
    }
}

fn read_be16(input: &[u8], i: usize) -> (r: u16)
    requires
        i + 2 <= input@.len(),
    ensures
        r == be16(input@, i as int),
{
    (input[i] as u16) * 0x100 + input[i + 1] as u16
}

fn read_be32(input: &[u8], i: usize) -> (r: u32)
    requires
        i + 4 <= input@.len(),
    ensures
        r == be32(input@, i as int),
{
    (input[i] as u32) * 0x1000000 + (input[i + 1] as u32) * 0x10000 + (input[i + 2] as u32)
        * 0x100 + input[i + 3] as u32
}

/// Decode the B-tree page header at the start of `input`, returning the
/// bytes after it together with the header.
pub fn page_header<'a>(input: &'a [u8]) -> (r: Result<(&'a [u8], PageHeader), ParseError>)
    ensures
        match r {
            Ok((rest, h)) => {
                &&& parse_header(input@) == Some(h)
                &&& h.wf()
                &&& rest@ == input@.skip(header_len(h.page_type) as int)
            },
            Err(e) => parse_header(input@) is None && e == header_error(input@),
        },
{
    if input.len() < 1 {
        return Err(ParseError::Incomplete);
    }
    let page_type = match PageType::try_from(input[0]) {
        Ok(t) => t,
        Err(_) => return Err(ParseError::PageType(input[0])),
    };
    let interior = matches!(page_type, PageType::InteriorTable | PageType::InteriorIndex);
    let len: usize = if interior {
        12
    } else {
        8
    };
    if input.len() < len {
        return Err(ParseError::Incomplete);
    }
    let right_pointer = if interior {
        Some(read_be32(input, 8))
    } else {
        None
    };
    let freeblock = read_be16(input, 1);
    let header = PageHeader {
        page_type,
        first_freeblock: if freeblock == 0 {
            None
        } else {
            Some(freeblock)
        },
        cell_count: read_be16(input, 3),
        cell_content: read_be16(input, 5),
        fragmented_free_bytes: input[7],
        right_pointer,
    };
    let rest = vstd::slice::slice_subrange(input, len, input.len());
    assert(rest@ =~= input@.skip(len as int));
    Ok((rest, header))
}

/// The big-endian bytes of a 16-bit integer.
pub open spec fn be16_bytes(v: u16) -> Seq<u8> {
    seq![(v / 0x100) as u8, (v % 0x100) as u8]
}

/// The big-endian bytes of a 32-bit integer.
pub open spec fn be32_bytes(v: u32) -> Seq<u8> {
    seq![
        (v / 0x1000000) as u8,
        (v / 0x10000 % 0x100) as u8,
        (v / 0x100 % 0x100) as u8,
        (v % 0x100) as u8,
    ]
}

/// The bytes that encode a header, laid out field by field.
pub open spec fn encode_header(h: PageHeader) -> Seq<u8> {
    seq![page_type_byte(h.page_type)] + be16_bytes(
        match h.first_freeblock {
            Some(v) => v,
            None => 0,
        },
    ) + be16_bytes(h.cell_count) + be16_bytes(h.cell_content) + seq![h.fragmented_free_bytes]
        + match h.right_pointer {
        Some(p) => be32_bytes(p),
        None => Seq::empty(),
    }
}

/// Decoding the encoding of a well-formed header, followed by any bytes,
/// gives back that header and consumes exactly its encoding.
pub proof fn lemma_header_round_trip(h: PageHeader, rest: Seq<u8>)
    requires
        h.wf(),
    ensures
        encode_header(h).len() == header_len(h.page_type),
        parse_header(encode_header(h) + rest) == Some(h),
        (encode_header(h) + rest).skip(header_len(h.page_type) as int) == rest,
{
    let e = encode_header(h);
    let s = e + rest;
    let fb: u16 = match h.first_freeblock {
        Some(v) => v,
        None => 0,
    };
    lemma_page_type_bijection(0, h.page_type);
    assert(s[0] == page_type_byte(h.page_type));
    assert(s[1] == (fb / 0x100) as u8 && s[2] == (fb % 0x100) as u8);
    assert(s[3] == (h.cell_count / 0x100) as u8 && s[4] == (h.cell_count % 0x100) as u8);
    assert(s[5] == (h.cell_content / 0x100) as u8 && s[6] == (h.cell_content % 0x100) as u8);
    assert(s[7] == h.fragmented_free_bytes);
    assert(be16(s, 1) == fb);
    assert(be16(s, 3) == h.cell_count);
    assert(be16(s, 5) == h.cell_content);
    if let Some(p) = h.right_pointer {
        assert(s[8] == (p / 0x1000000) as u8);
        assert(s[9] == (p / 0x10000 % 0x100) as u8);
        assert(s[10] == (p / 0x100 % 0x100) as u8);
        assert(s[11] == (p % 0x100) as u8);
        assert(be32(s, 8) == p);
    }
    assert(s.skip(e.len() as int) =~= rest);
}

/// Number of continuation bytes (high bit set) at the start of `s` from
/// index `i` on, counting at most up to index 8.
pub open spec fn continuation_end(s: Seq<u8>, i: nat) -> nat
    decreases 8 - i,
{
    if i < 8 && i < s.len() && s[i as int] >= 0x80 {
        continuation_end(s, i + 1)
    } else {
        i
    }
}

/// The low seven bits of the first `k` bytes of `s`, most significant first.
pub open spec fn low7_prefix(s: Seq<u8>, k: nat) -> nat
    decreases k,
{
    if k == 0 {
        0
    } else {
        low7_prefix(s, (k - 1) as nat) * 0x80 + (s[k - 1] % 0x80) as nat
    }
}

/// The value of the varint at the start of `s` and the number of bytes it
/// takes, if `s` holds a complete one.
pub open spec fn varint_decode(s: Seq<u8>) -> Option<(u64, nat)> {
    let k = continuation_end(s, 0);
    if s.len() <= k {
        None
    } else if k == 8 {
        Some(((low7_prefix(s, 8) * 0x100 + s[8]) as u64, 9))
    } else {
        Some(((low7_prefix(s, k) * 0x80 + s[k as int]) as u64, k + 1))
    }
}

/// A varint takes between one and nine bytes, and decoding fails only where
/// the input ends before its last byte.
pub proof fn lemma_varint_length(s: Seq<u8>)
    ensures
        continuation_end(s, 0) <= 8,
        varint_decode(s) is None <==> s.len() <= continuation_end(s, 0),
        varint_decode(s) matches Some((_, n)) ==> 1 <= n <= 9,
        s.len() >= 9 ==> varint_decode(s) is Some,
{
    lemma_continuation_end_bound(s, 0);
}

proof fn lemma_continuation_end_bound(s: Seq<u8>, i: nat)
    requires
        i <= 8,
    ensures
        i <= continuation_end(s, i) <= 8,
    decreases 8 - i,
{
    if i < 8 && i < s.len() && s[i as int] >= 0x80 {
        lemma_continuation_end_bound(s, i + 1);
    }
}

/// `128` raised to the power `k`.
pub open spec fn pow128(k: nat) -> nat
    decreases k,
{
    if k == 0 {
        1
    } else {
        0x80 * pow128((k - 1) as nat)
    }
}

proof fn lemma_pow128_mono(i: nat, j: nat)
    requires
        i <= j,
    ensures
        pow128(i) <= pow128(j),
    decreases j - i,
{
    if i < j {
        lemma_pow128_mono(i, (j - 1) as nat);
    }
}

proof fn lemma_pow128_8()
    ensures
        pow128(8) == 0x100000000000000,
{
    reveal_with_fuel(pow128, 9);
}

/// Decode a varint at the start of `input`, returning the bytes after it
/// together with its value.
pub fn varint<'a>(input: &'a [u8]) -> (r: Result<(&'a [u8], u64), ParseError>)
    ensures
        match r {
            Ok((rest, v)) => varint_decode(input@) matches Some((val, n)) && v == val && rest@
                == input@.skip(n as int),
            Err(e) => varint_decode(input@) is None && e == ParseError::Incomplete,
        },
{
    let mut i: usize = 0;
    let mut ans: u64 = 0;
    while i < 8 && i < input.len() && input[i] >= 0x80
        invariant
            i <= 8,
            i <= input@.len(),
            continuation_end(input@, 0) == continuation_end(input@, i as nat),
            ans == low7_prefix(input@, i as nat),
            ans < pow128(i as nat),
        decreases 8 - i,
    {
        proof {
            lemma_pow128_mono((i + 1) as nat, 8);
            lemma_pow128_8();
        }
        ans = ans * 0x80 + (input[i] % 0x80) as u64;
        i = i + 1;
    }
    proof {
        lemma_pow128_mono(i as nat, 8);
        lemma_pow128_8();
    }
    if input.len() <= i {
        return Err(ParseError::Incomplete);
    }
    let value: u64 = if i == 8 {
        ans * 0x100 + input[i] as u64
    } else {
        ans * 0x80 + input[i] as u64
    };
    let rest = vstd::slice::slice_subrange(input, i + 1, input.len());
    assert(rest@ =~= input@.skip(i + 1));
    assert(varint_decode(input@) == Some((value, (i + 1) as nat)));
    Ok((rest, value))
}

} // verus!
