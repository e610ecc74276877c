use sqlite_pages::page::{PageHeader, PageType};
use sqlite_pages::parse::{page_header, varint, ParseError};

#[test]
fn test_page_header() {
    let mut input = vec![
        0x0d_u8, // page_type is LeafTable
        0x00, 0x00, // no freeblocks
        0x00, 0x0a, // 10 cells
    ];
    // cell content starts at 4000
    input.extend_from_slice(4000u16.to_be_bytes().as_slice());
    // no fragmented bytes
    input.push(0);
    let expected = PageHeader {
        page_type: PageType::LeafTable,
        first_freeblock: None,
        cell_count: 10,
        cell_content: 4000,
        fragmented_free_bytes: 0,
        right_pointer: None,
    };
    let (_, header) = page_header(&input).unwrap();
    assert_eq!(header, expected);
}

#[test]
fn test_varint() {
    assert_eq!(varint([0x7f].as_slice()), Ok(([].as_slice(), 0x7f)));
    assert_eq!(
        varint([0b1_000_0001, 0b0_111_0000].as_slice()),
        Ok(([].as_slice(), 0b000_0001_111_0000))
    );
    assert_eq!(
        varint([0b1_111_1111, 0b1_000_0000, 0b1_111_0000, 0b0_000_0001].as_slice()),
        Ok(([].as_slice(), 0b1111111_0000000_1110000_0000001))
    );
    assert_eq!(
        varint([0xff, 0xff, 0xff, 0xff, 0xff, 0xff, 0xff, 0xff, 0xff].as_slice()),
        Ok(([].as_slice(), 0xff_ff_ff_ff_ff_ff_ff_ff))
    );
}

#[test]
fn varint_leaves_trailing_bytes() {
    assert_eq!(varint([0x81, 0x00, 0x05, 0x06].as_slice()), Ok(([0x05, 0x06].as_slice(), 0x80)));
    // the ninth byte contributes all eight bits, and the tenth is left over
    assert_eq!(
        varint([0x80, 0x80, 0x80, 0x80, 0x80, 0x80, 0x80, 0x80, 0x81, 0x07].as_slice()),
        Ok(([0x07].as_slice(), 0x81))
    );
}

#[test]
fn varint_incomplete_input() {
    assert_eq!(varint([].as_slice()), Err(ParseError::Incomplete));
    assert_eq!(varint([0x80, 0xff].as_slice()), Err(ParseError::Incomplete));
    assert_eq!(varint([0xff; 8].as_slice()), Err(ParseError::Incomplete));
}

#[test]
fn page_header_interior_with_right_pointer() {
    let input = [
        0x05, // InteriorTable
        0x01, 0x02, // first freeblock at 258
        0x00, 0x03, // 3 cells
        0x0f, 0xa0, // cell content at 4000
        0x07, // 7 fragmented bytes
        0x00, 0x00, 0x01, 0x2c, // right-most child page 300
        0xaa, 0xbb, // trailing cell pointers
    ];
    let (rest, header) = page_header(&input).unwrap();
    assert_eq!(
        header,
        PageHeader {
            page_type: PageType::InteriorTable,
            first_freeblock: Some(258),
            cell_count: 3,
            cell_content: 4000,
            fragmented_free_bytes: 7,
            right_pointer: Some(300),
        }
    );
    assert_eq!(rest, [0xaa, 0xbb].as_slice());
}

#[test]
fn page_header_rejects_unknown_page_type() {
    let input = [0x03, 0, 0, 0, 0, 0, 0, 0];
    assert_eq!(page_header(&input), Err(ParseError::PageType(0x03)));
    assert_eq!(page_header(&[]), Err(ParseError::Incomplete));
}

#[test]
fn page_header_short_input() {
    // a leaf header needs 8 bytes
    assert_eq!(page_header(&[0x0d, 0, 0, 0, 0, 0, 0]), Err(ParseError::Incomplete));
    // an interior header needs 12 bytes
    assert_eq!(
        page_header(&[0x02, 0, 0, 0, 0, 0, 0, 0, 0, 0, 0]),
        Err(ParseError::Incomplete)
    );
}

#[test]
fn page_header_round_trip() {
    let headers = [
        PageHeader {
            page_type: PageType::InteriorIndex,
            first_freeblock: Some(0xfffe),
            cell_count: 0xffff,
            cell_content: 0,
            fragmented_free_bytes: 0xff,
            right_pointer: Some(0xdead_beef),
        },
        PageHeader {
            page_type: PageType::LeafIndex,
            first_freeblock: None,
            cell_count: 1,
            cell_content: 512,
            fragmented_free_bytes: 2,
            right_pointer: None,
        },
    ];
    for h in headers {
        let mut bytes = vec![match h.page_type {
            PageType::InteriorIndex => 0x02,
            PageType::InteriorTable => 0x05,
            PageType::LeafIndex => 0x0a,
            PageType::LeafTable => 0x0d,
        }];
        bytes.extend_from_slice(&h.first_freeblock.unwrap_or(0).to_be_bytes());
        bytes.extend_from_slice(&h.cell_count.to_be_bytes());
        bytes.extend_from_slice(&h.cell_content.to_be_bytes());
        bytes.push(h.fragmented_free_bytes);
        if let Some(p) = h.right_pointer {
            bytes.extend_from_slice(&p.to_be_bytes());
        }
        let (rest, decoded) = page_header(&bytes).unwrap();
        assert_eq!(decoded, h);
        assert!(rest.is_empty());
    }
}
