use clipsync::file_list::{decode_file_list, encode_file_list, HEADER_SIZE};
use clipsync::wide::{decode_utf16_lossy, encode_utf16};

fn strings(list: &[&str]) -> Vec<String> {
    list.iter().map(|s| s.to_string()).collect()
}

fn block_of(units: &[u16]) -> Vec<u8> {
    let mut block = vec![20u8, 0, 0, 0, 0, 0, 0, 0, 0, 0, 0, 0, 0, 0, 0, 0, 1, 0, 0, 0];
    for u in units {
        block.extend_from_slice(&u.to_le_bytes());
    }
    block
}

#[test]
fn block_of_two_paths_byte_for_byte() {
    let block = encode_file_list(&strings(&["C:\\a", "b"]));
    let expected: Vec<u8> = vec![
        20, 0, 0, 0, // offset of the entries
        0, 0, 0, 0, 0, 0, 0, 0, // point
        0, 0, 0, 0, // non-client flag
        1, 0, 0, 0, // wide characters
        b'C', 0, b':', 0, b'\\', 0, b'a', 0, 0, 0, // first path
        b'b', 0, 0, 0, // second path
        0, 0, // end of the list
    ];
    assert_eq!(block, expected);
    assert_eq!(HEADER_SIZE, 20);
}

#[test]
fn block_of_no_paths_is_the_header_and_one_zero() {
    let block = encode_file_list(&[].to_vec());
    assert_eq!(block.len(), 22);
    assert_eq!(&block[20..], &[0, 0]);
    assert_eq!(decode_file_list(&block), Some(vec![]));
}

#[test]
fn written_paths_are_read_back_in_order() {
    let lists: Vec<Vec<String>> = vec![
        strings(&["C:\\a.txt", "C:\\b.txt"]),
        strings(&["C:\\Users\\test"]),
        strings(&["b", "a", "b", "a"]),
        strings(&["D:\\文档\\报告.docx", "\\\\server\\share\\😀 notes.txt", "/home/é"]),
        strings(&[" leading and trailing ", "tab\there", "line\nfeed"]),
    ];
    for list in lists {
        let block = encode_file_list(&list);
        assert_eq!(decode_file_list(&block), Some(list));
    }
}

#[test]
fn an_empty_path_ends_the_list_early() {
    let block = encode_file_list(&strings(&["a", "", "b"]));
    assert_eq!(decode_file_list(&block), Some(strings(&["a"])));
}

#[test]
fn a_zero_character_cuts_a_path() {
    let block = encode_file_list(&strings(&["ab\0cd", "e"]));
    assert_eq!(decode_file_list(&block), Some(strings(&["ab", "cd", "e"])));
}

#[test]
fn decode_refuses_a_block_shorter_than_its_header() {
    assert_eq!(decode_file_list(&vec![]), None);
    assert_eq!(decode_file_list(&vec![20, 0, 0, 0, 0, 0, 0, 0, 0, 0, 0, 0, 0, 0, 0, 0, 1, 0, 0]), None);
}

#[test]
fn decode_refuses_a_list_that_does_not_end() {
    assert_eq!(decode_file_list(&block_of(&[])), None);
    assert_eq!(decode_file_list(&block_of(&[0x61])), None);
    assert_eq!(decode_file_list(&block_of(&[0x61, 0])), None);
    assert_eq!(decode_file_list(&block_of(&[0x61, 0, 0x62])), None);
    assert_eq!(decode_file_list(&block_of(&[0x61, 0, 0])), Some(strings(&["a"])));
    assert_eq!(decode_file_list(&block_of(&[0])), Some(vec![]));
}

#[test]
fn decode_leaves_out_what_follows_the_end_of_the_list() {
    assert_eq!(decode_file_list(&block_of(&[0x61, 0, 0, 0x62, 0, 0])), Some(strings(&["a"])));
    let mut odd = block_of(&[0x61, 0, 0]);
    odd.push(7);
    assert_eq!(decode_file_list(&odd), Some(strings(&["a"])));
}

#[test]
fn decode_refuses_narrow_characters() {
    let mut block = block_of(&[0x61, 0, 0]);
    block[16] = 0;
    assert_eq!(decode_file_list(&block), None);
    block[17] = 1;
    assert_eq!(decode_file_list(&block), Some(strings(&["a"])));
}

#[test]
fn decode_follows_the_offset() {
    let mut block = block_of(&[0x7A, 0, 0x61, 0, 0]);
    assert_eq!(decode_file_list(&block), Some(strings(&["z", "a"])));
    block[0] = 24;
    assert_eq!(decode_file_list(&block), Some(strings(&["a"])));
    block[0] = 19;
    assert_eq!(decode_file_list(&block), None);
    block[0] = 30;
    assert_eq!(decode_file_list(&block), None);
    block[0] = 31;
    assert_eq!(decode_file_list(&block), None);
    block[0] = 20;
    block[1] = 1;
    assert_eq!(decode_file_list(&block), None);
    block[1] = 0;
    block[3] = 0x80;
    assert_eq!(decode_file_list(&block), None);
}

#[test]
fn utf16_encoding_is_that_of_std() {
    for s in ["", "a", "C:\\Users\\test", "é", "文档", "😀", "a😀b\u{10FFFF}\u{10000}\u{FFFF}\u{E000}\u{D7FF}", "\0"] {
        let expected: Vec<u16> = s.encode_utf16().collect();
        assert_eq!(encode_utf16(s), expected);
    }
    assert_eq!(encode_utf16("😀"), vec![0xD83D, 0xDE00]);
    assert_eq!(encode_utf16("\u{10000}"), vec![0xD800, 0xDC00]);
    assert_eq!(encode_utf16("\u{10FFFF}"), vec![0xDBFF, 0xDFFF]);
}

#[test]
fn utf16_decoding_is_that_of_std() {
    let cases: Vec<Vec<u16>> = vec![
        vec![],
        vec![0x61, 0x62],
        vec![0xD83D, 0xDE00],
        vec![0xD83D],
        vec![0xDE00],
        vec![0xDE00, 0xD83D],
        vec![0xD83D, 0xD83D, 0xDE00, 0xDE00],
        vec![0x61, 0xD800, 0x62, 0xDFFF, 0x63],
        vec![0xD800, 0xDC00, 0xDBFF, 0xDFFF, 0xFFFF, 0xE000, 0xD7FF, 0],
        vec![0xDBFF, 0xDBFF],
    ];
    for units in cases {
        assert_eq!(decode_utf16_lossy(&units), String::from_utf16_lossy(&units));
    }
    assert_eq!(decode_utf16_lossy(&vec![0x61, 0xD83D]), "a\u{FFFD}");
}

#[test]
fn a_pair_that_an_entry_cuts_in_two_is_replaced() {
    // A zero between the two halves of a pair ends an entry after the first half.
    let block = block_of(&[0x61, 0xD83D, 0, 0xDE00, 0x62, 0, 0]);
    assert_eq!(decode_file_list(&block), Some(strings(&["a\u{FFFD}", "\u{FFFD}b"])));
}

#[test]
fn utf16_round_trip() {
    for s in ["", "plain", "D:\\文档\\😀.txt", "\u{10FFFF}\u{0}\u{FFFD}"] {
        let units = encode_utf16(s);
        assert_eq!(decode_utf16_lossy(&units), s);
    }
}
