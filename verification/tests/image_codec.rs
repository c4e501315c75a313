use base64::Engine;
use clipsync::image_codec::{
    base64_to_image, frame_payload, image_to_base64, payload_body, DecodeError, RawImage,
};

const HEADER: &str = "data:image/png;base64,";

fn checker(width: u32, height: u32) -> RawImage {
    let mut bytes = Vec::new();
    for y in 0..height {
        for x in 0..width {
            bytes.push((x * 37 + y * 11) as u8);
            bytes.push((x + y * 5) as u8);
            bytes.push(if (x + y) % 2 == 0 { 255 } else { 0 });
            bytes.push((200 + x + y) as u8);
        }
    }
    RawImage { width, height, bytes }
}

#[test]
fn encode_then_decode_gives_the_image_back() {
    for (w, h) in [(1u32, 1u32), (2, 2), (3, 5), (16, 9), (1, 40)] {
        let img = checker(w, h);
        let payload = image_to_base64(img.clone()).expect("a valid image encodes");
        let back = base64_to_image(&payload).expect("its payload decodes");
        assert_eq!(back.width, w);
        assert_eq!(back.height, h);
        assert_eq!(back.bytes, img.bytes);
    }
}

#[test]
fn payload_is_a_png_behind_the_header() {
    let payload = image_to_base64(checker(2, 2)).unwrap();
    assert!(payload.starts_with(HEADER));
    let body = &payload[HEADER.len()..];
    assert!(!body.contains(','));
    let png = base64::engine::general_purpose::STANDARD.decode(body).unwrap();
    assert_eq!(&png[..8], &[0x89, b'P', b'N', b'G', 0x0D, 0x0A, 0x1A, 0x0A]);
    // The header chunk holds the two dimensions, then 8 bits and colour type 6.
    assert_eq!(&png[16..26], &[0, 0, 0, 2, 0, 0, 0, 2, 8, 6]);
}

#[test]
fn encode_refuses_a_buffer_of_the_wrong_length() {
    let short = RawImage { width: 2, height: 2, bytes: vec![0; 15] };
    assert!(image_to_base64(short).is_none());
    let long = RawImage { width: 2, height: 2, bytes: vec![0; 17] };
    assert!(image_to_base64(long).is_none());
    let exact = RawImage { width: 2, height: 2, bytes: vec![0; 16] };
    assert!(image_to_base64(exact).is_some());
}

#[test]
fn encode_refuses_an_image_without_pixels() {
    assert!(image_to_base64(RawImage { width: 0, height: 0, bytes: vec![] }).is_none());
    assert!(image_to_base64(RawImage { width: 0, height: 3, bytes: vec![] }).is_none());
    assert!(image_to_base64(RawImage { width: 3, height: 0, bytes: vec![] }).is_none());
}

#[test]
fn is_valid_counts_four_bytes_a_pixel() {
    assert!(RawImage { width: 3, height: 2, bytes: vec![7; 24] }.is_valid());
    assert!(!RawImage { width: 3, height: 2, bytes: vec![7; 23] }.is_valid());
    assert!(RawImage { width: 0, height: 9, bytes: vec![] }.is_valid());
    assert!(!RawImage { width: u32::MAX, height: u32::MAX, bytes: vec![1, 2, 3, 4] }.is_valid());
}

#[test]
fn decode_reads_a_known_png() {
    let payload = "data:image/png;base64,iVBORw0KGgoAAAANSUhEUgAAAAIAAAABCAYAAAD0In+KAAAAEUlEQVR4nGNgZGJm+fX7z18AChMD+UgReecAAAAASUVORK5CYII=";
    let img = base64_to_image(payload).unwrap();
    assert_eq!(img.width, 2);
    assert_eq!(img.height, 1);
    assert_eq!(img.bytes, vec![1, 2, 3, 4, 250, 251, 252, 253]);
    assert!(img.is_valid());
}

#[test]
fn decode_turns_grey_into_rgba() {
    let payload = "data:image/png;base64,iVBORw0KGgoAAAANSUhEUgAAAAEAAAABCAAAAAA6fptVAAAACklEQVR4nGM4AQAAygDJmcpdfgAAAABJRU5ErkJggg==";
    let img = base64_to_image(payload).unwrap();
    assert_eq!((img.width, img.height), (1, 1));
    assert_eq!(img.bytes, vec![200, 200, 200, 255]);
}

#[test]
fn decode_without_a_comma_is_a_malformed_header() {
    assert_eq!(base64_to_image("aGVsbG8=").unwrap_err(), DecodeError::MalformedHeader);
    assert_eq!(base64_to_image("").unwrap_err(), DecodeError::MalformedHeader);
    assert_eq!(base64_to_image("data:image/png;base64").unwrap_err(), DecodeError::MalformedHeader);
}

#[test]
fn decode_of_text_that_is_not_base64_is_a_base64_error() {
    assert!(matches!(base64_to_image("data:image/png;base64,!!!"), Err(DecodeError::Base64Error(_))));
    assert!(matches!(base64_to_image("x,aGVsbG8"), Err(DecodeError::Base64Error(_))));
}

#[test]
fn decode_of_bytes_that_are_no_png_is_an_image_error() {
    assert!(matches!(
        base64_to_image("data:image/png;base64,aGVsbG8="),
        Err(DecodeError::ImageDecodeError(_))
    ));
    assert!(matches!(base64_to_image("data:image/png;base64,"), Err(DecodeError::ImageDecodeError(_))));
}

#[test]
fn decode_reads_what_stands_between_the_first_two_commas() {
    let payload = image_to_base64(checker(2, 3)).unwrap();
    let body = &payload[HEADER.len()..];
    let img = base64_to_image(&format!("anything at all,{},and more,still more", body)).unwrap();
    assert_eq!(img.bytes, checker(2, 3).bytes);
    assert!(matches!(
        base64_to_image(&format!("one,two,{}", body)),
        Err(DecodeError::Base64Error(_)) | Err(DecodeError::ImageDecodeError(_))
    ));
}

#[test]
fn decode_errors_have_words() {
    assert_eq!(DecodeError::MalformedHeader.message(), "数据格式错误");
    let e = base64_to_image("data:,%%%%").unwrap_err();
    let expected = base64::engine::general_purpose::STANDARD.decode("%%%%").unwrap_err().to_string();
    assert_eq!(e.message(), expected);
    assert_eq!(DecodeError::ImageDecodeError("broken".to_string()).message(), "broken");
}

#[test]
fn the_header_stands_in_front_of_the_body() {
    assert_eq!(frame_payload(""), "data:image/png;base64,");
    assert_eq!(frame_payload("aGVsbG8="), "data:image/png;base64,aGVsbG8=");
}

#[test]
fn the_body_stands_between_the_first_two_commas() {
    assert_eq!(payload_body("data:image/png;base64,aGVsbG8="), Some("aGVsbG8=".to_string()));
    assert_eq!(payload_body("a,b,c"), Some("b".to_string()));
    assert_eq!(payload_body("a,b"), Some("b".to_string()));
    assert_eq!(payload_body("a,"), Some(String::new()));
    assert_eq!(payload_body(",,"), Some(String::new()));
    assert_eq!(payload_body(","), Some(String::new()));
    assert_eq!(payload_body("no comma"), None);
    assert_eq!(payload_body(""), None);
    for s in ["a,b,c", "x", ",", "data:image/png;base64,QUJD", "é,ü,ö,"] {
        assert_eq!(payload_body(s), s.split(',').nth(1).map(|b| b.to_string()));
    }
}

#[test]
fn the_body_of_a_framed_text_is_that_text() {
    for body in ["", "QUJD", "a+b/c=="] {
        assert_eq!(payload_body(&frame_payload(body)), Some(body.to_string()));
    }
}
