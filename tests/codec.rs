use pob_render::codec::{deflate, inflate};

#[test]
fn deflate_then_inflate_gives_text_back() {
    let text = "Path of Building build code: aaaaaaaaaaaaaaaaaaaaaaaaaaaaaaaaaaaaaaaa";
    let packed = deflate(text.as_bytes(), 9).unwrap();
    assert_ne!(packed, text.as_bytes());
    assert!(packed.len() < text.len());
    assert_eq!(inflate(&packed).unwrap(), text);
}

#[test]
fn empty_input_round_trips() {
    let packed = deflate(&[], 0).unwrap();
    assert_eq!(inflate(&packed).unwrap(), "");
}

#[test]
fn corrupt_stream_is_rejected() {
    assert_eq!(inflate(&[0xff, 0xff, 0xff, 0xff]), None);
}
