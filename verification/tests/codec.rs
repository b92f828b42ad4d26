use match_lighthouse::codec::base64_decode;

#[test]
fn base64_texts_are_decoded() {
    assert_eq!(base64_decode("_-8").unwrap(), vec![0xff, 0xef]);
    assert_eq!(base64_decode("").unwrap(), Vec::<u8>::new());
    assert!(base64_decode("_-8=").is_err());
    assert!(!base64_decode("!").unwrap_err().is_empty());
}
