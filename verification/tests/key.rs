use transformation_engine::key::{fit_key, key_from, master_key};

#[test]
fn no_text_gives_a_key_of_zeros() {
    assert_eq!(master_key(""), vec![0u8; 32]);
}

#[test]
fn base64_is_decoded() {
    let mut expected = b"hello".to_vec();
    expected.resize(32, 0);
    assert_eq!(master_key("aGVsbG8="), expected);
}

#[test]
fn a_full_key_is_kept() {
    let key: Vec<u8> = (0u8..32).collect();
    assert_eq!(master_key("AAECAwQFBgcICQoLDA0ODxAREhMUFRYXGBkaGxwdHh8="), key);
    assert_eq!(fit_key(key.clone()), key);
}

#[test]
fn a_text_that_is_not_base64_is_its_own_key() {
    let mut expected = "pässword".as_bytes().to_vec();
    expected.resize(32, 0);
    assert_eq!(master_key("pässword"), expected);
}

#[test]
fn base64_without_its_padding_is_not_decoded() {
    let mut expected = b"aGVsbG8".to_vec();
    expected.resize(32, 0);
    assert_eq!(master_key("aGVsbG8"), expected);
}

#[test]
fn base64_with_bits_to_spare_is_not_decoded() {
    let mut expected = b"aGVsbG9=".to_vec();
    expected.resize(32, 0);
    assert_eq!(master_key("aGVsbG9="), expected);
}

#[test]
fn bytes_beyond_the_key_do_not_matter() {
    let long: Vec<u8> = (0u8..40).collect();
    assert_eq!(fit_key(long), (0u8..32).collect::<Vec<u8>>());
}

#[test]
fn zeros_at_the_end_make_no_other_key() {
    assert_eq!(fit_key(vec![1, 2, 0, 0, 0]), fit_key(vec![1, 2]));
}

#[test]
fn decoded_bytes_go_before_the_text() {
    assert_eq!(key_from(Some(vec![9]), "text"), fit_key(vec![9]));
    assert_eq!(key_from(None, "text"), fit_key(b"text".to_vec()));
}
