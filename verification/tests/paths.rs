use severo_lsp::paths::decode_file_path;

#[test]
fn encoded_bytes_are_decoded() {
    assert_eq!(
        decode_file_path("/home/me/my%20project/main.severo"),
        Some("/home/me/my project/main.severo".to_string())
    );
    assert_eq!(decode_file_path("%41%62c"), Some("Abc".to_string()));
    assert_eq!(decode_file_path("/caf%C3%A9"), Some("/café".to_string()));
}

#[test]
fn a_path_without_percent_signs_is_its_own_decoding() {
    for path in ["", "/", "/tmp/a.severo", "/tmp/a+b c.severo", "/tmp/é"] {
        assert_eq!(decode_file_path(path), Some(path.to_string()));
    }
}

#[test]
fn a_percent_sign_without_two_hexadecimal_digits_stays() {
    assert_eq!(decode_file_path("100%"), Some("100%".to_string()));
    assert_eq!(decode_file_path("a%2"), Some("a%2".to_string()));
    assert_eq!(decode_file_path("a%zzb"), Some("a%zzb".to_string()));
}

#[test]
fn decoded_bytes_that_are_no_text_give_nothing() {
    assert_eq!(decode_file_path("%F0%0F%91%BE"), None);
    assert_eq!(decode_file_path("/tmp/%FF"), None);
}
