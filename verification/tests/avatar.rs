use aio_core::avatar::{
    avatar_file_name, data_url_payload, decode_avatar, fresh_avatar_file_name, is_user_avatar,
    AvatarError,
};

#[test]
fn payload_stands_between_the_first_two_commas() {
    assert_eq!(data_url_payload("data:image/png;base64,AAAA"), Some("AAAA"));
    assert_eq!(data_url_payload("a,b,c"), Some("b"));
    assert_eq!(data_url_payload("a,"), Some(""));
    assert_eq!(data_url_payload(",x"), Some("x"));
    assert_eq!(data_url_payload(",,"), Some(""));
    assert_eq!(data_url_payload("no comma"), None);
    assert_eq!(data_url_payload(""), None);
}

#[test]
fn avatar_bytes_come_out_of_the_data_url() {
    assert_eq!(decode_avatar("data:image/png;base64,aGVsbG8gd29ybGR+"), Ok(b"hello world~".to_vec()));
    assert_eq!(decode_avatar("data:image/png;base64,//4="), Ok(vec![0xff, 0xfe]));
    assert_eq!(decode_avatar("x,"), Ok(vec![]));
}

#[test]
fn avatar_without_a_comma_is_no_image() {
    assert_eq!(decode_avatar("aGVsbG8="), Err(AvatarError::InvalidImage));
    assert_eq!(AvatarError::InvalidImage.message(), "无效的图像数据");
}

#[test]
fn avatar_that_is_not_base64_is_refused() {
    match decode_avatar("data:image/png;base64,***") {
        Err(AvatarError::Encoding(detail)) => {
            assert!(!detail.is_empty());
            assert_eq!(AvatarError::Encoding(detail.clone()).message(), detail);
        }
        other => panic!("unexpected: {:?}", other),
    }
    assert!(matches!(decode_avatar("x,AAA"), Err(AvatarError::Encoding(_))));
}

#[test]
fn avatar_files_are_named_after_an_identifier() {
    assert_eq!(avatar_file_name("1b4e28ba-2fa1-11d2-883f-0016d3cca427"), "user_avatar_1b4e28ba-2fa1-11d2-883f-0016d3cca427.png");
    assert!(is_user_avatar("user_avatar_x.png"));
    assert!(is_user_avatar("user_avatar_"));
    assert!(!is_user_avatar("user_avatar"));
    assert!(!is_user_avatar("my_user_avatar_x.png"));
}

#[test]
fn fresh_avatar_files_have_names_of_their_own() {
    let one = fresh_avatar_file_name();
    let other = fresh_avatar_file_name();
    assert!(one.starts_with("user_avatar_"));
    assert!(one.ends_with(".png"));
    assert!(is_user_avatar(&one));
    assert!(one.len() > "user_avatar_.png".len());
    assert_ne!(one, other);
    let id = &one["user_avatar_".len()..one.len() - ".png".len()];
    assert_eq!(avatar_file_name(id), one);
}
