//! The user's avatar: the bytes out of the data URL that the interface
//! hands over, and the name of the file they are kept in.

use vstd::prelude::*;
use vstd::string::*;
use base64::Engine;
use crate::text::{chars_of, find_char, first_index_of, has_prefix, starts_with};

verus! {

/// The part of a data URL that holds the data: what stands between its
/// first comma and its second one, or its end. `None` where it has no
/// comma.
pub open spec fn payload_of(data_url: Seq<char>) -> Option<Seq<char>> {
    let comma = first_index_of(data_url, ',');
    if comma >= data_url.len() {
        None
    } else {
        let rest = data_url.skip(comma + 1);
        Some(rest.take(first_index_of(rest, ',')))
    }
}

/// The part of `data_url` that holds the data.
pub fn data_url_payload(data_url: &str) -> (r: Option<&str>)
    ensures
        match r {
            Some(p) => payload_of(data_url@) == Some(p@),
            None => payload_of(data_url@) is None,
        },
{
    let text = chars_of(data_url);
    let comma = find_char(&text, 0, ',');
    proof {
        assert(data_url@.skip(0) == data_url@);
    }
    if comma == text.len() {
        return None;
    }
    let end = find_char(&text, comma + 1, ',');
    proof {
        let rest = data_url@.skip(comma + 1);
        assert(rest.take(first_index_of(rest, ',')) =~= data_url@.subrange(
            comma + 1,
            end as int,
        ));
    }
    Some(data_url.substring_char(comma + 1, end))
}

#[verifier::external_type_specification]
#[verifier::external_body]
pub struct ExDecodeError(base64::DecodeError);

/// The bytes that a text in standard base64 stands for; `None` where the
/// text is not valid base64.
pub uninterp spec fn base64_decoded(text: Seq<char>) -> Option<Seq<u8>>;

/// Decodes with `base64::engine::general_purpose::STANDARD.decode`.
/// Trusted: whether the text is accepted, and the bytes it then gives, are
/// taken to be a function of the text alone, which `base64_decoded` names.
#[verifier::external_body]
fn decode_base64(text: &str) -> (r: Result<Vec<u8>, base64::DecodeError>)
    ensures
        match r {
            Ok(bytes) => base64_decoded(text@) == Some(bytes@),
            Err(_) => base64_decoded(text@) is None,
        },
{
    base64::engine::general_purpose::STANDARD.decode(text)
}

/// The decoder's own description of an error, by its `Display`. Trusted;
/// nothing is claimed of the text.
#[verifier::external_body]
fn describe_decode_error(error: &base64::DecodeError) -> (r: String) {
    format!("{}", error)
}

/// The view of an `AvatarError`.
pub enum AvatarErrorView {
    InvalidImage,
    Encoding(Seq<char>),
}

/// Why an avatar was not accepted.
#[derive(Debug, PartialEq, Eq)]
pub enum AvatarError {
    /// What was handed over is no data URL: it has no comma.
    InvalidImage,
    /// The data is not valid base64. Carries the decoder's description.
    Encoding(String),
}

impl View for AvatarError {
    type V = AvatarErrorView;

    open spec fn view(&self) -> AvatarErrorView {
        match self {
            AvatarError::InvalidImage => AvatarErrorView::InvalidImage,
            AvatarError::Encoding(d) => AvatarErrorView::Encoding(d@),
        }
    }
}

impl AvatarError {
    /// The text by which the error is reported.
    pub fn message(&self) -> (r: String)
        ensures
            r@ == match self@ {
                AvatarErrorView::InvalidImage => "无效的图像数据"@,
                AvatarErrorView::Encoding(d) => d,
            },
    {
        match self {
            AvatarError::InvalidImage => String::from_str("无效的图像数据"),
            AvatarError::Encoding(d) => d.clone(),
        }
    }
}

/// The bytes of the image that a data URL carries.
pub fn decode_avatar(data_url: &str) -> (r: Result<Vec<u8>, AvatarError>)
    ensures
        match payload_of(data_url@) {
            None => r == Err::<Vec<u8>, AvatarError>(AvatarError::InvalidImage),
            Some(p) => match base64_decoded(p) {
                Some(bytes) => r is Ok && r->Ok_0@ == bytes,
                None => r is Err && r->Err_0 is Encoding,
            },
        },
{
    match data_url_payload(data_url) {
        None => Err(AvatarError::InvalidImage),
        Some(p) => match decode_base64(p) {
            Ok(bytes) => Ok(bytes),
            Err(e) => Err(AvatarError::Encoding(describe_decode_error(&e))),
        },
    }
}

/// The name of the file that keeps the avatar made under the identifier
/// `id`.
pub open spec fn avatar_name(id: Seq<char>) -> Seq<char> {
    "user_avatar_"@ + id + ".png"@
}

/// The name of the file that keeps the avatar made under the identifier
/// `id`: `user_avatar_`, the identifier, `.png`.
pub fn avatar_file_name(id: &str) -> (r: String)
    ensures
        r@ == avatar_name(id@),
{
    let mut out = String::from_str("user_avatar_");
    out.append(id);
    out.append(".png");
    out
}

/// A random identifier: `uuid::Uuid::new_v4()`, written out by its
/// `Display`. Trusted; it differs from call to call, and nothing is claimed
/// of it.
#[verifier::external_body]
fn random_id() -> (r: String) {
    uuid::Uuid::new_v4().to_string()
}

/// The name of the file for an avatar that is kept now: the name made
/// under a fresh random identifier.
pub fn fresh_avatar_file_name() -> (r: String)
    ensures
        exists|id: Seq<char>| r@ == avatar_name(id),
{
    let id = random_id();
    let name = avatar_file_name(id.as_str());
    proof {
        assert(name@ == avatar_name(id@));
    }
    name
}

/// Whether a file of this name is an avatar kept earlier, to be removed
/// when a new one is kept: its name begins with `user_avatar_`.
pub fn is_user_avatar(file_name: &str) -> (r: bool)
    ensures
        r == has_prefix(file_name@, "user_avatar_"@),
{
    starts_with(file_name, "user_avatar_")
}

} // verus!
