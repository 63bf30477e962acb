use vstd::prelude::*;
use vstd::string::*;
use vstd::utf8::{decode_utf8, encode_utf8, valid_utf8};

verus! {

/// The error of `simplecrypt::decrypt`.
#[verifier::external_type_specification]
#[verifier::external_body]
pub struct ExDecryptionError(simplecrypt::DecryptionError);

/// The error of `base64::decode`.
#[verifier::external_type_specification]
#[verifier::external_body]
pub struct ExDecodeError(base64::DecodeError);

/// The error of `String::from_utf8`.
#[verifier::external_type_specification]
#[verifier::external_body]
pub struct ExFromUtf8Error(std::string::FromUtf8Error);

/// The error of `serde_json`.
#[verifier::external_type_specification]
#[verifier::external_body]
pub struct ExJsonError(serde_json::Error);

/// Why a text could not be translated.
#[derive(Debug)]
pub enum TranslationError {
    /// The sealed bytes do not open with the key.
    Argon2Error(simplecrypt::DecryptionError),
    /// The text is no base64.
    Base64Error(base64::DecodeError),
    /// The opened bytes are no UTF-8.
    Utf8Error(std::string::FromUtf8Error),
    /// The text is not the JSON that was expected.
    JsonError(serde_json::Error),
    /// A signature does not belong to its data.
    VerificationError(String),
}

pub type Result<T> = core::result::Result<T, TranslationError>;

/// The base64 text of some bytes, in the standard alphabet with padding.
pub uninterp spec fn base64_text(bytes: Seq<u8>) -> Seq<char>;

/// The bytes that a base64 text stands for, where it is well formed.
pub uninterp spec fn base64_bytes(text: Seq<char>) -> Option<Seq<u8>>;

/// What sealed bytes hold for the bearer of a passphrase, where they open.
pub uninterp spec fn opened(sealed: Seq<u8>, passphrase: Seq<u8>) -> Option<Seq<u8>>;

/// The JSON array that lists some strings.
pub uninterp spec fn json_of_strings(strings: Seq<Seq<char>>) -> Option<Seq<char>>;

/// `base64::encode`: the base64 text of the bytes. Decoding that text gives
/// the bytes back.
#[verifier::external_body]
fn encode(input: &[u8]) -> (text: String)
    ensures
        text@ == base64_text(input@),
        base64_bytes(text@) == Some(input@),
{
    base64::encode(input)
}

/// `base64::decode`: the bytes that the text stands for, or an error where
/// the text is no base64. The outcome depends on the text alone.
#[verifier::external_body]
fn decode(input: &str) -> (r: core::result::Result<Vec<u8>, base64::DecodeError>)
    ensures
        match r {
            Ok(bytes) => base64_bytes(input@) == Some(bytes@),
            Err(_) => base64_bytes(input@) is None,
        },
{
    base64::decode(input)
}

/// `simplecrypt::encrypt`: seals the data under a key derived from the
/// passphrase, with a fresh salt and nonce, so two calls differ. The result
/// is salt, nonce and authentication tag, 56 bytes in all, followed by as
/// many bytes as the data has, and it opens under the same passphrase to the
/// data. The call does not return where the sodium library cannot be set up
/// or lacks the memory to derive the key.
#[verifier::external_body]
fn seal(data: &[u8], passphrase: &[u8]) -> (sealed: Vec<u8>)
    ensures
        sealed@.len() == data@.len() + 56,
        opened(sealed@, passphrase@) == Some(data@),
{
    simplecrypt::encrypt(data, passphrase)
}

/// `simplecrypt::decrypt`: opens sealed bytes with the passphrase. The
/// outcome depends on the two arguments alone, and fewer than 56 bytes never
/// open. The call does not return where the sodium library cannot be set up
/// or lacks the memory to derive the key.
#[verifier::external_body]
fn open(sealed: &[u8], passphrase: &[u8]) -> (r: core::result::Result<
    Vec<u8>,
    simplecrypt::DecryptionError,
>)
    ensures
        match r {
            Ok(data) => opened(sealed@, passphrase@) == Some(data@),
            Err(_) => opened(sealed@, passphrase@) is None,
        },
        sealed@.len() < 56 ==> r is Err,
{
    simplecrypt::decrypt(sealed, passphrase)
}

/// `String::from_utf8`: the text that the bytes encode, exactly where they
/// are valid UTF-8.
#[verifier::external_body]
pub(crate) fn text_of(bytes: Vec<u8>) -> (r: core::result::Result<
    String,
    std::string::FromUtf8Error,
>)
    ensures
        r is Ok <==> valid_utf8(bytes@),
        r matches Ok(text) ==> text@ == decode_utf8(bytes@),
{
    String::from_utf8(bytes)
}

/// `serde_json::to_string` on a list of strings: the JSON array of them. The
/// outcome depends on the strings alone.
#[verifier::external_body]
fn strings_to_json(strings: &Vec<String>) -> (r: core::result::Result<String, serde_json::Error>)
    ensures
        match r {
            Ok(json) => json_of_strings(strings.deep_view()) == Some(json@),
            Err(_) => json_of_strings(strings.deep_view()) is None,
        },
{
    serde_json::to_string(strings)
}

/// What a sealed text holds for the bearer of a key: the text is base64 of
/// sealed bytes, which open under the key's bytes to the UTF-8 of the content.
pub open spec fn decryption(input: Seq<char>, key: Seq<char>) -> Option<Seq<char>> {
    match base64_bytes(input) {
        None => None,
        Some(sealed) => match opened(sealed, encode_utf8(key)) {
            None => None,
            Some(plain) => if valid_utf8(plain) {
                Some(decode_utf8(plain))
            } else {
                None
            },
        },
    }
}

/// The JSON object that carries data beside its signature.
pub open spec fn envelope(data: Seq<char>, signature: Seq<char>) -> Seq<char> {
    "{\"data\":"@ + data + ",\"sign\":\""@ + signature + "\"}"@
}

/// What is said of a signature that the key does not open.
pub open spec fn wrong_key_text(key: Seq<char>, signature: Seq<char>) -> Seq<char> {
    "Key "@ + key + " incorrect for decrypting sign "@ + signature
}

/// What is said of a signature that opens to something other than the data.
pub open spec fn wrong_data_text(decrypted: Seq<char>, data: Seq<char>) -> Seq<char> {
    "Decrypted sign "@ + decrypted + " does not equal the data: "@ + data
}

/// Writes a list of strings as a JSON array.
pub fn serialize(input: &Vec<String>) -> (r: Result<String>)
    ensures
        match r {
            Ok(json) => json_of_strings(input.deep_view()) == Some(json@),
            Err(error) => error is JsonError && json_of_strings(input.deep_view()) is None,
        },
{
    match strings_to_json(input) {
        Ok(json) => Ok(json),
        Err(error) => Err(TranslationError::JsonError(error)),
    }
}

/// What sealing a text under a key may give: the base64 text of sealed
/// bytes, which are 56 bytes of salt, nonce and tag and then as many bytes
/// as the text has in UTF-8, and which open under the key's bytes to the
/// bytes of the text.
pub open spec fn sealing(data: Seq<char>, key: Seq<char>, sealed: Seq<char>) -> bool {
    exists|bytes: Seq<u8>|
        {
            &&& sealed == #[trigger] base64_text(bytes)
            &&& base64_bytes(sealed) == Some(bytes)
            &&& bytes.len() == encode_utf8(data).len() + 56
            &&& opened(bytes, encode_utf8(key)) == Some(encode_utf8(data))
        }
}

/// What signing serialized data with a key may give: the envelope of the
/// data and of a signature that sealing the data under the key may give.
pub open spec fn signing(data: Seq<char>, key: Seq<char>, signed: Seq<char>) -> bool {
    exists|signature: Seq<char>|
        signed == #[trigger] envelope(data, signature) && sealing(data, key, signature)
}

/// Seals a text under a key and writes the sealed bytes as base64. The
/// result differs from call to call, and always opens under the same key to
/// the text.
pub fn encrypt(data: &str, key: &str) -> (sealed: String)
    ensures
        sealing(data@, key@, sealed@),
        decryption(sealed@, key@) == Some(data@),
{
    broadcast use vstd::utf8::encode_utf8_valid_utf8, vstd::utf8::encode_utf8_decode_utf8;

    let bytes = seal(data.as_bytes(), key.as_bytes());
    let sealed = encode(bytes.as_slice());
    assert(sealed@ == base64_text(bytes@));
    sealed
}

/// Opens a sealed text with a key.
pub fn decrypt(input: &str, key: &str) -> (r: Result<String>)
    ensures
        r is Ok <==> decryption(input@, key@) is Some,
        match r {
            Ok(text) => decryption(input@, key@) == Some(text@),
            Err(TranslationError::Base64Error(_)) => base64_bytes(input@) is None,
            Err(TranslationError::Argon2Error(_)) => base64_bytes(input@) is Some && opened(
                base64_bytes(input@)->0,
                encode_utf8(key@),
            ) is None,
            Err(TranslationError::Utf8Error(_)) => base64_bytes(input@) is Some && opened(
                base64_bytes(input@)->0,
                encode_utf8(key@),
            ) is Some && !valid_utf8(opened(base64_bytes(input@)->0, encode_utf8(key@))->0),
            Err(_) => false,
        },
{
    match decode(input) {
        Err(error) => Err(TranslationError::Base64Error(error)),
        Ok(sealed) => match open(sealed.as_slice(), key.as_bytes()) {
            Err(error) => Err(TranslationError::Argon2Error(error)),
            Ok(plain) => match text_of(plain) {
                Err(error) => Err(TranslationError::Utf8Error(error)),
                Ok(text) => Ok(text),
            },
        },
    }
}

/// Puts serialized data into an envelope beside its signature: the data
/// sealed under the key. The signature differs from call to call and always
/// opens under the key to the data.
pub fn sign(data: &str, key: &str) -> (signed: String)
    ensures
        signing(data@, key@, signed@),
{
    let signature = encrypt(data, key);
    let mut signed = String::from_str("{\"data\":");
    signed.append(data);
    signed.append(",\"sign\":\"");
    signed.append(signature.as_str());
    signed.append("\"}");
    assert(signed@ == envelope(data@, signature@));
    signed
}

/// Checks the signature of an envelope against its data, both as they were
/// read from it and the data serialized once more: the signature has to open
/// under the key to exactly the data.
pub fn verify(data: &str, signature: &str, key: &str) -> (r: Result<()>)
    ensures
        r is Ok <==> decryption(signature@, key@) == Some(data@),
        r matches Err(error) ==> error matches TranslationError::VerificationError(text) && text@
            == match decryption(signature@, key@) {
            None => wrong_key_text(key@, signature@),
            Some(decrypted) => wrong_data_text(decrypted, data@),
        },
{
    match decrypt(signature, key) {
        Err(_) => {
            let mut text = String::from_str("Key ");
            text.append(key);
            text.append(" incorrect for decrypting sign ");
            text.append(signature);
            Err(TranslationError::VerificationError(text))
        },
        Ok(decrypted) => {
            if decrypted == data.to_owned() {
                Ok(())
            } else {
                let mut text = String::from_str("Decrypted sign ");
                text.append(decrypted.as_str());
                text.append(" does not equal the data: ");
                text.append(data);
                Err(TranslationError::VerificationError(text))
            }
        },
    }
}

/// Whatever sealing a text under a key gives, decrypting it with that key
/// gives the text back.
pub proof fn sealed_text_decrypts(data: Seq<char>, key: Seq<char>, sealed: Seq<char>)
    requires
        sealing(data, key, sealed),
    ensures
        decryption(sealed, key) == Some(data),
{
    broadcast use vstd::utf8::encode_utf8_valid_utf8, vstd::utf8::encode_utf8_decode_utf8;

}

/// Whatever signing data with a key gives, the signature in the envelope
/// opens under that key to the data, which is what verifying the
/// signature asks for.
pub proof fn signed_data_verifies(data: Seq<char>, key: Seq<char>, signed: Seq<char>)
    requires
        signing(data, key, signed),
    ensures
        exists|signature: Seq<char>|
            signed == #[trigger] envelope(data, signature) && decryption(signature, key) == Some(
                data,
            ),
{
    let signature = choose|signature: Seq<char>|
        signed == #[trigger] envelope(data, signature) && sealing(data, key, signature);
    sealed_text_decrypts(data, key, signature);
}

} // verus!
