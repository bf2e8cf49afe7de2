//! The optional cipher that hides a message before it is stored in a chunk.

use magic_crypt::{MagicCrypt256, MagicCryptError, MagicCryptTrait};
use vstd::prelude::*;

verus! {

/// The error of the cipher crate; nothing in it is read.
#[verifier::external_type_specification]
#[verifier::external_body]
pub struct ExMagicCryptError(MagicCryptError);

/// The Base64 text that `message` becomes under `key`: AES-256 in CBC mode
/// with PKCS#7 padding, the key being the SHA-256 of `key` and the
/// initialisation vector all zero.
pub uninterp spec fn encrypted_text(key: Seq<char>, message: Seq<char>) -> Seq<char>;

/// The message that the Base64 text `text` holds under `key`, if it holds
/// one: `text` must be Base64, decrypt to correctly padded blocks, and these
/// must be UTF-8.
pub uninterp spec fn decrypted_text(key: Seq<char>, text: Seq<char>) -> Option<Seq<char>>;

/// Builds a `magic_crypt::MagicCrypt256` from `key` with no initialisation
/// vector and calls its `encrypt_str_to_base64` on `message`. The result is
/// trusted to depend on the two texts alone.
#[verifier::external_body]
pub(crate) fn encrypt(key: &str, message: &str) -> (text: String)
    ensures
        text@ == encrypted_text(key@, message@),
{
    let crypt = MagicCrypt256::new(key, None::<String>);
    crypt.encrypt_str_to_base64(message)
}

/// Builds a `magic_crypt::MagicCrypt256` from `key` with no initialisation
/// vector and calls its `decrypt_base64_to_string` on `b64_string`. Whether
/// it succeeds, and with what, is trusted to depend on the two texts alone.
#[verifier::external_body]
pub(crate) fn decrypt(key: &str, b64_string: &str) -> (message: Result<String, MagicCryptError>)
    ensures
        message is Ok <==> decrypted_text(key@, b64_string@) is Some,
        message is Ok ==> message->Ok_0@ == decrypted_text(key@, b64_string@)->Some_0,
{
    let crypt = MagicCrypt256::new(key, None::<String>);
    crypt.decrypt_base64_to_string(b64_string)
}

} // verus!
