//! The profile file: where it lives, and how the profile's JSON text
//! becomes the file's bytes and back (through encryption when the profile
//! is encrypted). Reading and writing the file is left to the caller.

use vstd::prelude::*;
use vstd::utf8::{decode_utf8, encode_utf8, valid_utf8};
use crate::crypt::{decrypt_with_password, decrypted_with, encrypt_with_password, encrypted_with};
use crate::error::{ErrorKind, ThecaError};

verus! {

/// The file bytes of a profile's JSON text.
pub open spec fn sealed(text: Seq<char>, encrypted: bool, password: Seq<char>) -> Seq<u8> {
    if encrypted {
        encrypted_with(password, encode_utf8(text))
    } else {
        encode_utf8(text)
    }
}

/// The plain bytes held in a profile file: decrypted when encrypted.
pub open spec fn plain_bytes(bytes: Seq<u8>, encrypted: bool, password: Seq<char>) -> Option<Seq<u8>> {
    if encrypted {
        decrypted_with(password, bytes)
    } else {
        Some(bytes)
    }
}

pub open spec fn cipher_desc() -> Seq<char> {
    "SymmetricCipherError, that's bad."@
}

pub open spec fn utf8_desc() -> Seq<char> {
    "Error parsing invalid UTF8 characters."@
}

/// Relies on `String::from_utf8`: the text when the bytes are valid UTF-8,
/// else the error's message.
#[verifier::external_body]
fn utf8_text(bytes: Vec<u8>) -> (r: Result<String, String>)
    ensures
        r is Ok <==> valid_utf8(bytes@),
        r is Ok ==> r->Ok_0@ == decode_utf8(bytes@),
{
    match String::from_utf8(bytes) {
        Ok(s) => Ok(s),
        Err(e) => Err(e.to_string()),
    }
}

/// The bytes to write for a profile whose JSON text is `text`: its UTF-8
/// encoding, encrypted under the password when `encrypted`.
pub fn seal_contents(text: &str, encrypted: bool, password: &str) -> (r: Vec<u8>)
    ensures
        r@ == sealed(text@, encrypted, password@),
        r@.len() == 0 <==> text@.len() == 0,
{
    let bytes = text.as_bytes();
    if encrypted {
        encrypt_with_password(bytes, password)
    } else {
        vstd::slice::slice_to_vec(bytes)
    }
}

/// The JSON text held in the bytes of a profile file: decrypted under the
/// password when `encrypted`, then read as UTF-8. Fails with a cipher error
/// when decryption fails and with an encoding error when the bytes are not
/// UTF-8. Bytes written by `seal_contents` for a text, with the same flag
/// and password (they are empty exactly when the text is), give back that
/// text.
pub fn open_contents(bytes: Vec<u8>, encrypted: bool, password: &str) -> (r: Result<String, ThecaError>)
    ensures
        r is Ok <==> (plain_bytes(bytes@, encrypted, password@) matches Some(p) && valid_utf8(p)),
        r matches Ok(s) ==> plain_bytes(bytes@, encrypted, password@) == Some(encode_utf8(s@)),
        r matches Err(e) ==> e.kind == ErrorKind::GenericError,
        r matches Err(e) ==> (e.desc@ == cipher_desc() <==> plain_bytes(bytes@, encrypted, password@) is None),
        r matches Err(e) ==> (e.desc@ == utf8_desc() <==> plain_bytes(bytes@, encrypted, password@) is Some),
        forall|text: Seq<char>|
            #[trigger] sealed(text, encrypted, password@) == bytes@ && (text.len() == 0 <==> bytes@.len()
                == 0) ==> (r matches Ok(s) && s@ == text),
{
    proof {
        broadcast use vstd::utf8::encode_utf8_valid_utf8, vstd::utf8::encode_utf8_decode_utf8,
            vstd::utf8::decode_utf8_encode_utf8;
        reveal_strlit("SymmetricCipherError, that's bad.");
        reveal_strlit("Error parsing invalid UTF8 characters.");
        assert(cipher_desc() != utf8_desc()) by {
            assert(cipher_desc()[0] != utf8_desc()[0]);
        }
    }
    let plain = if encrypted {
        match decrypt_with_password(bytes.as_slice(), password) {
            Some(p) => p,
            None => {
                return Err(ThecaError::generic(String::from_str("SymmetricCipherError, that's bad.")));
            },
        }
    } else {
        bytes
    };
    let ghost p = plain@;
    match utf8_text(plain) {
        Ok(s) => Ok(s),
        Err(message) => Err(ThecaError {
            kind: ErrorKind::GenericError,
            desc: String::from_str("Error parsing invalid UTF8 characters."),
            detail: Some(message),
        }),
    }
}

/// The folder of the profiles: the explicit one when given, else `.theca`
/// in the home folder, else `.theca` in the current folder.
pub open spec fn profile_folder_spec(explicit: Seq<char>, home: Option<Seq<char>>) -> Seq<char> {
    if explicit.len() > 0 {
        explicit
    } else {
        match home {
            Some(h) => joined(h, ".theca"@),
            None => "./.theca"@,
        }
    }
}

/// `dir` and `name` joined by a single `/`.
pub open spec fn joined(dir: Seq<char>, name: Seq<char>) -> Seq<char> {
    if dir.len() > 0 && dir.last() == '/' {
        dir + name
    } else {
        dir + "/"@ + name
    }
}

/// Joins a folder and a name with a `/`, unless the folder ends in one.
pub fn join_path(dir: &str, name: &str) -> (r: String)
    ensures
        r@ == joined(dir@, name@),
{
    let n = dir.unicode_len();
    if n > 0 && dir.get_char(n - 1) == '/' {
        String::from_str(dir).concat(name)
    } else {
        String::from_str(dir).concat("/").concat(name)
    }
}

/// The folder of the profiles (see `profile_folder_spec`).
pub fn profile_folder(explicit: &str, home: Option<String>) -> (r: String)
    ensures
        r@ == profile_folder_spec(explicit@, match home { Some(h) => Some(h@), None => None }),
{
    if !explicit.is_empty() {
        String::from_str(explicit)
    } else {
        match home {
            Some(h) => join_path(h.as_str(), ".theca"),
            None => String::from_str("./.theca"),
        }
    }
}

/// The name of the profile to load: the explicit one, else `default`.
pub fn load_profile_name(explicit: &str) -> (r: String)
    ensures
        r@ == (if explicit@.len() > 0 { explicit@ } else { "default"@ }),
{
    if !explicit.is_empty() {
        String::from_str(explicit)
    } else {
        String::from_str("default")
    }
}

/// The name of the profile to save: the explicit one, else the name given
/// to a new profile, else `default`.
pub fn save_profile_name(explicit: &str, new_profile: bool, new_name: &str) -> (r: String)
    ensures
        r@ == (if explicit@.len() > 0 {
            explicit@
        } else if new_profile && new_name@.len() > 0 {
            new_name@
        } else {
            "default"@
        }),
{
    if !explicit.is_empty() {
        String::from_str(explicit)
    } else if new_profile && !new_name.is_empty() {
        String::from_str(new_name)
    } else {
        String::from_str("default")
    }
}

/// The file of a profile: `<folder>/<name>.json`.
pub fn profile_file(folder: &str, name: &str) -> (r: String)
    ensures
        r@ == joined(folder@, name@ + ".json"@),
{
    let file = String::from_str(name).concat(".json");
    join_path(folder, file.as_str())
}

/// Checks that a profile path names a regular file: fails with "not a
/// file" when something else is there and "does not exist" when nothing is.
pub fn check_profile_path(path: &str, exists: bool, is_file: bool) -> (r: Result<(), ThecaError>)
    ensures
        r is Ok <==> is_file,
        r matches Err(e) ==> e.is_generic(
            if exists { path@ + " is not a file."@ } else { path@ + " does not exist."@ },
        ),
{
    if is_file {
        Ok(())
    } else if exists {
        Err(ThecaError::generic(String::from_str(path).concat(" is not a file.")))
    } else {
        Err(ThecaError::generic(String::from_str(path).concat(" does not exist.")))
    }
}

/// The failure of a profile file whose text is not a profile's JSON.
pub fn invalid_json(path: &str) -> (r: ThecaError)
    ensures
        r.is_generic("Invalid JSON in "@ + path@),
{
    ThecaError::generic(String::from_str("Invalid JSON in ").concat(path))
}

/// The failure of a file read or write; its kind holds the system's message.
pub fn io_error(message: String) -> (r: ThecaError)
    ensures
        r.kind == ErrorKind::InternalIoError(message),
        r.desc@ == "An internal IO error ocurred."@,
        r.detail is None,
{
    ThecaError {
        kind: ErrorKind::InternalIoError(message),
        desc: String::from_str("An internal IO error ocurred."),
        detail: None,
    }
}

} // verus!
