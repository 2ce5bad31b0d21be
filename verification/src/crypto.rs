//! Stored texts are sealed with AES-256-GCM: a version mark, then the nonce
//! and the ciphertext in base64.

use aes_gcm::aead::rand_core::RngCore;
use aes_gcm::aead::{Aead, KeyInit, OsRng};
use base64::Engine;
use vstd::prelude::*;
use vstd::string::*;
use vstd::utf8::{decode_utf8, encode_utf8, valid_utf8};

use crate::text::{
    chars_of, concat2, from_utf8, opt_view, str_view, string_of, strip_prefix, strip_prefix_chars,
    utf8_error,
};

verus! {

/// What `Aead::encrypt` of AES-256-GCM returns, `None` standing for its error.
pub uninterp spec fn sealed(key: Seq<u8>, nonce: Seq<u8>, plaintext: Seq<u8>) -> Option<Seq<u8>>;

/// What `Aead::decrypt` of AES-256-GCM returns, `None` standing for its error.
pub uninterp spec fn opened(key: Seq<u8>, nonce: Seq<u8>, ciphertext: Seq<u8>) -> Option<Seq<u8>>;

/// What `Engine::encode` of the standard base64 alphabet returns.
pub uninterp spec fn base64_text(bytes: Seq<u8>) -> Seq<char>;

/// What `Engine::decode` of the standard base64 alphabet returns: the bytes,
/// or the error's text.
pub uninterp spec fn base64_bytes(text: Seq<char>) -> Result<Seq<u8>, Seq<char>>;

/// The bytes of an optional result.
pub open spec fn opt_bytes(r: Option<Vec<u8>>) -> Option<Seq<u8>> {
    match r {
        Some(v) => Some(v@),
        None => None,
    }
}

/// Calls `Aead::encrypt`. It fails only on a plaintext of more than 2^36
/// bytes; the ciphertext is longer by the tag's sixteen bytes, and opening it
/// with the same key and nonce gives the plaintext back.
#[verifier::external_body]
fn seal(key: &[u8; 32], nonce: &[u8; 12], plaintext: &[u8]) -> (r: Option<Vec<u8>>)
    requires
        plaintext@.len() <= usize::MAX / 2,
    ensures
        opt_bytes(r) == sealed(key@, nonce@, plaintext@),
        r is Some <==> plaintext@.len() <= 0x10_0000_0000,
        r matches Some(c) ==> c@.len() == plaintext@.len() + 16,
        r matches Some(c) ==> opened(key@, nonce@, c@) == Some(plaintext@),
{
    aes_gcm::Aes256Gcm::new(key.into()).encrypt(nonce.into(), plaintext).ok()
}

/// Calls `Aead::decrypt`.
#[verifier::external_body]
fn open(key: &[u8; 32], nonce: &[u8; 12], ciphertext: &[u8]) -> (r: Option<Vec<u8>>)
    ensures
        opt_bytes(r) == opened(key@, nonce@, ciphertext@),
{
    aes_gcm::Aes256Gcm::new(key.into()).decrypt(nonce.into(), ciphertext).ok()
}

/// Whether a base64 text stands for the given bytes.
pub open spec fn decodes_to(text: Seq<char>, bytes: Seq<u8>) -> bool {
    base64_bytes(text) == Ok::<Seq<u8>, Seq<char>>(bytes)
}

/// Calls `Engine::encode`. Every three bytes, and what is left of them, become
/// four characters, and decoding the text gives the bytes back.
#[verifier::external_body]
fn base64_encode(bytes: &[u8]) -> (r: String)
    requires
        bytes@.len() <= usize::MAX / 2,
    ensures
        r@ == base64_text(bytes@),
        r@.len() == (bytes@.len() + 2) / 3 * 4,
        decodes_to(r@, bytes@),
{
    base64::engine::general_purpose::STANDARD.encode(bytes)
}

/// The bytes that a base64 text stands for, or the error's text.
pub open spec fn decoded_view(r: Result<Vec<u8>, String>) -> Result<Seq<u8>, Seq<char>> {
    match r {
        Ok(v) => Ok(v@),
        Err(e) => Err(e@),
    }
}

/// Calls `Engine::decode`.
#[verifier::external_body]
fn base64_decode(text: &str) -> (r: Result<Vec<u8>, String>)
    ensures
        decoded_view(r) == base64_bytes(text@),
{
    base64::engine::general_purpose::STANDARD.decode(text).map_err(|e| e.to_string())
}

/// Calls `RngCore::fill_bytes` of the operating system's generator. Nothing is
/// promised of the bytes.
#[verifier::external_body]
fn random_bytes<const N: usize>() -> (r: [u8; N]) {
    let mut bytes = [0u8; N];
    OsRng.fill_bytes(&mut bytes);
    bytes
}

/// The mark in front of a sealed text.
pub const VERSION_PREFIX: &'static str = "v1:";

/// Whether a text of so many bytes can be sealed: the cipher takes 2^36, and
/// the machine has to hold what it comes to.
pub open spec fn fits(len: nat) -> bool {
    len <= 0x10_0000_0000 && len + 28 <= usize::MAX / 2
}

/// The nonce and the ciphertext that a text is sealed to.
pub open spec fn combined(key: Seq<u8>, nonce: Seq<u8>, plaintext: Seq<char>) -> Seq<u8> {
    nonce + sealed(key, nonce, encode_utf8(plaintext))->0
}

/// Whether a stored text is what a text is sealed to under a key and a nonce:
/// the mark, then nonce and ciphertext in base64, which gives them back.
pub open spec fn is_sealed_under(
    stored: Seq<char>,
    key: Seq<u8>,
    nonce: Seq<u8>,
    plaintext: Seq<char>,
) -> bool {
    &&& sealed(key, nonce, encode_utf8(plaintext)) is Some
    &&& stored == VERSION_PREFIX@ + base64_text(combined(key, nonce, plaintext))
    &&& decodes_to(base64_text(combined(key, nonce, plaintext)), combined(key, nonce, plaintext))
}

/// What a stored text reads as. One without the mark was stored before texts
/// were sealed, and reads as itself.
pub open spec fn unsealed(key: Seq<u8>, stored: Seq<char>) -> Result<Seq<char>, Seq<char>> {
    match strip_prefix(stored, VERSION_PREFIX@) {
        None => Ok(stored),
        Some(encoded) => match base64_bytes(encoded) {
            Err(e) => Err("Corrupt encrypted value: "@ + e),
            Ok(combined) => if combined.len() < 12 {
                Err("Corrupt encrypted value: too short"@)
            } else {
                match opened(key, combined.take(12), combined.skip(12)) {
                    None => Err(
                        "Decryption failed (wrong key or corrupt data): aead::Error"@,
                    ),
                    Some(plaintext) => if valid_utf8(plaintext) {
                        Ok(decode_utf8(plaintext))
                    } else {
                        Err("Decrypted value is not valid UTF-8: "@ + utf8_error(plaintext))
                    },
                }
            },
        },
    }
}

/// The characters of a result or of its error.
pub open spec fn text_view(r: Result<String, String>) -> Result<Seq<char>, Seq<char>> {
    match r {
        Ok(s) => Ok(s@),
        Err(e) => Err(e@),
    }
}

fn extend(out: &mut Vec<u8>, more: &[u8])
    ensures
        final(out)@ == old(out)@ + more@,
{
    let mut i: usize = 0;
    while i < more.len()
        invariant
            i <= more@.len(),
            out@ == old(out)@ + more@.take(i as int),
        decreases more@.len() - i,
    {
        out.push(more[i]);
        assert(out@ =~= old(out)@ + more@.take(i + 1));
        i = i + 1;
    }
    assert(more@.take(i as int) == more@);
}

/// Seals a text with the given key and nonce: the mark, then nonce and
/// ciphertext in base64. What comes out reads, with the same key, as the text
/// that went in, and is longer than it.
pub fn encrypt_with(key: &[u8; 32], nonce: &[u8; 12], plaintext: &str) -> (r: Result<
    String,
    String,
>)
    ensures
        r is Ok <==> fits(encode_utf8(plaintext@).len()),
        r matches Ok(s) ==> is_sealed_under(s@, key@, nonce@, plaintext@),
        r matches Ok(s) ==> s@.len() > plaintext@.len(),
        r matches Ok(s) ==> unsealed(key@, s@) == Ok::<Seq<char>, Seq<char>>(plaintext@),
        r matches Err(e) ==> e@ == "Encryption failed: aead::Error"@,
{
    let bytes: &[u8] = plaintext.as_bytes();
    if bytes.len() > usize::MAX / 2 - 28 {
        return Err(String::from_str("Encryption failed: aead::Error"));
    }
    match seal(key, nonce, bytes) {
        Some(ciphertext) => {
            let mut combined: Vec<u8> = Vec::new();
            extend(&mut combined, nonce);
            extend(&mut combined, &ciphertext);
            assert(combined@ =~= nonce@ + ciphertext@);
            let encoded: String = base64_encode(&combined);
            let stored: String = concat2(VERSION_PREFIX, &encoded);
            proof {
                let p = VERSION_PREFIX@;
                assert(stored@.take(p.len() as int) =~= p);
                assert(stored@.skip(p.len() as int) =~= encoded@);
                assert(combined@.take(12) =~= nonce@);
                assert(combined@.skip(12) =~= ciphertext@);
                assert(combined@ == self::combined(key@, nonce@, plaintext@));
                a_text_has_no_more_characters_than_bytes(plaintext@);
                vstd::utf8::encode_utf8_valid_utf8(plaintext@);
                vstd::utf8::encode_utf8_decode_utf8(plaintext@);
            }
            Ok(stored)
        },
        None => Err(String::from_str("Encryption failed: aead::Error")),
    }
}

proof fn a_text_has_no_more_characters_than_bytes(s: Seq<char>)
    ensures
        s.len() <= encode_utf8(s).len(),
    decreases s.len(),
{
    if s.len() > 0 {
        a_text_has_no_more_characters_than_bytes(s.drop_first());
    }
}

/// Seals a text under a nonce drawn for it. What is stored is never the text
/// itself. Nothing is said of the nonce but its length: it is drawn at random.
pub fn encrypt(key: &[u8; 32], plaintext: &str) -> (r: Result<String, String>)
    ensures
        r is Ok <==> fits(encode_utf8(plaintext@).len()),
        r matches Ok(s) ==> exists|nonce: Seq<u8>|
            nonce.len() == 12 && is_sealed_under(s@, key@, nonce, plaintext@),
        r matches Ok(s) ==> s@ != plaintext@,
        r matches Ok(s) ==> unsealed(key@, s@) == Ok::<Seq<char>, Seq<char>>(plaintext@),
        r matches Ok(s) ==> strip_prefix(s@, VERSION_PREFIX@) is Some,
        r matches Err(e) ==> e@ == "Encryption failed: aead::Error"@,
{
    let nonce: [u8; 12] = random_bytes::<12>();
    let r: Result<String, String> = encrypt_with(key, &nonce, plaintext);
    proof {
        if r is Ok {
            let p = VERSION_PREFIX@;
            assert(r->Ok_0@.take(p.len() as int) =~= p);
        }
    }
    r
}

/// Whether a stored text is sealed, so that reading it takes the key.
pub fn is_sealed(stored: &str) -> (r: bool)
    ensures
        r == (strip_prefix(stored@, VERSION_PREFIX@) is Some),
{
    let chars: Vec<char> = chars_of(stored);
    strip_prefix_chars(&chars, VERSION_PREFIX).is_some()
}

/// Reads a stored text.
pub fn decrypt(key: &[u8; 32], stored: &str) -> (r: Result<String, String>)
    ensures
        text_view(r) == unsealed(key@, stored@),
{
    let chars: Vec<char> = chars_of(stored);
    let encoded: &[char] = match strip_prefix_chars(&chars, VERSION_PREFIX) {
        Some(rest) => rest,
        None => {
            return Ok(String::from_str(stored));
        },
    };
    let combined: Vec<u8> = match base64_decode(&string_of(encoded)) {
        Ok(bytes) => bytes,
        Err(e) => {
            return Err(concat2("Corrupt encrypted value: ", &e));
        },
    };
    if combined.len() < 12 {
        return Err(String::from_str("Corrupt encrypted value: too short"));
    }
    let mut nonce: [u8; 12] = [0u8; 12];
    let mut i: usize = 0;
    while i < 12
        invariant
            i <= 12,
            combined@.len() >= 12,
            nonce@.len() == 12,
            forall|k: int| 0 <= k < i ==> #[trigger] nonce@[k] == combined@[k],
        decreases 12 - i,
    {
        nonce[i] = combined[i];
        i = i + 1;
    }
    assert(nonce@ =~= combined@.take(12));
    let ciphertext: &[u8] = vstd::slice::slice_subrange(&combined, 12, combined.len());
    assert(ciphertext@ =~= combined@.skip(12));
    match open(key, &nonce, ciphertext) {
        Some(plaintext) => match from_utf8(plaintext) {
            Ok(text) => Ok(text),
            Err(e) => Err(concat2("Decrypted value is not valid UTF-8: ", &e)),
        },
        None => Err(
            String::from_str("Decryption failed (wrong key or corrupt data): aead::Error"),
        ),
    }
}

/// What an optional stored text reads as.
pub open spec fn unsealed_opt(key: Seq<u8>, stored: Option<Seq<char>>) -> Result<
    Option<Seq<char>>,
    Seq<char>,
> {
    match stored {
        None => Ok(None),
        Some(s) => match unsealed(key, s) {
            Ok(text) => Ok(Some(text)),
            Err(e) => Err(e),
        },
    }
}

/// The characters of an optional result or of its error.
pub open spec fn opt_text_view(r: Result<Option<String>, String>) -> Result<
    Option<Seq<char>>,
    Seq<char>,
> {
    match r {
        Ok(s) => Ok(opt_view(s)),
        Err(e) => Err(e@),
    }
}

/// Whether an optional text can be sealed.
pub open spec fn fits_opt(plaintext: Option<Seq<char>>) -> bool {
    match plaintext {
        Some(s) => fits(encode_utf8(s).len()),
        None => true,
    }
}

/// Seals a text if there is one.
pub fn encrypt_opt(key: &[u8; 32], plaintext: Option<&str>) -> (r: Result<Option<String>, String>)
    ensures
        r is Ok <==> fits_opt(str_view(plaintext)),
        r matches Ok(stored) ==> unsealed_opt(key@, opt_view(stored)) == Ok::<
            Option<Seq<char>>,
            Seq<char>,
        >(str_view(plaintext)),
        r matches Ok(stored) ==> (stored is Some <==> plaintext is Some),
        r matches Ok(Some(s)) ==> exists|nonce: Seq<u8>|
            nonce.len() == 12 && is_sealed_under(s@, key@, nonce, plaintext->0@),
        r matches Ok(Some(s)) ==> s@ != plaintext->0@,
        r matches Ok(Some(s)) ==> strip_prefix(s@, VERSION_PREFIX@) is Some,
        r matches Err(e) ==> e@ == "Encryption failed: aead::Error"@,
{
    match plaintext {
        Some(text) => match encrypt(key, text) {
            Ok(s) => Ok(Some(s)),
            Err(e) => Err(e),
        },
        None => Ok(None),
    }
}

/// Reads a stored text if there is one.
pub fn decrypt_opt(key: &[u8; 32], stored: Option<String>) -> (r: Result<Option<String>, String>)
    ensures
        opt_text_view(r) == unsealed_opt(key@, opt_view(stored)),
{
    match stored {
        Some(s) => match decrypt(key, &s) {
            Ok(text) => Ok(Some(text)),
            Err(e) => Err(e),
        },
        None => Ok(None),
    }
}

/// Whatever is sealed, and under whatever keys, two nonces give two texts: so
/// one text that is sealed twice is stored in two forms.
pub proof fn two_nonces_give_two_texts(
    first: Seq<char>,
    first_key: Seq<u8>,
    first_nonce: Seq<u8>,
    first_plaintext: Seq<char>,
    second: Seq<char>,
    second_key: Seq<u8>,
    second_nonce: Seq<u8>,
    second_plaintext: Seq<char>,
)
    requires
        is_sealed_under(first, first_key, first_nonce, first_plaintext),
        is_sealed_under(second, second_key, second_nonce, second_plaintext),
        first_nonce.len() == 12,
        second_nonce.len() == 12,
        first_nonce != second_nonce,
    ensures
        first != second,
{
    if first == second {
        let p = VERSION_PREFIX@;
        let a = combined(first_key, first_nonce, first_plaintext);
        let b = combined(second_key, second_nonce, second_plaintext);
        assert(first.skip(p.len() as int) =~= base64_text(a));
        assert(second.skip(p.len() as int) =~= base64_text(b));
        assert(a.take(12) =~= first_nonce);
        assert(b.take(12) =~= second_nonce);
    }
}

/// A text that was stored in the clear reads as itself, under any key.
pub proof fn plaintext_without_the_mark_reads_as_itself(key: Seq<u8>, stored: Seq<char>)
    requires
        strip_prefix(stored, VERSION_PREFIX@) is None,
    ensures
        unsealed(key, stored) == Ok::<Seq<char>, Seq<char>>(stored),
{
}

/// The key that the keychain's text stands for.
pub open spec fn key_of_text(encoded: Seq<char>) -> Result<Seq<u8>, Seq<char>> {
    match base64_bytes(encoded) {
        Err(e) => Err("Stored db encryption key is corrupt: "@ + e),
        Ok(bytes) => if bytes.len() == 32 {
            Ok(bytes)
        } else {
            Err("Stored db encryption key has the wrong length"@)
        },
    }
}

/// The bytes of a key or the characters of the error.
pub open spec fn key_view(r: Result<[u8; 32], String>) -> Result<Seq<u8>, Seq<char>> {
    match r {
        Ok(key) => Ok(key@),
        Err(e) => Err(e@),
    }
}

/// Reads the key from the text that the keychain holds.
pub fn stored_key(encoded: &str) -> (r: Result<[u8; 32], String>)
    ensures
        key_view(r) == key_of_text(encoded@),
{
    match base64_decode(encoded) {
        Err(e) => Err(concat2("Stored db encryption key is corrupt: ", &e)),
        Ok(bytes) => {
            if bytes.len() != 32 {
                return Err(String::from_str("Stored db encryption key has the wrong length"));
            }
            let mut key: [u8; 32] = [0u8; 32];
            let mut i: usize = 0;
            while i < 32
                invariant
                    i <= 32,
                    bytes@.len() == 32,
                    key@.len() == 32,
                    forall|k: int| 0 <= k < i ==> #[trigger] key@[k] == bytes@[k],
                decreases 32 - i,
            {
                key[i] = bytes[i];
                i = i + 1;
            }
            assert(key@ =~= bytes@);
            Ok(key)
        },
    }
}

/// The text that a key is kept as in the keychain. Reading it gives the key
/// back.
pub fn key_text(key: &[u8; 32]) -> (r: String)
    ensures
        r@ == base64_text(key@),
        key_of_text(r@) == Ok::<Seq<u8>, Seq<char>>(key@),
{
    base64_encode(key)
}

/// The key that stored texts are sealed with, given what the keychain holds: a
/// key it has is read, and where it has none a new one is drawn at random,
/// along with the text to keep it as. Nothing is said of a new key but that
/// this text gives it back.
pub fn get_or_create_key(stored: Option<&str>) -> (r: Result<([u8; 32], Option<String>), String>)
    ensures
        match stored {
            Some(encoded) => match r {
                Ok((key, kept)) => key_of_text(encoded@) == Ok::<Seq<u8>, Seq<char>>(key@)
                    && kept is None,
                Err(e) => key_of_text(encoded@) == Err::<Seq<u8>, Seq<char>>(e@),
            },
            None => match r {
                Ok((key, kept)) => kept is Some && key_of_text(kept->0@) == Ok::<
                    Seq<u8>,
                    Seq<char>,
                >(key@),
                Err(_) => false,
            },
        },
{
    match stored {
        Some(encoded) => match stored_key(encoded) {
            Ok(key) => Ok((key, None)),
            Err(e) => Err(e),
        },
        None => {
            let key: [u8; 32] = random_bytes::<32>();
            let text: String = key_text(&key);
            Ok((key, Some(text)))
        },
    }
}

/// A sealed text reads as what the cipher opens it to, under the nonce in front
/// of it; what cannot be opened, or is no text, does not read.
pub proof fn a_sealed_text_reads_as_what_it_opens_to(
    key: Seq<u8>,
    encoded: Seq<char>,
    nonce: Seq<u8>,
    ciphertext: Seq<u8>,
    text: Seq<char>,
)
    requires
        nonce.len() == 12,
        decodes_to(encoded, nonce + ciphertext),
    ensures
        opened(key, nonce, ciphertext) == Some(encode_utf8(text)) ==> unsealed(
            key,
            VERSION_PREFIX@ + encoded,
        ) == Ok::<Seq<char>, Seq<char>>(text),
        opened(key, nonce, ciphertext) is None ==> unsealed(key, VERSION_PREFIX@ + encoded) is Err,
        opened(key, nonce, ciphertext) matches Some(bytes) ==> (!valid_utf8(bytes) ==> unsealed(
            key,
            VERSION_PREFIX@ + encoded,
        ) is Err),
{
    let stored = VERSION_PREFIX@ + encoded;
    let n = VERSION_PREFIX@.len() as int;
    assert(stored.take(n) =~= VERSION_PREFIX@);
    assert(stored.skip(n) =~= encoded);
    assert((nonce + ciphertext).take(12) =~= nonce);
    assert((nonce + ciphertext).skip(12) =~= ciphertext);
    vstd::utf8::encode_utf8_valid_utf8(text);
    vstd::utf8::encode_utf8_decode_utf8(text);
}

/// An optional text is read where it is there, and only then; a key has thirty
/// two bytes.
pub proof fn an_optional_text_is_read_where_it_is_there(
    key: Seq<u8>,
    stored: Seq<char>,
    bytes: Seq<u8>,
)
    ensures
        unsealed_opt(key, None) == Ok::<Option<Seq<char>>, Seq<char>>(None),
        unsealed(key, stored) matches Ok(text) ==> unsealed_opt(key, Some(stored)) == Ok::<
            Option<Seq<char>>,
            Seq<char>,
        >(Some(text)),
        unsealed(key, stored) matches Err(e) ==> unsealed_opt(key, Some(stored)) == Err::<
            Option<Seq<char>>,
            Seq<char>,
        >(e),
        decodes_to(stored, bytes) && bytes.len() == 32 ==> key_of_text(stored) == Ok::<
            Seq<u8>,
            Seq<char>,
        >(bytes),
        decodes_to(stored, bytes) && bytes.len() != 32 ==> key_of_text(stored) is Err,
{
}

} // verus!
