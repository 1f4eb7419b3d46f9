//! The master key.
use vstd::prelude::*;

verus! {

/// How many bytes the master key has.
pub const KEY_LENGTH: usize = 32;

/// What the standard engine of the `base64` crate decodes a text to; `None` where it refuses it.
pub uninterp spec fn base64_decoded(text: Seq<char>) -> Option<Seq<u8>>;

/// What optional bytes are.
pub open spec fn bytes_option(bytes: Option<Vec<u8>>) -> Option<Seq<u8>> {
    match bytes {
        Some(b) => Some(b@),
        None => None,
    }
}

/// The first bytes of the key are those given, as far as they go; the others are zero.
pub open spec fn fitted(bytes: Seq<u8>) -> Seq<u8> {
    Seq::new(
        KEY_LENGTH as nat,
        |i: int|
            if i < bytes.len() {
                bytes[i]
            } else {
                0u8
            },
    )
}

/// The bytes that a text for the master key stands for: those that it encodes or, where it is not
/// base64, its own.
pub open spec fn key_material(text: Seq<char>) -> Seq<u8> {
    match base64_decoded(text) {
        Some(bytes) => bytes,
        None => vstd::utf8::encode_utf8(text),
    }
}

/// `base64::Engine::decode` of the engine `STANDARD`: what it gives, or that it fails, is
/// `base64_decoded` of the text; the empty text decodes to no bytes.
#[verifier::external_body]
fn decode_base64(text: &str) -> (bytes: Option<Vec<u8>>)
    ensures
        bytes_option(bytes) == base64_decoded(text@),
        text@.len() == 0 ==> bytes_option(bytes) == Some(Seq::<u8>::empty()),
{
    base64::Engine::decode(&base64::engine::general_purpose::STANDARD, text).ok()
}

/// Brings bytes to the length of a key.
pub fn fit_key(bytes: Vec<u8>) -> (key: Vec<u8>)
    ensures
        key@ == fitted(bytes@),
{
    let mut key: Vec<u8> = Vec::new();
    let mut i: usize = 0;
    while i < KEY_LENGTH
        invariant
            i <= KEY_LENGTH,
            key@ == fitted(bytes@).take(i as int),
        decreases KEY_LENGTH - i,
    {
        let byte: u8 = if i < bytes.len() {
            bytes[i]
        } else {
            0
        };
        key.push(byte);
        assert(key@ =~= fitted(bytes@).take(i + 1));
        i += 1;
    }
    assert(fitted(bytes@).take(KEY_LENGTH as int) =~= fitted(bytes@));
    key
}

/// The key for a text and what it decodes to, where it does.
pub fn key_from(decoded: Option<Vec<u8>>, input: &str) -> (key: Vec<u8>)
    ensures
        key@ == fitted(
            match decoded {
                Some(bytes) => bytes@,
                None => vstd::utf8::encode_utf8(input@),
            },
        ),
{
    match decoded {
        Some(bytes) => fit_key(bytes),
        None => fit_key(input.as_bytes_vec()),
    }
}

/// The master key that a text stands for.
pub fn master_key(input: &str) -> (key: Vec<u8>)
    ensures
        key@ == fitted(key_material(input@)),
        input@.len() == 0 ==> key@ == fitted(Seq::<u8>::empty()),
{
    key_from(decode_base64(input), input)
}

/// A key always has its length, whatever it is made of.
pub proof fn law_key_has_its_length(bytes: Seq<u8>)
    ensures
        fitted(bytes).len() == 32,
{
}

/// Bytes of the length of a key are the key.
pub proof fn law_full_key_is_kept(bytes: Seq<u8>)
    requires
        bytes.len() == 32,
    ensures
        fitted(bytes) == bytes,
{
    assert(fitted(bytes) =~= bytes);
}

/// Zeros at the end make no other key.
pub proof fn law_trailing_zeros_do_not_matter(bytes: Seq<u8>, zeros: nat)
    ensures
        fitted(bytes + Seq::new(zeros, |i: int| 0u8)) == fitted(bytes),
{
    assert(fitted(bytes + Seq::new(zeros, |i: int| 0u8)) =~= fitted(bytes));
}

/// What lies beyond the length of a key does not matter.
pub proof fn law_excess_bytes_do_not_matter(bytes: Seq<u8>, more: Seq<u8>)
    requires
        bytes.len() >= 32,
    ensures
        fitted(bytes + more) == fitted(bytes),
{
    assert(fitted(bytes + more) =~= fitted(bytes));
}

/// A key has 32 bytes: those given, as far as they go, and zeros.
pub proof fn law_key_is_the_bytes_given(bytes: Vec<u8>, key: Vec<u8>)
    requires
        call_ensures(fit_key, (bytes,), key),
    ensures
        key@.len() == 32,
        forall|i: int| 0 <= i < 32 && i < bytes@.len() ==> #[trigger] key@[i] == bytes@[i],
        forall|i: int| bytes@.len() <= i < 32 ==> #[trigger] key@[i] == 0,
{
}

/// The key for a text that was decoded, or could not be, has 32 bytes: those that it was decoded to,
/// or else the text's own, as far as they go, and zeros.
pub proof fn law_key_is_what_was_decoded(
    decoded: Option<Vec<u8>>,
    input: &str,
    material: Seq<u8>,
    key: Vec<u8>,
)
    requires
        call_ensures(key_from, (decoded, input), key),
        decoded matches Some(bytes) ==> material == bytes@,
        decoded is None ==> material == vstd::utf8::encode_utf8(input@),
    ensures
        key@.len() == 32,
        forall|i: int| 0 <= i < 32 && i < material.len() ==> #[trigger] key@[i] == material[i],
        forall|i: int| material.len() <= i < 32 ==> #[trigger] key@[i] == 0,
{
}

/// The master key has 32 bytes: those that its text encodes, or else the text's own, as far as they
/// go, and zeros; so the key of the empty text is all zeros.
pub proof fn law_master_key_is_what_its_text_stands_for(
    input: &str,
    material: Seq<u8>,
    key: Vec<u8>,
)
    requires
        call_ensures(master_key, (input,), key),
        base64_decoded(input@) matches Some(bytes) ==> material == bytes,
        base64_decoded(input@) is None ==> material == vstd::utf8::encode_utf8(input@),
    ensures
        key@.len() == 32,
        forall|i: int| 0 <= i < 32 && i < material.len() ==> #[trigger] key@[i] == material[i],
        forall|i: int| material.len() <= i < 32 ==> #[trigger] key@[i] == 0,
        input@.len() == 0 ==> forall|i: int| 0 <= i < 32 ==> #[trigger] key@[i] == 0,
{
}

} // verus!
