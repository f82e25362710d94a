//! Detached Ed25519 signatures over tickets and model manifests, and the
//! public keys they are checked with.

use vstd::prelude::*;
use vstd::utf8::encode_utf8;
use crate::error::MemvidError;
use crate::error::SignatureFailure;
use crate::json::decimal_digits;
use crate::json::decimal_integer;
use crate::json::json_string;
use crate::json::push_decimal;
use crate::json::push_decimal_signed;
use crate::json::push_json_string;

verus! {

/// The version of the signed payloads' layout.
pub const SIGNING_SCHEMA_VERSION: u8 = 1;

/// The identifier of a memory: the sixteen bytes of its UUID.
#[derive(Clone, Copy, Debug, PartialEq, Eq)]
pub struct MemoryId {
    pub bytes: [u8; 16],
}

impl View for MemoryId {
    type V = Seq<u8>;

    open spec fn view(&self) -> Seq<u8> {
        self.bytes@
    }
}

impl MemoryId {
    /// The identifier whose bytes are all zero.
    pub fn nil() -> (res: Self)
        ensures
            res@ == Seq::new(16, |i: int| 0u8),
    {
        let res = MemoryId { bytes: [0u8; 16] };
        assert(res@ =~= Seq::new(16, |i: int| 0u8));
        res
    }

    /// The identifier with the given bytes.
    pub fn from_bytes(bytes: [u8; 16]) -> (res: Self)
        ensures
            res@ == bytes@,
    {
        MemoryId { bytes }
    }

    /// The bytes of the identifier.
    pub fn as_bytes(&self) -> (res: &[u8; 16])
        ensures
            res@ == self@,
    {
        &self.bytes
    }
}

/// The lower-case hexadecimal character for `value`, which is below sixteen.
pub open spec fn hex_char(value: nat) -> char
    recommends
        value < 16,
{
    if value < 10 {
        ((48 + value) as u8) as char
    } else {
        ((87 + value) as u8) as char
    }
}

/// Two lower-case hexadecimal characters for each of `bytes`.
pub open spec fn hex_pairs(bytes: Seq<u8>) -> Seq<char>
    decreases bytes.len(),
{
    if bytes.len() == 0 {
        Seq::empty()
    } else {
        hex_pairs(bytes.drop_last()) + seq![
            hex_char((bytes.last() / 16) as nat),
            hex_char((bytes.last() % 16) as nat),
        ]
    }
}

/// The hyphenated lower-case text of a UUID with the given sixteen bytes:
/// groups of 8, 4, 4, 4 and 12 hexadecimal characters.
pub open spec fn hyphenated(bytes: Seq<u8>) -> Seq<char>
    recommends
        bytes.len() == 16,
{
    hex_pairs(bytes.subrange(0, 4)) + seq!['-'] + hex_pairs(bytes.subrange(4, 6)) + seq!['-']
        + hex_pairs(bytes.subrange(6, 8)) + seq!['-'] + hex_pairs(bytes.subrange(8, 10)) + seq![
        '-',
    ] + hex_pairs(bytes.subrange(10, 16))
}

/// Formats sixteen bytes as `uuid::Uuid` does in its hyphenated form, which
/// is also the form in which a UUID is serialized to JSON. The contract
/// claims that the text is `hyphenated` of the bytes.
#[verifier::external_body]
fn uuid_hyphenated(bytes: &[u8; 16]) -> (res: String)
    ensures
        res@ == hyphenated(bytes@),
{
    uuid::Uuid::from_bytes(*bytes).hyphenated().to_string()
}

/// The canonical JSON that a ticket's signature is made over.
pub open spec fn ticket_message(
    memory_id: Seq<u8>,
    issuer: Seq<char>,
    seq_no: int,
    expires_in: nat,
    capacity_bytes: Option<nat>,
) -> Seq<u8> {
    encode_utf8("{\"version\":"@) + decimal_digits(SIGNING_SCHEMA_VERSION as nat) + encode_utf8(
        ",\"memory_id\":"@,
    ) + json_string(encode_utf8(hyphenated(memory_id))) + encode_utf8(",\"issuer\":"@)
        + json_string(encode_utf8(issuer)) + encode_utf8(",\"seq_no\":"@) + decimal_integer(seq_no)
        + encode_utf8(",\"expires_in\":"@) + decimal_digits(expires_in) + encode_utf8(
        ",\"capacity_bytes\":"@,
    ) + match capacity_bytes {
        Some(capacity) => decimal_digits(capacity),
        None => encode_utf8("null"@),
    } + encode_utf8("}"@)
}

/// The canonical JSON that a model manifest's signature is made over.
pub open spec fn model_message(
    name: Seq<char>,
    model_version: Seq<char>,
    checksum_hex: Seq<char>,
    size_bytes: nat,
) -> Seq<u8> {
    encode_utf8("{\"version\":"@) + decimal_digits(SIGNING_SCHEMA_VERSION as nat) + encode_utf8(
        ",\"name\":"@,
    ) + json_string(encode_utf8(name)) + encode_utf8(",\"model_version\":"@) + json_string(
        encode_utf8(model_version),
    ) + encode_utf8(",\"checksum\":"@) + json_string(encode_utf8(checksum_hex)) + encode_utf8(
        ",\"size_bytes\":"@,
    ) + decimal_digits(size_bytes) + encode_utf8("}"@)
}

/// Appends the UTF-8 bytes of `text` to `out`.
fn push_text(out: &mut Vec<u8>, text: &str)
    ensures
        final(out)@ == old(out)@ + encode_utf8(text@),
{
    out.extend_from_slice(text.as_bytes());
}

/// The bytes that the signature of a ticket covers: the compact JSON object
/// with the fields `version`, `memory_id`, `issuer`, `seq_no`, `expires_in`
/// and `capacity_bytes`, in this order.
pub fn ticket_message_bytes(
    memory_id: &MemoryId,
    issuer: &str,
    seq_no: i64,
    expires_in: u64,
    capacity_bytes: Option<u64>,
) -> (res: Result<Vec<u8>, MemvidError>)
    ensures
        res matches Ok(message) && message@ == ticket_message(
            memory_id@,
            issuer@,
            seq_no as int,
            expires_in as nat,
            match capacity_bytes {
                Some(capacity) => Some(capacity as nat),
                None => None,
            },
        ),
{
    let id_text = uuid_hyphenated(&memory_id.bytes);
    let mut out: Vec<u8> = Vec::new();
    push_text(&mut out, "{\"version\":");
    assert(out@ == encode_utf8("{\"version\":"@));
    push_decimal(&mut out, SIGNING_SCHEMA_VERSION as u64);
    push_text(&mut out, ",\"memory_id\":");
    push_json_string(&mut out, id_text.as_str());
    push_text(&mut out, ",\"issuer\":");
    push_json_string(&mut out, issuer);
    push_text(&mut out, ",\"seq_no\":");
    push_decimal_signed(&mut out, seq_no);
    push_text(&mut out, ",\"expires_in\":");
    push_decimal(&mut out, expires_in);
    push_text(&mut out, ",\"capacity_bytes\":");
    match capacity_bytes {
        Some(capacity) => push_decimal(&mut out, capacity),
        None => push_text(&mut out, "null"),
    }
    push_text(&mut out, "}");
    Ok(out)
}

/// The bytes that the signature of a model manifest covers: the compact JSON
/// object with the fields `version`, `name`, `model_version`, `checksum` and
/// `size_bytes`, in this order.
pub fn model_message_bytes(
    name: &str,
    model_version: &str,
    checksum_hex: &str,
    size_bytes: u64,
) -> (res: Result<Vec<u8>, MemvidError>)
    ensures
        res matches Ok(message) && message@ == model_message(
            name@,
            model_version@,
            checksum_hex@,
            size_bytes as nat,
        ),
{
    let mut out: Vec<u8> = Vec::new();
    push_text(&mut out, "{\"version\":");
    assert(out@ == encode_utf8("{\"version\":"@));
    push_decimal(&mut out, SIGNING_SCHEMA_VERSION as u64);
    push_text(&mut out, ",\"name\":");
    push_json_string(&mut out, name);
    push_text(&mut out, ",\"model_version\":");
    push_json_string(&mut out, model_version);
    push_text(&mut out, ",\"checksum\":");
    push_json_string(&mut out, checksum_hex);
    push_text(&mut out, ",\"size_bytes\":");
    push_decimal(&mut out, size_bytes);
    push_text(&mut out, "}");
    Ok(out)
}

/// Whether 32 bytes are the encoding of a point of the curve: whether
/// `ed25519_dalek::VerifyingKey::from_bytes` accepts them.
pub uninterp spec fn ed25519_key_decodes(key: Seq<u8>) -> bool;

/// Whether `ed25519_dalek::VerifyingKey::verify_strict` accepts a signature
/// of 64 bytes over `message` under the key with the given encoding.
pub uninterp spec fn ed25519_verifies(key: Seq<u8>, message: Seq<u8>, signature: Seq<u8>) -> bool;

/// What `base64`'s standard engine, with padding, decodes a text to; `None`
/// where it refuses the text.
pub uninterp spec fn base64_decoded(text: Seq<char>) -> Option<Seq<u8>>;

/// Decompresses a public key with `ed25519_dalek::VerifyingKey::from_bytes`
/// and says whether that succeeded. The result depends on the bytes alone.
#[verifier::external_body]
fn key_decodes(bytes: &[u8; 32]) -> (res: bool)
    ensures
        res == ed25519_key_decodes(bytes@),
{
    ed25519_dalek::VerifyingKey::from_bytes(bytes).is_ok()
}

/// Checks a signature with `ed25519_dalek::VerifyingKey::verify_strict`
/// under the key that `bytes` decode to. The result depends on the key, the
/// message and the signature alone.
#[verifier::external_body]
fn verify_strict(key: &[u8; 32], message: &[u8], signature: &[u8; 64]) -> (res: bool)
    requires
        ed25519_key_decodes(key@),
    ensures
        res == ed25519_verifies(key@, message@, signature@),
{
    match ed25519_dalek::VerifyingKey::from_bytes(key) {
        Ok(verifying_key) => verifying_key.verify_strict(
            message,
            &ed25519_dalek::Signature::from_bytes(signature),
        ).is_ok(),
        Err(_) => false,
    }
}

/// Decodes a text with `base64::engine::general_purpose::STANDARD`. The
/// result depends on the text alone.
#[verifier::external_body]
fn base64_decode(text: &str) -> (res: Option<Vec<u8>>)
    ensures
        res is Some <==> base64_decoded(text@) is Some,
        res matches Some(bytes) ==> base64_decoded(text@) == Some(bytes@),
{
    base64::Engine::decode(&base64::engine::general_purpose::STANDARD, text).ok()
}

/// Whether a character has the Unicode property White_Space.
pub open spec fn is_white_space(c: char) -> bool {
    let code = c as u32;
    ||| 0x09 <= code <= 0x0d
    ||| code == 0x20
    ||| code == 0x85
    ||| code == 0xa0
    ||| code == 0x1680
    ||| 0x2000 <= code <= 0x200a
    ||| code == 0x2028
    ||| code == 0x2029
    ||| code == 0x202f
    ||| code == 0x205f
    ||| code == 0x3000
}

/// `text` without the white space at its start.
pub open spec fn trimmed_start(text: Seq<char>) -> Seq<char>
    decreases text.len(),
{
    if text.len() > 0 && is_white_space(text.first()) {
        trimmed_start(text.drop_first())
    } else {
        text
    }
}

/// `text` without the white space at its end.
pub open spec fn trimmed_end(text: Seq<char>) -> Seq<char>
    decreases text.len(),
{
    if text.len() > 0 && is_white_space(text.last()) {
        trimmed_end(text.drop_last())
    } else {
        text
    }
}

/// `text` without the white space at its start and at its end.
pub open spec fn trimmed(text: Seq<char>) -> Seq<char> {
    trimmed_end(trimmed_start(text))
}

/// Removes leading and trailing white space with `str::trim`, for which
/// white space is what has the Unicode property White_Space.
#[verifier::external_body]
fn trim(text: &str) -> (res: &str)
    ensures
        res@ == trimmed(text@),
{
    text.trim()
}

/// An Ed25519 public key: 32 bytes that are known to decode to a point of
/// the curve.
#[derive(Clone, Copy, Debug, PartialEq, Eq)]
pub struct PublicKey {
    bytes: [u8; 32],
}

impl View for PublicKey {
    type V = Seq<u8>;

    closed spec fn view(&self) -> Seq<u8> {
        self.bytes@
    }
}

impl PublicKey {
    #[verifier::type_invariant]
    spec fn decodes(self) -> bool {
        ed25519_key_decodes(self.bytes@)
    }

    /// The key with the given encoding, if it is the encoding of a key.
    pub fn from_bytes(bytes: &[u8; 32]) -> (res: Option<PublicKey>)
        ensures
            res is Some <==> ed25519_key_decodes(bytes@),
            res matches Some(key) ==> key@ == bytes@,
    {
        if key_decodes(bytes) {
            Some(PublicKey { bytes: *bytes })
        } else {
            None
        }
    }

    /// The encoding of the key.
    pub fn as_bytes(&self) -> (res: &[u8; 32])
        ensures
            res@ == self@,
            ed25519_key_decodes(self@),
    {
        proof {
            use_type_invariant(self);
        }
        &self.bytes
    }
}

/// The signature in `bytes`, which must be exactly 64 of them.
pub fn to_signature(bytes: &[u8]) -> (res: Result<[u8; 64], SignatureFailure>)
    ensures
        bytes@.len() == 64 ==> (res matches Ok(signature) && signature@ == bytes@),
        bytes@.len() != 64 ==> res == Err::<[u8; 64], SignatureFailure>(
            SignatureFailure::SignatureLength,
        ),
{
    if bytes.len() != 64 {
        return Err(SignatureFailure::SignatureLength);
    }
    let mut signature = [0u8; 64];
    let mut i: usize = 0;
    while i < 64
        invariant
            i <= 64,
            bytes@.len() == 64,
            forall|j: int| 0 <= j < i ==> signature@[j] == bytes@[j],
        decreases 64 - i,
    {
        signature[i] = bytes[i];
        i += 1;
    }
    assert(signature@ =~= bytes@);
    Ok(signature)
}

/// How the check of a detached signature ends: it fails on a signature that
/// is not 64 bytes long, and on one that does not verify.
pub open spec fn signature_verdict(key: Seq<u8>, message: Seq<u8>, signature: Seq<u8>) -> Result<
    (),
    SignatureFailure,
> {
    if signature.len() != 64 {
        Err(SignatureFailure::SignatureLength)
    } else if ed25519_verifies(key, message, signature) {
        Ok(())
    } else {
        Err(SignatureFailure::Mismatch)
    }
}

/// Checks, strictly, that `signature_bytes` is the signature of `message`
/// under `verifying_key`.
pub fn verify_detached(verifying_key: &PublicKey, message: &[u8], signature_bytes: &[u8]) -> (res:
    Result<(), SignatureFailure>)
    ensures
        res == signature_verdict(verifying_key@, message@, signature_bytes@),
{
    let signature = match to_signature(signature_bytes) {
        Ok(signature) => signature,
        Err(reason) => {
            return Err(reason);
        },
    };
    if verify_strict(verifying_key.as_bytes(), message, &signature) {
        Ok(())
    } else {
        Err(SignatureFailure::Mismatch)
    }
}

/// Checks the signature of a ticket: it must be the signature, under
/// `verifying_key`, of the canonical JSON of the ticket's fields.
pub fn verify_ticket_signature(
    verifying_key: &PublicKey,
    memory_id: &MemoryId,
    issuer: &str,
    seq_no: i64,
    expires_in: u64,
    capacity_bytes: Option<u64>,
    signature_bytes: &[u8],
) -> (res: Result<(), MemvidError>)
    ensures
        res == match signature_verdict(
            verifying_key@,
            ticket_message(
                memory_id@,
                issuer@,
                seq_no as int,
                expires_in as nat,
                match capacity_bytes {
                    Some(capacity) => Some(capacity as nat),
                    None => None,
                },
            ),
            signature_bytes@,
        ) {
            Ok(()) => Ok::<(), MemvidError>(()),
            Err(reason) => Err(MemvidError::TicketSignatureInvalid { reason }),
        },
{
    let message = match ticket_message_bytes(
        memory_id,
        issuer,
        seq_no,
        expires_in,
        capacity_bytes,
    ) {
        Ok(message) => message,
        Err(e) => {
            return Err(e);
        },
    };
    match verify_detached(verifying_key, message.as_slice(), signature_bytes) {
        Ok(()) => Ok(()),
        Err(reason) => Err(MemvidError::TicketSignatureInvalid { reason }),
    }
}

/// Checks the signature of a model manifest: it must be the signature, under
/// `verifying_key`, of the canonical JSON of the manifest's fields.
pub fn verify_model_manifest(
    verifying_key: &PublicKey,
    name: &str,
    model_version: &str,
    checksum_hex: &str,
    size_bytes: u64,
    signature_bytes: &[u8],
) -> (res: Result<(), MemvidError>)
    ensures
        res == match signature_verdict(
            verifying_key@,
            model_message(name@, model_version@, checksum_hex@, size_bytes as nat),
            signature_bytes@,
        ) {
            Ok(()) => Ok::<(), MemvidError>(()),
            Err(reason) => Err(MemvidError::ModelSignatureInvalid { reason }),
        },
{
    let message = match model_message_bytes(name, model_version, checksum_hex, size_bytes) {
        Ok(message) => message,
        Err(e) => {
            return Err(e);
        },
    };
    match verify_detached(verifying_key, message.as_slice(), signature_bytes) {
        Ok(()) => Ok(()),
        Err(reason) => Err(MemvidError::ModelSignatureInvalid { reason }),
    }
}

/// What the bytes that a key's text decodes to are worth: a key where they
/// are 32 bytes that decode to a point of the curve.
pub open spec fn key_of_decoded(decoded: Option<Seq<u8>>) -> Result<Seq<u8>, MemvidError> {
    match decoded {
        None => Err(
            MemvidError::TicketSignatureInvalid { reason: SignatureFailure::KeyEncoding },
        ),
        Some(bytes) => if bytes.len() != 32 {
            Err(MemvidError::TicketSignatureInvalid { reason: SignatureFailure::KeyLength })
        } else if !ed25519_key_decodes(bytes) {
            Err(MemvidError::TicketSignatureInvalid { reason: SignatureFailure::KeyInvalid })
        } else {
            Ok(bytes)
        },
    }
}

/// The bytes in `decoded`, as a sequence.
pub open spec fn bytes_of(decoded: Option<Vec<u8>>) -> Option<Seq<u8>> {
    match decoded {
        Some(bytes) => Some(bytes@),
        None => None,
    }
}

/// The key that decoded bytes stand for: they must be 32 bytes that decode
/// to a point of the curve. `None` stands for a text that was not base64.
pub fn public_key_from_decoded(decoded: Option<Vec<u8>>) -> (res: Result<PublicKey, MemvidError>)
    ensures
        match res {
            Ok(key) => key_of_decoded(bytes_of(decoded)) == Ok::<
                Seq<u8>,
                MemvidError,
            >(key@),
            Err(e) => key_of_decoded(bytes_of(decoded)) == Err::<
                Seq<u8>,
                MemvidError,
            >(e),
        },
{
    let bytes = match decoded {
        Some(bytes) => bytes,
        None => {
            return Err(
                MemvidError::TicketSignatureInvalid { reason: SignatureFailure::KeyEncoding },
            );
        },
    };
    if bytes.len() != 32 {
        return Err(MemvidError::TicketSignatureInvalid { reason: SignatureFailure::KeyLength });
    }
    let mut array = [0u8; 32];
    let mut i: usize = 0;
    while i < 32
        invariant
            i <= 32,
            bytes@.len() == 32,
            forall|j: int| 0 <= j < i ==> array@[j] == bytes@[j],
        decreases 32 - i,
    {
        array[i] = bytes[i];
        i += 1;
    }
    assert(array@ =~= bytes@);
    match PublicKey::from_bytes(&array) {
        Some(key) => Ok(key),
        None => Err(MemvidError::TicketSignatureInvalid { reason: SignatureFailure::KeyInvalid }),
    }
}

/// Reads a public key from its base64 text. White space around the text is
/// ignored; the text must be standard base64 with padding, of 32 bytes that
/// decode to a point of the curve.
pub fn parse_ed25519_public_key_base64(encoded: &str) -> (res: Result<PublicKey, MemvidError>)
    ensures
        match res {
            Ok(key) => key_of_decoded(base64_decoded(trimmed(encoded@))) == Ok::<
                Seq<u8>,
                MemvidError,
            >(key@),
            Err(e) => key_of_decoded(base64_decoded(trimmed(encoded@))) == Err::<
                Seq<u8>,
                MemvidError,
            >(e),
        },
{
    public_key_from_decoded(base64_decode(trim(encoded)))
}

} // verus!
