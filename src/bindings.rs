//! Declarations of the outside items that the library calls, each with the
//! contract it is relied on for.

use vstd::prelude::*;

verus! {

/// A URL of the `url` crate; the library carries it to a worker unread.
#[verifier::external_type_specification]
#[verifier::external_body]
pub struct ExUrl(url::Url);

/// Relies on the derived `Clone` of `url::Url`: a copy of the same URL.
pub assume_specification[ <url::Url as Clone>::clone ](u: &url::Url) -> url::Url;

/// The sending side of an `async_channel` channel.
#[verifier::external_type_specification]
#[verifier::external_body]
#[verifier::reject_recursive_types(T)]
pub struct ExSender<T>(async_channel::Sender<T>);

/// The error of `async_channel::Sender::try_send`, which hands the message back.
#[verifier::external_type_specification]
#[verifier::external_body]
#[verifier::reject_recursive_types(T)]
pub struct ExTrySendError<T>(async_channel::TrySendError<T>);

/// The error of the `bcrypt` crate.
#[verifier::external_type_specification]
#[verifier::external_body]
pub struct ExBcryptError(bcrypt::BcryptError);

/// Relies on `async_channel::Sender::len`: the number of messages queued at
/// the moment of the call. Receivers drain the channel concurrently, so
/// nothing more is known of the value.
pub assume_specification<T>[ async_channel::Sender::<T>::len ](s: &async_channel::Sender<T>) -> usize;

/// Relies on `async_channel::Sender::try_send`: it never blocks; on an
/// unbounded channel it fails only once the channel is closed.
pub assume_specification<T>[ async_channel::Sender::<T>::try_send ](
    s: &async_channel::Sender<T>,
    msg: T,
) -> Result<(), async_channel::TrySendError<T>>;

/// The text that the standard base64 alphabet, with padding, gives for `bytes`.
pub uninterp spec fn base64_of(bytes: Seq<u8>) -> Seq<char>;

/// Relies on `rand::thread_rng` and `RngCore::fill_bytes`: 36 bytes from a
/// cryptographically secure generator.
#[verifier::external_body]
pub(crate) fn random_token_bytes() -> (r: [u8; 36]) {
    let mut bytes = [0u8; 36];
    rand::RngCore::fill_bytes(&mut rand::thread_rng(), &mut bytes);
    bytes
}

/// Relies on `base64::engine::general_purpose::STANDARD.encode`: the result
/// depends on the bytes alone.
#[verifier::external_body]
pub(crate) fn encode_base64(bytes: &[u8; 36]) -> (r: String)
    ensures
        r@ == base64_of(bytes@),
        r@.len() == 48,
{
    base64::Engine::encode(&base64::engine::general_purpose::STANDARD, bytes)
}

/// Relies on `uuid::Uuid::new_v4` and `Uuid::as_u128`: a random version-4
/// UUID, as its 128-bit number.
#[verifier::external_body]
pub(crate) fn new_uuid() -> (r: u128) {
    uuid::Uuid::new_v4().as_u128()
}

/// Relies on `bcrypt::hash` at `bcrypt::DEFAULT_COST`: the salt is random,
/// so nothing is known of the hash but that it is a `String` or an error.
#[verifier::external_body]
pub(crate) fn bcrypt_hash(password: &str) -> (r: Result<String, bcrypt::BcryptError>) {
    bcrypt::hash(password, bcrypt::DEFAULT_COST)
}

/// Whether `bcrypt::verify` accepts `password` against the stored `hash`.
pub uninterp spec fn bcrypt_accepts(password: Seq<char>, hash: Seq<char>) -> bool;

/// Whether `hash` is a bcrypt hash that `bcrypt::verify` can read: a known
/// version prefix, an allowed cost, and salt and digest in bcrypt's base64.
pub uninterp spec fn bcrypt_hash_ok(hash: Seq<char>) -> bool;

/// Relies on `bcrypt::verify`: whether it fails depends on the stored hash
/// alone, and where it does not, its answer depends on the password and the
/// stored hash alone.
#[verifier::external_body]
pub(crate) fn bcrypt_verify(password: &str, hash: &str) -> (r: Result<bool, bcrypt::BcryptError>)
    ensures
        r is Ok <==> bcrypt_hash_ok(hash@),
        r matches Ok(b) ==> b == bcrypt_accepts(password@, hash@),
{
    bcrypt::verify(password, hash)
}

/// The `i32` that `str::parse` reads from the text, if any.
pub uninterp spec fn parsed_i32(s: Seq<char>) -> Option<i32>;

/// Relies on `str::parse::<i32>`: the result depends on the text alone.
#[verifier::external_body]
pub(crate) fn parse_i32(s: &str) -> (r: Option<i32>)
    ensures
        r == parsed_i32(s@),
{
    s.parse::<i32>().ok()
}

} // verus!
