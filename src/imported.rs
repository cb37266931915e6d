//! Types of the url and teloxide crates that values of this library carry.
use vstd::prelude::*;

verus! {

/// A parsed absolute URL, carried through to the webhook listener.
#[verifier::external_type_specification]
#[verifier::external_body]
pub struct ExUrl(url::Url);

/// Why a string is not a URL.
#[verifier::external_type_specification]
#[verifier::external_body]
pub struct ExUrlParseError(url::ParseError);

/// A failure of a request to the messaging provider.
#[verifier::external_type_specification]
#[verifier::external_body]
pub struct ExRequestError(teloxide::RequestError);

} // verus!
