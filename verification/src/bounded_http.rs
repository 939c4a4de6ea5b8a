//! Requests for JSON that neither follow redirects nor read without a bound.
use crate::credentials::Secret;
use crate::text::join2;
use vstd::prelude::*;

verus! {

/// Why a reply was not read: the network failed, or the reply was too large.
pub enum BoundedReadError {
    Network(String),
    TooLarge,
}

/// How many bytes to read, so that a reply over the limit can be told from one
/// that just reaches it.
pub fn read_limit(max: u64) -> (result: u64)
    requires
        max < u64::MAX,
    ensures
        result == max + 1,
{
    max + 1
}

/// The reply, where it could be read and keeps to the limit. `body` is what was
/// read of it, at most one byte over the limit.
pub fn read_bounded(body: Result<Vec<u8>, String>, max: u64) -> (result: Result<
    Vec<u8>,
    BoundedReadError,
>)
    ensures
        match body {
            Ok(bytes) => if bytes@.len() <= max {
                result == Ok::<Vec<u8>, BoundedReadError>(bytes)
            } else {
                result == Err::<Vec<u8>, BoundedReadError>(BoundedReadError::TooLarge)
            },
            Err(error) => result == Err::<Vec<u8>, BoundedReadError>(
                BoundedReadError::Network(error),
            ),
        },
{
    match body {
        Ok(bytes) => {
            if bytes.len() as u64 > max {
                Err(BoundedReadError::TooLarge)
            } else {
                Ok(bytes)
            }
        },
        Err(error) => Err(BoundedReadError::Network(error)),
    }
}

/// The headers of a request for JSON; a secret is sent only where there is one.
pub fn json_call(authorization: Option<&Secret>) -> (result: Vec<(&'static str, String)>)
    ensures
        result@.len() == (if authorization is Some {
            2nat
        } else {
            1nat
        }),
        result@[0].0@ == "Accept"@ && result@[0].1@ == "application/json"@,
        authorization matches Some(secret) ==> result@[1].0@ == "Authorization"@ && result@[1].1@
            == "Bearer "@ + secret.text(),
{
    let mut headers: Vec<(&'static str, String)> = Vec::new();
    headers.push(("Accept", "application/json".to_owned()));
    if let Some(secret) = authorization {
        headers.push(("Authorization", join2("Bearer ", secret.expose())));
    }
    headers
}

/// A reply is taken whole or not at all: one that is not longer than the limit is what was
/// read, and one that is longer is refused.
pub proof fn a_reply_is_taken_whole(
    body: Result<Vec<u8>, String>,
    max: u64,
    limit: u64,
    result: Result<Vec<u8>, BoundedReadError>,
)
    requires
        max < u64::MAX,
        call_ensures(read_limit, (max,), limit),
        call_ensures(read_bounded, (body, max), result),
    ensures
        body matches Ok(bytes) ==> {
            &&& bytes@.len() < limit ==> result is Ok && result->Ok_0@ == bytes@
            &&& bytes@.len() >= limit ==> result is Err && result->Err_0 is TooLarge
        },
        body matches Err(error) ==> result is Err && result->Err_0 == BoundedReadError::Network(
            error,
        ),
{
}

/// A credential goes into its own header, and only where there is one.
pub proof fn a_credential_goes_into_its_header(
    secret: Secret,
    with: Vec<(&'static str, String)>,
    without: Vec<(&'static str, String)>,
)
    requires
        call_ensures(json_call, (Some(&secret),), with),
        call_ensures(json_call, (None,), without),
    ensures
        with@.len() == 2 && without@.len() == 1,
        with@[1].0@ == "Authorization"@ && with@[1].1@ == "Bearer "@ + secret.text(),
        with@[0].0@ == without@[0].0@ && with@[0].1@ == without@[0].1@,
        without@[0].0@ == "Accept"@ && without@[0].1@ == "application/json"@,
{
}

} // verus!
