use vstd::prelude::*;

verus! {

/// Relies on jwt_simple's HS256Key::from_bytes and
/// MACLike::authenticate: signs a claim set whose subject is the
/// given user id, valid for one day from now. Signing reads the
/// clock and refuses short keys, so nothing is promised of the
/// result; callers state what holds for every outcome.
#[verifier::external_body]
pub(crate) fn issue_token(secret: &str, pk: i32) -> Option<String> {
    let key = jwt_simple::prelude::HS256Key::from_bytes(secret.as_bytes());
    let claims = jwt_simple::prelude::Claims::create(jwt_simple::prelude::Duration::from_days(1))
        .with_subject(pk);
    jwt_simple::prelude::MACLike::authenticate(&key, claims).ok()
}

/// Relies on jwt_simple's HS256Key::from_bytes and
/// MACLike::verify_token: accepts only a token validly signed with
/// the same secret and not yet expired, and hands back its subject
/// claim read as a user id. Verification reads the clock, so nothing
/// is promised of the result; callers state what holds for every
/// outcome.
#[verifier::external_body]
pub(crate) fn verify_token(secret: &str, token: &str) -> Option<i32> {
    let key = jwt_simple::prelude::HS256Key::from_bytes(secret.as_bytes());
    let verified = jwt_simple::prelude::MACLike::verify_token::<
        jwt_simple::prelude::NoCustomClaims,
    >(&key, token, None);
    match verified {
        Ok(claims) => match claims.subject {
            Some(subject) => subject.parse::<i32>().ok(),
            None => None,
        },
        Err(_) => None,
    }
}

} // verus!
