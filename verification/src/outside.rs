//! Calls into outside crates, with what is claimed of each.
use lenso_auth_sdk::{
    ActorAssertion, ActorAssertionVerifier, ActorProjectionError, FixedClock, TypedActor,
    ACTOR_ASSERTION_EXTENSION,
};
use lenso_kernel::{CancellationToken, InvocationContext, SealedInvocationExtension};
use lenso_postgres_kit::{PlanError, SchemaPlan};
use sha2::{Digest, Sha256};
use std::collections::BTreeMap;
use time::{format_description::well_known::Rfc3339, OffsetDateTime};
use vstd::prelude::*;

use crate::auth::{SealedAssertion, SealedView, TemplateActor};
use crate::names;
use crate::text;

verus! {

/// A signed assertion about an actor.
#[verifier::external_type_specification]
#[verifier::external_body]
pub struct ExActorAssertion(ActorAssertion);

/// Why an actor cannot be read off an assertion.
#[verifier::external_type_specification]
#[verifier::external_body]
pub struct ExActorProjectionError(ActorProjectionError);

/// The context that a call arrives in.
#[verifier::external_type_specification]
#[verifier::external_body]
pub struct ExInvocationContext(InvocationContext);

/// Why a value cannot be written as JSON.
#[verifier::external_type_specification]
#[verifier::external_body]
pub struct ExJsonError(serde_json::Error);

/// The SHA-256 hash of some bytes.
pub uninterp spec fn sha256(data: Seq<u8>) -> Seq<u8>;

/// `sha2::Sha256::digest` hashes the bytes that it is given; the hash is 32 bytes long and depends
/// on those bytes alone.
#[verifier::external_body]
pub(crate) fn sha256_digest(data: &[u8]) -> (res: Vec<u8>)
    ensures
        res@ == sha256(data@),
        res@.len() == 32,
{
    Sha256::digest(data).to_vec()
}

/// The JSON object that has these members, in ascending order of their names.
pub uninterp spec fn json_object(members: Map<Seq<char>, Seq<char>>) -> Seq<u8>;

/// `serde_json::to_vec` on a `BTreeMap` of strings. It always succeeds, what it writes depends on
/// the members alone, and no other members are written as the same bytes.
#[verifier::external_body]
pub(crate) fn json_of_strings(members: Vec<(String, String)>) -> (res: Result<
    Vec<u8>,
    serde_json::Error,
>)
    requires
        names::named_once(members@),
    ensures
        res is Ok,
        res->Ok_0@ == json_object(names::pairs_map(members@)),
        forall|other: Map<Seq<char>, Seq<char>>|
            other.dom().finite() && #[trigger] json_object(other) == res->Ok_0@ ==> other
                == names::pairs_map(members@),
{
    serde_json::to_vec(&members.into_iter().collect::<BTreeMap<String, String>>())
}

/// A PostgreSQL schema that a plugin can own: up to 63 lower-case letters, digits and underscores,
/// a letter first, that is not one of PostgreSQL's own.
pub open spec fn owned_schema_name(name: Seq<char>) -> bool {
    &&& 1 <= name.len() <= 63
    &&& text::ascii_lowercase(name[0])
    &&& forall|i: int|
        0 <= i < name.len() ==> text::ascii_lowercase(#[trigger] name[i]) || text::ascii_digit(
            name[i],
        ) || name[i] == '_'
    &&& name != "public"@
    &&& name != "information_schema"@
    &&& !text::starts_with(name, "pg_"@)
}

/// `lenso_postgres_kit::SchemaPlan::new` reports an invalid schema name if and only if a plugin
/// cannot own a schema of that name, whatever the migrations are.
#[verifier::external_body]
pub(crate) fn owns_schema(schema: &str) -> (res: bool)
    ensures
        res == owned_schema_name(schema@),
{
    !matches!(SchemaPlan::new(schema, &[]), Err(PlanError::InvalidSchemaName { .. }))
}

/// The text is a public key for verifying signed assertions.
pub uninterp spec fn is_assertion_public_key(key: Seq<char>) -> bool;

/// `lenso_auth_sdk::ActorAssertionVerifier::from_public_key_base64` makes a verifier for an issuer
/// if and only if the key is an Ed25519 public key in URL-safe base64, whoever the issuer is.
#[verifier::external_body]
pub(crate) fn verifies_with(issuer: &str, key: &str) -> (res: bool)
    ensures
        res == is_assertion_public_key(key@),
{
    ActorAssertionVerifier::from_public_key_base64(issuer, key).is_ok()
}

impl TypedActor for TemplateActor {
    /// Reads `lenso_auth_sdk::ActorAssertion::subject` and `actor_kind`; nothing is claimed of
    /// them here.
    #[verifier::external_body]
    fn from_assertion(assertion: &ActorAssertion) -> (res: Result<Self, ActorProjectionError>) {
        Ok(
            TemplateActor {
                subject: assertion.subject().to_owned(),
                kind: assertion.actor_kind().to_owned(),
            },
        )
    }
}

/// The subject and kind of the actor that a sealed assertion proves, at a moment in nanoseconds
/// since 1970, to a target that trusts an issuer's key for an operation of a capability.
pub uninterp spec fn projected_actor(
    issuer: Seq<char>,
    key: Seq<char>,
    sealed_issuer: Seq<char>,
    audience: Seq<Seq<char>>,
    value: Seq<u8>,
    proof: Seq<char>,
    capability: Seq<char>,
    operation: Seq<char>,
    now: int,
) -> Option<(Seq<char>, Seq<char>)>;

/// The audience of an assertion that is good for an operation of a capability.
pub open spec fn audience_of(capability: Seq<char>, operation: Seq<char>) -> Seq<char> {
    capability + ":"@ + operation
}

/// `lenso_auth_sdk::ActorAssertionVerifier::project_context`, on a context that carries the sealed
/// assertion and nothing else, and a clock that stands at `now`. An actor comes out only if the key
/// is one, the assertion is sealed by the issuer, and its audience names the operation.
#[verifier::external_body]
pub(crate) fn project_actor(
    issuer: &str,
    key: &str,
    assertion: &SealedAssertion,
    capability: &str,
    operation: &str,
    now: i128,
) -> (res: Option<TemplateActor>)
    ensures
        (match res {
            Some(actor) => Some((actor.subject@, actor.kind@)),
            None => None,
        }) == projected_actor(
            issuer@,
            key@,
            assertion.issuer@,
            text::texts(assertion.audience@),
            assertion.value@,
            assertion.proof@,
            capability@,
            operation@,
            now as int,
        ),
        res is Some ==> {
            &&& is_assertion_public_key(key@)
            &&& assertion.issuer@ == issuer@
            &&& text::texts(assertion.audience@).contains(audience_of(capability@, operation@))
        },
{
    let verifier = ActorAssertionVerifier::from_public_key_base64(issuer, key).ok()?;
    let sealed = SealedInvocationExtension::signed(
        ACTOR_ASSERTION_EXTENSION,
        assertion.issuer.as_str(),
        assertion.audience.clone(),
        assertion.value.clone(),
        assertion.proof.as_str(),
    );
    let context = InvocationContext::new(1, None, CancellationToken::new());
    let context = context.with_sealed_extension(sealed).ok()?;
    let clock = FixedClock::new(OffsetDateTime::from_unix_timestamp_nanos(now).ok()?);
    verifier.project_context::<TemplateActor>(&context, capability, operation, &clock).ok()
}

/// The instance that a context names as its caller.
pub uninterp spec fn context_caller(context: InvocationContext) -> Option<Seq<char>>;

/// The sealed extensions that a context holds, by their keys.
pub uninterp spec fn context_seals(context: InvocationContext) -> Map<Seq<char>, SealedView>;

/// `lenso_kernel::InvocationContext::caller_instance` gives the instance that the context names as
/// its caller, if it names one.
#[verifier::external_body]
pub(crate) fn caller_of(context: &InvocationContext) -> (res: Option<String>)
    ensures
        text::optional(res) == context_caller(*context),
{
    context.caller_instance().map(str::to_owned)
}

/// `lenso_kernel::InvocationContext::sealed_extension` gives the sealed extension that the context
/// holds under a key, if it holds one.
#[verifier::external_body]
pub(crate) fn sealed_under(context: &InvocationContext, key: &str) -> (res: Option<SealedAssertion>)
    ensures
        match res {
            Some(sealed) => context_seals(*context).dom().contains(key@) && context_seals(
                *context,
            )[key@] == sealed@,
            None => !context_seals(*context).dom().contains(key@),
        },
{
    let sealed = context.sealed_extension(key)?;
    Some(
        SealedAssertion {
            issuer: sealed.issuer().to_owned(),
            audience: sealed.audience().to_vec(),
            value: sealed.value().to_vec(),
            proof: sealed.proof().to_owned(),
        },
    )
}

/// `time::OffsetDateTime::now_utc`, in nanoseconds since 1970. Nothing is said of the time.
#[verifier::external_body]
pub(crate) fn utc_now() -> (res: i128) {
    OffsetDateTime::now_utc().unix_timestamp_nanos()
}

/// A moment, in nanoseconds since 1970, in the form of RFC 3339 and in UTC.
pub uninterp spec fn rfc3339_text(nanos: int) -> Seq<char>;

/// The moment lies in a year that has four digits.
pub open spec fn four_digit_year(nanos: int) -> bool {
    -62_167_219_200_000_000_000 <= nanos <= 253_402_300_799_999_999_999
}

/// `time::OffsetDateTime::format` with `Rfc3339`, of a moment in UTC: it succeeds if and only if
/// the year has four digits, and what it writes depends on the moment alone.
#[verifier::external_body]
pub(crate) fn rfc3339(nanos: i128) -> (res: Option<String>)
    ensures
        match res {
            Some(written) => four_digit_year(nanos as int) && written@ == rfc3339_text(
                nanos as int,
            ),
            None => !four_digit_year(nanos as int),
        },
{
    OffsetDateTime::from_unix_timestamp_nanos(nanos).ok()?.format(&Rfc3339).ok()
}

} // verus!
