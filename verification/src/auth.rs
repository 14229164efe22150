//! Who may do what.
use lenso_kernel::InvocationContext;
use vstd::prelude::*;

use crate::config::{ConfigView, NotificationTemplateConfig};
use crate::failure::RuntimeFailure;
use crate::identifier;
use crate::outside;
use crate::text;

verus! {

/// The capability that the plugin provides.
pub const CAPABILITY_ID: &'static str = "lenso.notification-template@1";

pub const CREATE_VERSION_OPERATION: &'static str = "create_version";

pub const ACTIVATE_VERSION_OPERATION: &'static str = "activate_version";

pub const GET_VERSION_OPERATION: &'static str = "get_version";

pub const LIST_VERSIONS_OPERATION: &'static str = "list_versions";

pub const PREVIEW_OPERATION: &'static str = "preview";

/// The key of the extension in which a context carries an assertion about an actor.
pub const ASSERTION_EXTENSION: &'static str = "lenso.auth.actor-assertion";

/// An assertion about an actor as a call carries it: sealed, and not verified yet.
#[derive(Clone, Debug)]
pub struct SealedAssertion {
    pub issuer: String,
    pub audience: Vec<String>,
    pub value: Vec<u8>,
    pub proof: String,
}

/// A [`SealedAssertion`] by its texts and bytes.
pub struct SealedView {
    pub issuer: Seq<char>,
    pub audience: Seq<Seq<char>>,
    pub value: Seq<u8>,
    pub proof: Seq<char>,
}

impl View for SealedAssertion {
    type V = SealedView;

    open spec fn view(&self) -> SealedView {
        SealedView {
            issuer: self.issuer@,
            audience: text::texts(self.audience@),
            value: self.value@,
            proof: self.proof@,
        }
    }
}

/// What is known of a call: the plugin instance that makes it, the assertion that it carries, and
/// when it is judged, in nanoseconds since 1970.
#[derive(Clone, Debug)]
pub struct Call {
    pub caller: Option<String>,
    pub assertion: Option<SealedAssertion>,
    pub now: i128,
}

/// A [`Call`] by its texts.
pub struct CallView {
    pub caller: Option<Seq<char>>,
    pub assertion: Option<SealedView>,
    pub now: int,
}

impl View for Call {
    type V = CallView;

    open spec fn view(&self) -> CallView {
        CallView {
            caller: text::optional(self.caller),
            assertion: match self.assertion {
                Some(assertion) => Some(assertion@),
                None => None,
            },
            now: self.now as int,
        }
    }
}

/// The actor that an assertion proves.
#[derive(Clone, Debug)]
pub struct TemplateActor {
    pub subject: String,
    pub kind: String,
}

/// A [`TemplateActor`] by its texts.
pub struct ActorView {
    pub subject: Seq<char>,
    pub kind: Seq<char>,
}

impl View for TemplateActor {
    type V = ActorView;

    open spec fn view(&self) -> ActorView {
        ActorView { subject: self.subject@, kind: self.kind@ }
    }
}

/// An administrator: the calling instance, and the actor on whose behalf it calls.
#[derive(Clone, Debug)]
pub struct AuthorizedAdmin {
    pub caller: String,
    pub subject: String,
}

/// An [`AuthorizedAdmin`] by its texts.
pub struct AdminView {
    pub caller: Seq<char>,
    pub subject: Seq<char>,
}

impl View for AuthorizedAdmin {
    type V = AdminView;

    open spec fn view(&self) -> AdminView {
        AdminView { caller: self.caller@, subject: self.subject@ }
    }
}

/// Why nobody is authorised.
#[derive(Clone, Copy, Debug, PartialEq, Eq, Structural)]
pub enum AuthorizationFailure {
    Unauthorized,
    Runtime(RuntimeFailure),
}

/// The caller is one of those allowed.
pub open spec fn allowed(caller: Option<Seq<char>>, callers: Seq<Seq<char>>) -> bool {
    caller matches Some(name) && callers.contains(name)
}

/// The actor that a call proves for an operation, to a plugin with this configuration.
pub open spec fn proven_actor(
    config: ConfigView,
    call: CallView,
    operation: Seq<char>,
) -> Option<ActorView> {
    match call.assertion {
        Some(assertion) => match outside::projected_actor(
            config.auth_issuer,
            config.auth_assertion_public_key,
            assertion.issuer,
            assertion.audience,
            assertion.value,
            assertion.proof,
            CAPABILITY_ID@,
            operation,
            call.now,
        ) {
            Some((subject, kind)) => Some(ActorView { subject, kind }),
            None => None,
        },
        None => None,
    }
}

/// The administrator who calls, given the actor that the call proves: the actor's subject is a
/// printable text of at most 256 bytes, and its kind is one of those configured.
pub open spec fn admitted(
    config: ConfigView,
    caller: Seq<char>,
    actor: Option<ActorView>,
) -> Result<AdminView, AuthorizationFailure> {
    match actor {
        Some(actor) => if identifier::opaque_text(actor.subject, 256)
            && config.admin_actor_kinds.contains(actor.kind) {
            Ok(AdminView { caller, subject: actor.subject })
        } else {
            Err(AuthorizationFailure::Unauthorized)
        },
        None => Err(AuthorizationFailure::Unauthorized),
    }
}

/// The administrator who calls: an allowed instance, on behalf of an actor whom the call proves for
/// the very operation.
pub open spec fn administrator(
    config: ConfigView,
    call: CallView,
    operation: Seq<char>,
) -> Result<AdminView, AuthorizationFailure> {
    if !allowed(call.caller, config.admin_callers) {
        Err(AuthorizationFailure::Unauthorized)
    } else if !outside::is_assertion_public_key(config.auth_assertion_public_key) {
        Err(AuthorizationFailure::Runtime(RuntimeFailure::InvalidVerificationKey))
    } else {
        admitted(config, call.caller->0, proven_actor(config, call, operation))
    }
}

/// The call carries an assertion that is sealed by the configured issuer for the operation.
pub open spec fn bound_to(config: ConfigView, call: CallView, operation: Seq<char>) -> bool {
    &&& outside::is_assertion_public_key(config.auth_assertion_public_key)
    &&& call.assertion matches Some(assertion)
    &&& assertion.issuer == config.auth_issuer
    &&& assertion.audience.contains(outside::audience_of(CAPABILITY_ID@, operation))
}

/// `res` is `expected`, by its texts.
pub open spec fn is_admission(
    res: Result<AuthorizedAdmin, AuthorizationFailure>,
    expected: Result<AdminView, AuthorizationFailure>,
) -> bool {
    match res {
        Ok(admin) => expected == Ok::<AdminView, AuthorizationFailure>(admin@),
        Err(failure) => expected == Err::<AdminView, AuthorizationFailure>(failure),
    }
}

/// Whether a caller is one of those allowed.
pub fn caller_allowed(caller: &Option<String>, callers: &Vec<String>) -> (res: bool)
    ensures
        res == allowed(text::optional(*caller), text::texts(callers@)),
{
    match caller {
        Some(name) => text::list_contains(callers, name.as_str()),
        None => false,
    }
}

/// The call that is made in a context and judged at a moment.
pub open spec fn call_in(context: InvocationContext, now: int) -> CallView {
    let seals = outside::context_seals(context);
    CallView {
        caller: outside::context_caller(context),
        assertion: if seals.dom().contains(ASSERTION_EXTENSION@) {
            Some(seals[ASSERTION_EXTENSION@])
        } else {
            None
        },
        now,
    }
}

/// The call that is made in a context, judged now. Nothing is stated of the time.
pub fn call_of(context: &InvocationContext) -> (res: Call)
    ensures
        res@ == call_in(*context, res.now as int),
{
    Call {
        caller: outside::caller_of(context),
        assertion: outside::sealed_under(context, ASSERTION_EXTENSION),
        now: outside::utc_now(),
    }
}

impl NotificationTemplateConfig {
    /// The administrator who calls, given the actor that the call proves.
    pub fn accept_actor(&self, caller: String, actor: Option<TemplateActor>) -> (res: Result<
        AuthorizedAdmin,
        AuthorizationFailure,
    >)
        ensures
            is_admission(
                res,
                admitted(
                    self@,
                    caller@,
                    match actor {
                        Some(actor) => Some(actor@),
                        None => None,
                    },
                ),
            ),
    {
        match actor {
            Some(actor) => {
                if !identifier::valid_opaque(actor.subject.as_str(), 256) || !text::list_contains(
                    &self.admin_actor_kinds,
                    actor.kind.as_str(),
                ) {
                    return Err(AuthorizationFailure::Unauthorized);
                }
                Ok(AuthorizedAdmin { caller, subject: actor.subject })
            },
            None => Err(AuthorizationFailure::Unauthorized),
        }
    }

    /// The administrator who makes a call for an operation.
    pub fn authorize_call(&self, call: &Call, operation: &str) -> (res: Result<
        AuthorizedAdmin,
        AuthorizationFailure,
    >)
        ensures
            is_admission(res, administrator(self@, call@, operation@)),
            res is Ok ==> bound_to(self@, call@, operation@),
    {
        if !caller_allowed(&call.caller, &self.admin_callers) {
            return Err(AuthorizationFailure::Unauthorized);
        }
        if let Err(failure) = self.check_key() {
            return Err(AuthorizationFailure::Runtime(failure));
        }
        let actor = match &call.assertion {
            Some(assertion) => outside::project_actor(
                self.auth_issuer.as_str(),
                self.auth_assertion_public_key.as_str(),
                assertion,
                CAPABILITY_ID,
                operation,
                call.now,
            ),
            None => None,
        };
        match &call.caller {
            Some(caller) => self.accept_actor(caller.clone(), actor),
            None => Err(AuthorizationFailure::Unauthorized),
        }
    }

    /// The administrator who calls in a context for an operation, judged now.
    pub fn authorize_admin(&self, context: &InvocationContext, operation: &str) -> (res: Result<
        AuthorizedAdmin,
        AuthorizationFailure,
    >)
        ensures
            exists|now: int|
                {
                    let call = #[trigger] call_in(*context, now);
                    &&& is_admission(res, administrator(self@, call, operation@))
                    &&& res is Ok ==> bound_to(self@, call, operation@)
                },
    {
        let call = call_of(context);
        self.authorize_call(&call, operation)
    }
}

/// An administrator is an allowed caller, on behalf of a proven actor of a configured kind.
pub proof fn law_administrators_are_allowed_and_proven(
    config: ConfigView,
    call: CallView,
    operation: Seq<char>,
    admin: AdminView,
)
    requires
        administrator(config, call, operation) == Ok::<AdminView, AuthorizationFailure>(admin),
    ensures
        call.caller == Some(admin.caller),
        config.admin_callers.contains(admin.caller),
        identifier::opaque_text(admin.subject, 256),
        proven_actor(config, call, operation) matches Some(actor) && actor.subject == admin.subject
            && config.admin_actor_kinds.contains(actor.kind),
{
}

/// A caller is an administrator for an operation if the configuration lists the calling instance,
/// its key is one, and the call's assertion proves to it, at the moment of the call and for that
/// operation of the plugin's capability, an actor of a configured kind with a printable subject;
/// and only then. The administrator is the calling instance, on behalf of the actor's subject.
pub proof fn law_who_is_an_administrator(
    config: ConfigView,
    call: CallView,
    operation: Seq<char>,
)
    ensures
        ({
            let result = administrator(config, call, operation);
            let listed = call.caller is Some && config.admin_callers.contains(call.caller->0);
            let key = outside::is_assertion_public_key(config.auth_assertion_public_key);
            let assertion = call.assertion->0;
            let actor = outside::projected_actor(
                config.auth_issuer,
                config.auth_assertion_public_key,
                assertion.issuer,
                assertion.audience,
                assertion.value,
                assertion.proof,
                "lenso.notification-template@1"@,
                operation,
                call.now,
            );
            let proven = call.assertion is Some && actor is Some;
            let (subject, kind) = actor->0;
            let accepted = identifier::opaque_text(subject, 256)
                && config.admin_actor_kinds.contains(kind);
            &&& !listed ==> result == Err::<AdminView, AuthorizationFailure>(
                AuthorizationFailure::Unauthorized,
            )
            &&& listed && !key ==> result == Err::<AdminView, AuthorizationFailure>(
                AuthorizationFailure::Runtime(RuntimeFailure::InvalidVerificationKey),
            )
            &&& listed && key && !(proven && accepted) ==> result == Err::<
                AdminView,
                AuthorizationFailure,
            >(AuthorizationFailure::Unauthorized)
            &&& listed && key && proven && accepted ==> result is Ok && result->Ok_0.caller
                == call.caller->0 && result->Ok_0.subject == subject
        }),
{
}

/// A call that is bound to an operation carries an assertion of the configured issuer whose
/// audience names the capability and the operation.
pub proof fn law_bound_calls_name_the_operation(
    config: ConfigView,
    call: CallView,
    operation: Seq<char>,
)
    requires
        bound_to(config, call, operation),
    ensures
        call.assertion is Some,
        call.assertion->0.issuer == config.auth_issuer,
        call.assertion->0.audience.contains(
            "lenso.notification-template@1"@ + ":"@ + operation,
        ),
        outside::is_assertion_public_key(config.auth_assertion_public_key),
{
}

/// The call that is made in a context names the context's caller and carries what the context keeps
/// under the key for assertions, if it keeps anything there.
pub proof fn law_calls_are_read_off_contexts(context: InvocationContext, now: int)
    ensures
        ({
            let call = call_in(context, now);
            let seals = outside::context_seals(context);
            let key = "lenso.auth.actor-assertion"@;
            &&& call.caller == outside::context_caller(context)
            &&& call.now == now
            &&& seals.dom().contains(key) ==> call.assertion == Some(seals[key])
            &&& !seals.dom().contains(key) ==> call.assertion is None
        }),
{
}

} // verus!
