use std::collections::BTreeMap;

use lenso_auth_sdk::{audience, ActorAssertionIssuer, Validity, ACTOR_ASSERTION_EXTENSION};
use lenso_kernel::{CancellationToken, InvocationContext};
use notification_template::auth::{
    call_of, caller_allowed, AuthorizationFailure, Call, TemplateActor,
    ACTIVATE_VERSION_OPERATION, ASSERTION_EXTENSION, CAPABILITY_ID, CREATE_VERSION_OPERATION, GET_VERSION_OPERATION,
    LIST_VERSIONS_OPERATION, PREVIEW_OPERATION,
};
use notification_template::config::{
    validate_config, NotificationTemplateConfig, NotificationTemplateConfigError,
};
use notification_template::failure::{
    into_plugin, map_error, map_render_failure, DomainError, FailureClass, PluginError,
    RuntimeFailure, TemplateFailure,
};
use notification_template::plugin::NotificationTemplatePlugin;
use notification_template::records::{
    ActivateVersionRequest, CreateVersionRequest, GetVersionRequest, ListVersionsRequest,
    PreviewRequest, RenderRequest,
};
use notification_template::store::Progress;
use notification_template::syntax::RenderFailure;
use time::{Duration as TimeDuration, OffsetDateTime};

fn issuer() -> ActorAssertionIssuer {
    ActorAssertionIssuer::new("auth.users", b"notification-template-test-key")
}

fn config() -> NotificationTemplateConfig {
    NotificationTemplateConfig::new(
        "notification_templates".to_owned(),
        "notification-templates/database-url".to_owned(),
        "auth.users".to_owned(),
        issuer().public_key_base64(),
        vec!["notification-blue".to_owned()],
        vec!["template-admin-blue".to_owned()],
        vec!["user".to_owned(), "service_account".to_owned()],
        vec!["en".to_owned()],
    )
    .unwrap()
}

fn plugin() -> NotificationTemplatePlugin {
    NotificationTemplatePlugin {
        config: config(),
        prepared: false,
    }
}

fn context(caller: &str) -> InvocationContext {
    InvocationContext::new(1, None, CancellationToken::new()).with_caller_instance(caller)
}

fn admin_context(
    issuer: &ActorAssertionIssuer,
    caller: &str,
    kind: &str,
    operation: &str,
    from: TimeDuration,
    until: TimeDuration,
) -> InvocationContext {
    let now = OffsetDateTime::now_utc();
    issuer
        .issue(
            "usr_admin",
            kind,
            "strong",
            [audience(CAPABILITY_ID, operation)],
            Validity::new(now + from, now + until).unwrap(),
            BTreeMap::new(),
        )
        .attach(context(caller))
        .unwrap()
}

fn admin_call(operation: &str) -> Call {
    call_of(&admin_context(
        &issuer(),
        "template-admin-blue",
        "user",
        operation,
        -TimeDuration::seconds(1),
        TimeDuration::minutes(1),
    ))
}

#[test]
fn configuration_is_strict_and_authority_roles_are_disjoint() {
    assert_eq!(config().validate(), Ok(()));
    let mut invalid = config();
    invalid.admin_callers = invalid.render_callers.clone();
    assert_eq!(
        invalid.validate(),
        Err(NotificationTemplateConfigError::InvalidCallers)
    );
    let mut invalid = config();
    invalid.fallback_locales = vec!["EN_us".to_owned()];
    assert_eq!(
        invalid.validate(),
        Err(NotificationTemplateConfigError::InvalidLocales)
    );
}

#[test]
fn render_rejects_unknown_caller_before_storage() {
    let result = plugin().render(
        &call_of(&context("unknown")),
        RenderRequest {
            locale: "en".to_owned(),
            template_id: "organization-invitation".to_owned(),
            variables: Vec::new(),
            version: Some("v1".to_owned()),
        },
    );
    assert!(matches!(
        result,
        Progress::Done(Err(PluginError::Domain(DomainError::Unauthorized)))
    ));
}

#[test]
fn admin_assertion_is_issuer_signature_time_and_operation_bound() {
    let issuer = ActorAssertionIssuer::new("auth.users", b"notification-template-test-key");
    let now = OffsetDateTime::now_utc();
    let assertion = issuer.issue(
        "usr_admin",
        "user",
        "strong",
        [audience(CAPABILITY_ID, CREATE_VERSION_OPERATION)],
        Validity::new(
            now - TimeDuration::seconds(1),
            now + TimeDuration::minutes(1),
        )
        .unwrap(),
        BTreeMap::new(),
    );
    let context = assertion.attach(context("template-admin-blue")).unwrap();
    assert!(plugin()
        .config
        .authorize_admin(&context, CREATE_VERSION_OPERATION)
        .is_ok());
    assert!(matches!(
        plugin()
            .config
            .authorize_admin(&context, ACTIVATE_VERSION_OPERATION),
        Err(AuthorizationFailure::Unauthorized)
    ));
}

#[test]
fn an_administrator_is_named_by_caller_and_subject() {
    let admin = config()
        .authorize_call(&admin_call(CREATE_VERSION_OPERATION), CREATE_VERSION_OPERATION)
        .unwrap();
    assert_eq!(admin.caller, "template-admin-blue");
    assert_eq!(admin.subject, "usr_admin");
}

#[test]
fn assertions_are_bound_to_caller_issuer_key_kind_and_time() {
    let second = TimeDuration::seconds(1);
    let minute = TimeDuration::minutes(1);
    let good = issuer();
    let allowed = |context: &InvocationContext| {
        config()
            .authorize_admin(context, GET_VERSION_OPERATION)
            .is_ok()
    };
    let build = |issuer: &ActorAssertionIssuer, caller: &str, kind: &str, from, until| {
        admin_context(issuer, caller, kind, GET_VERSION_OPERATION, from, until)
    };
    let admin = "template-admin-blue";
    assert!(allowed(&build(&good, admin, "user", -second, minute)));
    assert!(allowed(&build(&good, admin, "service_account", -second, minute)));
    assert!(!allowed(&build(&good, admin, "robot", -second, minute)));
    assert!(!allowed(&build(&good, "notification-blue", "user", -second, minute)));
    assert!(!allowed(&build(&good, admin, "user", minute, minute + minute)));
    assert!(!allowed(&build(&good, admin, "user", -minute, -second)));
    let other_key = ActorAssertionIssuer::new("auth.users", b"another-key");
    assert!(!allowed(&build(&other_key, admin, "user", -second, minute)));
    let other_issuer =
        ActorAssertionIssuer::new("auth.other", b"notification-template-test-key");
    assert!(!allowed(&build(&other_issuer, admin, "user", -second, minute)));
    assert!(!allowed(&context(admin)));
    let nobody = InvocationContext::new(1, None, CancellationToken::new());
    assert!(!allowed(&nobody));
}

#[test]
fn a_call_is_read_off_its_context() {
    assert_eq!(ASSERTION_EXTENSION, ACTOR_ASSERTION_EXTENSION);
    let call = admin_call(PREVIEW_OPERATION);
    assert_eq!(call.caller.as_deref(), Some("template-admin-blue"));
    let assertion = call.assertion.unwrap();
    assert_eq!(assertion.issuer, "auth.users");
    assert_eq!(
        assertion.audience,
        vec!["lenso.notification-template@1:preview"]
    );
    let plain = call_of(&InvocationContext::new(1, None, CancellationToken::new()));
    assert!(plain.caller.is_none() && plain.assertion.is_none());
    assert!(plain.now >= call.now);
}

#[test]
fn the_moment_of_a_call_decides() {
    let call = admin_call(PREVIEW_OPERATION);
    let at = |now: i128| Call { now, ..call.clone() };
    let authorized = |call: &Call| config().authorize_call(call, PREVIEW_OPERATION).is_ok();
    let hour = 3_600_000_000_000;
    assert!(authorized(&call));
    assert!(!authorized(&at(call.now + hour)));
    assert!(!authorized(&at(call.now - hour)));
    assert!(!authorized(&at(i128::MAX)));
}

#[test]
fn a_tampered_assertion_is_refused() {
    let mut call = admin_call(PREVIEW_OPERATION);
    let assertion = call.assertion.as_mut().unwrap();
    let value = String::from_utf8(assertion.value.clone()).unwrap();
    assertion.value = value.replace("usr_admin", "usr_other").into_bytes();
    assert_eq!(
        config().authorize_call(&call, PREVIEW_OPERATION).err(),
        Some(AuthorizationFailure::Unauthorized)
    );
}

#[test]
fn a_proven_actor_is_accepted_or_not() {
    let actor = |subject: &str, kind: &str| {
        Some(TemplateActor {
            subject: subject.to_owned(),
            kind: kind.to_owned(),
        })
    };
    let accept = |actor| config().accept_actor("c".to_owned(), actor);
    let admin = accept(actor("usr", "user")).unwrap();
    assert_eq!((admin.caller.as_str(), admin.subject.as_str()), ("c", "usr"));
    for refused in [
        None,
        actor("", "user"),
        actor(" ", "user"),
        actor("a\nb", "user"),
        actor(&"a".repeat(257), "user"),
        actor("usr", "robot"),
    ] {
        assert_eq!(
            accept(refused).err(),
            Some(AuthorizationFailure::Unauthorized)
        );
    }
}

#[test]
fn a_broken_key_is_a_fault_of_the_configuration() {
    let mut broken = config();
    broken.auth_assertion_public_key = "not a key".to_owned();
    assert_eq!(
        broken.validate(),
        Err(NotificationTemplateConfigError::InvalidAuthPublicKey)
    );
    assert_eq!(
        broken.check_key().err(),
        Some(RuntimeFailure::InvalidVerificationKey)
    );
    let call = admin_call(PREVIEW_OPERATION);
    assert_eq!(
        broken.authorize_call(&call, PREVIEW_OPERATION).err(),
        Some(AuthorizationFailure::Runtime(
            RuntimeFailure::InvalidVerificationKey
        ))
    );
    let stranger = call_of(&context("unknown"));
    assert_eq!(
        broken.authorize_call(&stranger, PREVIEW_OPERATION).err(),
        Some(AuthorizationFailure::Unauthorized)
    );
}

#[test]
fn every_fault_of_a_configuration_is_told() {
    let fault = |change: fn(&mut NotificationTemplateConfig)| {
        let mut changed = config();
        change(&mut changed);
        let error = changed.validate().err();
        assert_eq!(
            validate_config(&changed).err(),
            error.map(RuntimeFailure::InvalidConfiguration)
        );
        error
    };
    assert_eq!(fault(|_| {}), None);
    for schema in [
        |c: &mut NotificationTemplateConfig| c.schema = "Upper".to_owned(),
        |c: &mut NotificationTemplateConfig| c.schema = String::new(),
        |c: &mut NotificationTemplateConfig| c.schema = "1a".to_owned(),
        |c: &mut NotificationTemplateConfig| c.schema = "public".to_owned(),
        |c: &mut NotificationTemplateConfig| c.schema = "information_schema".to_owned(),
        |c: &mut NotificationTemplateConfig| c.schema = "pg_x".to_owned(),
        |c: &mut NotificationTemplateConfig| c.schema = "a".repeat(64),
    ] {
        assert_eq!(
            fault(schema),
            Some(NotificationTemplateConfigError::InvalidSchema)
        );
    }
    assert_eq!(fault(|c| c.schema = "a".repeat(63)), None);
    assert_eq!(
        fault(|c| c.database_url_secret = "/x".to_owned()),
        Some(NotificationTemplateConfigError::InvalidSecretReference)
    );
    assert_eq!(
        fault(|c| c.auth_issuer = "a b".to_owned()),
        Some(NotificationTemplateConfigError::InvalidAuthIssuer)
    );
    assert_eq!(
        fault(|c| c.auth_assertion_public_key = String::new()),
        Some(NotificationTemplateConfigError::InvalidAuthPublicKey)
    );
    assert_eq!(
        fault(|c| c.render_callers.clear()),
        Some(NotificationTemplateConfigError::InvalidCallers)
    );
    for kinds in [
        |c: &mut NotificationTemplateConfig| c.admin_actor_kinds.clear(),
        |c: &mut NotificationTemplateConfig| c.admin_actor_kinds.push("user".to_owned()),
        |c: &mut NotificationTemplateConfig| c.admin_actor_kinds.push("robot".to_owned()),
    ] {
        assert_eq!(
            fault(kinds),
            Some(NotificationTemplateConfigError::InvalidActorKinds)
        );
    }
    for locales in [
        |c: &mut NotificationTemplateConfig| c.fallback_locales.clear(),
        |c: &mut NotificationTemplateConfig| c.fallback_locales.push("en".to_owned()),
        |c: &mut NotificationTemplateConfig| c.fallback_locales.push("en-us".to_owned()),
        |c: &mut NotificationTemplateConfig| {
            c.fallback_locales = (0..9).map(|i| format!("en-a{i}")).collect()
        },
    ] {
        assert_eq!(
            fault(locales),
            Some(NotificationTemplateConfigError::InvalidLocales)
        );
    }
    assert_eq!(
        fault(|c| c.fallback_locales = (0..8).map(|i| format!("en-a{i}")).collect()),
        None
    );
    // Of several faults the first is told.
    assert_eq!(
        fault(|c| {
            c.schema = String::new();
            c.fallback_locales.clear();
        }),
        Some(NotificationTemplateConfigError::InvalidSchema)
    );
}

#[test]
fn the_key_is_judged_apart_from_the_rest() {
    assert_eq!(config().validate_with_key(true), Ok(()));
    assert_eq!(
        config().validate_with_key(false),
        Err(NotificationTemplateConfigError::InvalidAuthPublicKey)
    );
}

#[test]
fn failures_are_put_into_words() {
    assert_eq!(
        NotificationTemplateConfigError::InvalidSchema.message(),
        "invalid owned PostgreSQL schema"
    );
    assert_eq!(
        NotificationTemplateConfigError::InvalidCallers.message(),
        "render and admin callers must be bounded, unique, exact, and disjoint"
    );
    let failure = RuntimeFailure::InvalidConfiguration(
        NotificationTemplateConfigError::InvalidLocales,
    );
    assert_eq!(failure.class(), FailureClass::InvalidResolvedPlan);
    assert_eq!(
        failure.detail(),
        "fallback locales must be unique canonical locale tags"
    );
    assert_eq!(RuntimeFailure::Database.class(), FailureClass::PluginFailure);
    assert_eq!(
        RuntimeFailure::NotPrepared.detail(),
        "Notification Template Plugin is not prepared"
    );
    assert_eq!(RuntimeFailure::Representation.class(), FailureClass::Internal);
    assert_eq!(
        RuntimeFailure::ReceiptOwnershipLost.detail(),
        "Notification Template command receipt completion lost ownership"
    );
}

#[test]
fn refusals_are_told_apart() {
    assert_eq!(map_error(TemplateFailure::NotFound), DomainError::NotFound);
    assert_eq!(
        map_error(TemplateFailure::PreconditionFailed),
        DomainError::PreconditionFailed
    );
    assert_eq!(
        map_render_failure(RenderFailure::InvalidTemplate),
        TemplateFailure::InvalidRequest
    );
    assert_eq!(
        map_render_failure(RenderFailure::MissingVariable),
        TemplateFailure::MissingVariable
    );
    assert_eq!(into_plugin(Ok(Ok(7))), Ok(7));
    assert_eq!(
        into_plugin::<u8>(Ok(Err(TemplateFailure::Conflict))),
        Err(PluginError::Domain(DomainError::Conflict))
    );
    assert_eq!(
        into_plugin::<u8>(Err(RuntimeFailure::Database)),
        Err(PluginError::Runtime(RuntimeFailure::Database))
    );
}

#[test]
fn callers_are_matched_exactly() {
    let list = vec!["a".to_owned(), "b".to_owned()];
    assert!(caller_allowed(&Some("b".to_owned()), &list));
    assert!(!caller_allowed(&Some("B".to_owned()), &list));
    assert!(!caller_allowed(&None, &list));
}

#[test]
fn strangers_reach_no_operation() {
    let unauthorized = Some(PluginError::Domain(DomainError::Unauthorized));
    // A caller who may render, with an assertion for another operation.
    let stranger = call_of(&admin_context(
        &issuer(),
        "notification-blue",
        "user",
        CREATE_VERSION_OPERATION,
        -TimeDuration::seconds(1),
        TimeDuration::minutes(1),
    ));
    let create = CreateVersionRequest {
        html_template: "h".to_owned(),
        idempotency_key: "k".to_owned(),
        locale: "en".to_owned(),
        subject_template: "s".to_owned(),
        template_id: "t".to_owned(),
        text_template: "t".to_owned(),
        version: "v".to_owned(),
    };
    match plugin().create_version(&stranger, create) {
        Progress::Done(result) => assert_eq!(result.err(), unauthorized),
        Progress::Ask(_) => panic!("the storage was asked"),
    }
    let activate = ActivateVersionRequest {
        expected_revision: "0".to_owned(),
        idempotency_key: "k".to_owned(),
        template_id: "t".to_owned(),
        version: "v".to_owned(),
    };
    match plugin().activate_version(&stranger, activate) {
        Progress::Done(result) => assert_eq!(result.err(), unauthorized),
        Progress::Ask(_) => panic!("the storage was asked"),
    }
    let get = GetVersionRequest {
        locale: "en".to_owned(),
        template_id: "t".to_owned(),
        version: "v".to_owned(),
    };
    match plugin().get_version(&stranger, get) {
        Progress::Done(result) => assert_eq!(result.err(), unauthorized),
        Progress::Ask(_) => panic!("the storage was asked"),
    }
    let list = ListVersionsRequest {
        count: 10,
        start_index: 1,
        template_id: None,
    };
    match plugin().list_versions(&stranger, list) {
        Progress::Done(result) => assert_eq!(result.err(), unauthorized),
        Progress::Ask(_) => panic!("the storage was asked"),
    }
    let preview = PreviewRequest {
        html_template: "<p>{{name}}</p>".to_owned(),
        locale: "en".to_owned(),
        subject_template: "s".to_owned(),
        template_id: "t".to_owned(),
        text_template: "t".to_owned(),
        variables: vec![("name".to_owned(), "x".to_owned())],
        version: "v".to_owned(),
    };
    assert_eq!(
        plugin().preview(&stranger, preview.clone()).err(),
        unauthorized
    );
    assert!(plugin()
        .preview(&admin_call(PREVIEW_OPERATION), preview)
        .is_ok());
}

#[test]
fn an_unprepared_plugin_asks_nothing() {
    let list = ListVersionsRequest {
        count: 10,
        start_index: 1,
        template_id: None,
    };
    match plugin().list_versions(&admin_call(LIST_VERSIONS_OPERATION), list) {
        Progress::Done(result) => assert_eq!(
            result.err(),
            Some(PluginError::Runtime(RuntimeFailure::NotPrepared))
        ),
        Progress::Ask(_) => panic!("the storage was asked"),
    }
}
