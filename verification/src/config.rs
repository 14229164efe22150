//! The configuration of the plugin.
use vstd::prelude::*;

use crate::failure::RuntimeFailure;
use crate::identifier;
use crate::locale;
use crate::outside;
use crate::text;

verus! {

/// How many fallback locales there may be.
pub const MAX_LOCALES: usize = 8;

/// A configuration of the plugin.
#[derive(Clone, Debug, PartialEq, Eq)]
pub struct NotificationTemplateConfig {
    pub schema: String,
    pub database_url_secret: String,
    pub auth_issuer: String,
    pub auth_assertion_public_key: String,
    pub render_callers: Vec<String>,
    pub admin_callers: Vec<String>,
    pub admin_actor_kinds: Vec<String>,
    pub fallback_locales: Vec<String>,
}

/// A [`NotificationTemplateConfig`] by its texts.
pub struct ConfigView {
    pub schema: Seq<char>,
    pub database_url_secret: Seq<char>,
    pub auth_issuer: Seq<char>,
    pub auth_assertion_public_key: Seq<char>,
    pub render_callers: Seq<Seq<char>>,
    pub admin_callers: Seq<Seq<char>>,
    pub admin_actor_kinds: Seq<Seq<char>>,
    pub fallback_locales: Seq<Seq<char>>,
}

impl View for NotificationTemplateConfig {
    type V = ConfigView;

    open spec fn view(&self) -> ConfigView {
        ConfigView {
            schema: self.schema@,
            database_url_secret: self.database_url_secret@,
            auth_issuer: self.auth_issuer@,
            auth_assertion_public_key: self.auth_assertion_public_key@,
            render_callers: text::texts(self.render_callers@),
            admin_callers: text::texts(self.admin_callers@),
            admin_actor_kinds: text::texts(self.admin_actor_kinds@),
            fallback_locales: text::texts(self.fallback_locales@),
        }
    }
}

/// What is wrong with a configuration.
#[derive(Clone, Copy, Debug, PartialEq, Eq, Structural)]
pub enum NotificationTemplateConfigError {
    InvalidSchema,
    InvalidSecretReference,
    InvalidAuthIssuer,
    InvalidAuthPublicKey,
    InvalidCallers,
    InvalidActorKinds,
    InvalidLocales,
}

impl NotificationTemplateConfigError {
    /// The error in words.
    pub open spec fn message_text(self) -> Seq<char> {
        match self {
            NotificationTemplateConfigError::InvalidSchema => "invalid owned PostgreSQL schema"@,
            NotificationTemplateConfigError::InvalidSecretReference =>
                "invalid database URL Secret reference"@,
            NotificationTemplateConfigError::InvalidAuthIssuer => "invalid Auth issuer"@,
            NotificationTemplateConfigError::InvalidAuthPublicKey =>
                "invalid Auth assertion public key"@,
            NotificationTemplateConfigError::InvalidCallers =>
                "render and admin callers must be bounded, unique, exact, and disjoint"@,
            NotificationTemplateConfigError::InvalidActorKinds =>
                "admin actor kinds must be a unique subset of user and service_account"@,
            NotificationTemplateConfigError::InvalidLocales =>
                "fallback locales must be unique canonical locale tags"@,
        }
    }

    /// The error in words.
    pub fn message(&self) -> (res: String)
        ensures
            res@ == self.message_text(),
    {
        match self {
            NotificationTemplateConfigError::InvalidSchema =>
                "invalid owned PostgreSQL schema".to_owned(),
            NotificationTemplateConfigError::InvalidSecretReference =>
                "invalid database URL Secret reference".to_owned(),
            NotificationTemplateConfigError::InvalidAuthIssuer => "invalid Auth issuer".to_owned(),
            NotificationTemplateConfigError::InvalidAuthPublicKey =>
                "invalid Auth assertion public key".to_owned(),
            NotificationTemplateConfigError::InvalidCallers =>
                "render and admin callers must be bounded, unique, exact, and disjoint".to_owned(),
            NotificationTemplateConfigError::InvalidActorKinds =>
                "admin actor kinds must be a unique subset of user and service_account".to_owned(),
            NotificationTemplateConfigError::InvalidLocales =>
                "fallback locales must be unique canonical locale tags".to_owned(),
        }
    }
}

/// Two lists have no entry in common.
pub open spec fn disjoint(a: Seq<Seq<char>>, b: Seq<Seq<char>>) -> bool {
    forall|x: Seq<char>| #[trigger] a.contains(x) ==> !b.contains(x)
}

/// A list of kinds of actor: not empty, without repetition, of users and service accounts only.
pub open spec fn actor_kinds(list: Seq<Seq<char>>) -> bool {
    &&& list.len() > 0
    &&& identifier::distinct(list)
    &&& forall|i: int|
        0 <= i < list.len() ==> (#[trigger] list[i] == "user"@ || list[i] == "service_account"@)
}

/// A list of fallback locales: between one and [`MAX_LOCALES`], without repetition, each in its
/// canonical form.
pub open spec fn fallback_list(list: Seq<Seq<char>>) -> bool {
    &&& 1 <= list.len() <= MAX_LOCALES
    &&& identifier::distinct(list)
    &&& forall|i: int|
        0 <= i < list.len() ==> locale::canonical_locale(#[trigger] list[i]) == Some(list[i])
}

/// The first thing that is wrong with a configuration, if anything is, given whether its public
/// key is one.
pub open spec fn config_error(
    config: ConfigView,
    key_valid: bool,
) -> Option<NotificationTemplateConfigError> {
    if !outside::owned_schema_name(config.schema) {
        Some(NotificationTemplateConfigError::InvalidSchema)
    } else if !identifier::secret_reference(config.database_url_secret) {
        Some(NotificationTemplateConfigError::InvalidSecretReference)
    } else if !identifier::instance(config.auth_issuer) {
        Some(NotificationTemplateConfigError::InvalidAuthIssuer)
    } else if !key_valid {
        Some(NotificationTemplateConfigError::InvalidAuthPublicKey)
    } else if !identifier::caller_list(config.render_callers) || !identifier::caller_list(
        config.admin_callers,
    ) || !disjoint(config.render_callers, config.admin_callers) {
        Some(NotificationTemplateConfigError::InvalidCallers)
    } else if !actor_kinds(config.admin_actor_kinds) {
        Some(NotificationTemplateConfigError::InvalidActorKinds)
    } else if !fallback_list(config.fallback_locales) {
        Some(NotificationTemplateConfigError::InvalidLocales)
    } else {
        None
    }
}

/// A configuration that the plugin can run with.
pub open spec fn valid_config(config: ConfigView) -> bool {
    config_error(config, outside::is_assertion_public_key(config.auth_assertion_public_key)) is None
}

/// Whether two lists have no entry in common.
fn are_disjoint(a: &Vec<String>, b: &Vec<String>) -> (res: bool)
    ensures
        res == disjoint(text::texts(a@), text::texts(b@)),
{
    let ghost left = text::texts(a@);
    let ghost right = text::texts(b@);
    for i in 0..a.len()
        invariant
            left == text::texts(a@),
            right == text::texts(b@),
            forall|j: int| 0 <= j < i ==> !right.contains(#[trigger] left[j]),
    {
        if text::list_contains(b, a[i].as_str()) {
            assert(left[i as int] == a@[i as int]@);
            assert(left.contains(left[i as int]));
            return false;
        }
    }
    true
}

/// Whether a list is one of kinds of actor.
fn valid_actor_kinds(list: &Vec<String>) -> (res: bool)
    ensures
        res == actor_kinds(text::texts(list@)),
{
    if list.len() == 0 || !identifier::all_distinct(list) {
        return false;
    }
    let ghost kinds = text::texts(list@);
    for i in 0..list.len()
        invariant
            kinds == text::texts(list@),
            kinds.len() > 0,
            identifier::distinct(kinds),
            forall|j: int|
                0 <= j < i ==> (#[trigger] kinds[j] == "user"@ || kinds[j] == "service_account"@),
    {
        assert(kinds[i as int] == list@[i as int]@);
        if !text::same_text(list[i].as_str(), "user") && !text::same_text(
            list[i].as_str(),
            "service_account",
        ) {
            return false;
        }
    }
    true
}

/// Whether a list is one of fallback locales.
fn valid_fallback_locales(list: &Vec<String>) -> (res: bool)
    ensures
        res == fallback_list(text::texts(list@)),
{
    if list.len() == 0 || list.len() > MAX_LOCALES || !identifier::all_distinct(list) {
        return false;
    }
    let ghost locales = text::texts(list@);
    for i in 0..list.len()
        invariant
            locales == text::texts(list@),
            1 <= locales.len() <= MAX_LOCALES,
            identifier::distinct(locales),
            forall|j: int|
                0 <= j < i ==> locale::canonical_locale(#[trigger] locales[j]) == Some(locales[j]),
    {
        assert(locales[i as int] == list@[i as int]@);
        match locale::normalize_locale(list[i].as_str()) {
            Some(canonical) => {
                if !text::same_text(canonical.as_str(), list[i].as_str()) {
                    return false;
                }
            },
            None => {
                return false;
            },
        }
    }
    true
}

impl NotificationTemplateConfig {
    /// A configuration with the given fields, if nothing is wrong with it.
    pub fn new(
        schema: String,
        database_url_secret: String,
        auth_issuer: String,
        auth_assertion_public_key: String,
        render_callers: Vec<String>,
        admin_callers: Vec<String>,
        admin_actor_kinds: Vec<String>,
        fallback_locales: Vec<String>,
    ) -> (res: Result<Self, NotificationTemplateConfigError>)
        ensures
            ({
                let fields = ConfigView {
                    schema: schema@,
                    database_url_secret: database_url_secret@,
                    auth_issuer: auth_issuer@,
                    auth_assertion_public_key: auth_assertion_public_key@,
                    render_callers: text::texts(render_callers@),
                    admin_callers: text::texts(admin_callers@),
                    admin_actor_kinds: text::texts(admin_actor_kinds@),
                    fallback_locales: text::texts(fallback_locales@),
                };
                let error = config_error(
                    fields,
                    outside::is_assertion_public_key(auth_assertion_public_key@),
                );
                match res {
                    Ok(config) => error is None && config@ == fields && valid_config(config@),
                    Err(failure) => error == Some(failure),
                }
            }),
    {
        let config = NotificationTemplateConfig {
            schema,
            database_url_secret,
            auth_issuer,
            auth_assertion_public_key,
            render_callers,
            admin_callers,
            admin_actor_kinds,
            fallback_locales,
        };
        match config.validate() {
            Ok(()) => Ok(config),
            Err(failure) => Err(failure),
        }
    }

    /// Checks the configuration.
    pub fn validate(&self) -> (res: Result<(), NotificationTemplateConfigError>)
        ensures
            match res {
                Ok(()) => valid_config(self@),
                Err(failure) => config_error(
                    self@,
                    outside::is_assertion_public_key(self@.auth_assertion_public_key),
                ) == Some(failure),
            },
    {
        let key_valid: bool = self.check_key().is_ok();
        self.validate_with_key(key_valid)
    }

    /// Checks the configuration, given whether its public key is one.
    pub fn validate_with_key(&self, key_valid: bool) -> (res: Result<
        (),
        NotificationTemplateConfigError,
    >)
        ensures
            match res {
                Ok(()) => config_error(self@, key_valid) is None,
                Err(failure) => config_error(self@, key_valid) == Some(failure),
            },
    {
        if !outside::owns_schema(self.schema.as_str()) {
            return Err(NotificationTemplateConfigError::InvalidSchema);
        }
        if !identifier::valid_secret_reference(self.database_url_secret.as_str()) {
            return Err(NotificationTemplateConfigError::InvalidSecretReference);
        }
        if !identifier::valid_instance(self.auth_issuer.as_str()) {
            return Err(NotificationTemplateConfigError::InvalidAuthIssuer);
        }
        if !key_valid {
            return Err(NotificationTemplateConfigError::InvalidAuthPublicKey);
        }
        if !identifier::valid_callers(&self.render_callers) || !identifier::valid_callers(
            &self.admin_callers,
        ) || !are_disjoint(&self.render_callers, &self.admin_callers) {
            return Err(NotificationTemplateConfigError::InvalidCallers);
        }
        if !valid_actor_kinds(&self.admin_actor_kinds) {
            return Err(NotificationTemplateConfigError::InvalidActorKinds);
        }
        if !valid_fallback_locales(&self.fallback_locales) {
            return Err(NotificationTemplateConfigError::InvalidLocales);
        }
        Ok(())
    }

    /// Checks that assertions of the configured issuer can be verified.
    pub fn check_key(&self) -> (res: Result<(), RuntimeFailure>)
        ensures
            match res {
                Ok(()) => outside::is_assertion_public_key(self@.auth_assertion_public_key),
                Err(failure) => !outside::is_assertion_public_key(self@.auth_assertion_public_key)
                    && failure == RuntimeFailure::InvalidVerificationKey,
            },
    {
        if outside::verifies_with(
            self.auth_issuer.as_str(),
            self.auth_assertion_public_key.as_str(),
        ) {
            Ok(())
        } else {
            Err(RuntimeFailure::InvalidVerificationKey)
        }
    }
}

/// Checks a configuration before the plugin starts with it.
pub fn validate_config(config: &NotificationTemplateConfig) -> (res: Result<(), RuntimeFailure>)
    ensures
        match res {
            Ok(()) => valid_config(config@),
            Err(RuntimeFailure::InvalidConfiguration(error)) => config_error(
                config@,
                outside::is_assertion_public_key(config@.auth_assertion_public_key),
            ) == Some(error),
            Err(_) => false,
        },
{
    match config.validate() {
        Ok(()) => Ok(()),
        Err(error) => Err(RuntimeFailure::InvalidConfiguration(error)),
    }
}

/// In a valid configuration nobody who may render may administer, and both roles are held by
/// somebody.
pub proof fn law_roles_are_disjoint(config: ConfigView, caller: Seq<char>)
    requires
        valid_config(config),
    ensures
        !(config.render_callers.contains(caller) && config.admin_callers.contains(caller)),
        config.render_callers.len() > 0,
        config.admin_callers.len() > 0,
{
}

/// Every caller list has between one and 64 instance keys, none of them twice.
pub open spec fn lists_instances(list: Seq<Seq<char>>) -> bool {
    &&& 1 <= list.len() <= 64
    &&& forall|i: int| 0 <= i < list.len() ==> identifier::identifier(#[trigger] list[i], 256)
    &&& forall|i: int, j: int|
        0 <= i < j < list.len() ==> #[trigger] list[i] != #[trigger] list[j]
}

/// What is wrong with a configuration, in the order in which it is told: the schema, the reference
/// to the secret, the issuer, the key, the callers, the kinds of actor, the fallback locales.
pub proof fn law_faults_of_configurations(config: ConfigView, key_valid: bool)
    ensures
        ({
            let error = config_error(config, key_valid);
            let render_callers = config.render_callers;
            let admin_callers = config.admin_callers;
            let kinds = config.admin_actor_kinds;
            let locales = config.fallback_locales;
            let schema = outside::owned_schema_name(config.schema);
            let secret = identifier::secret_reference(config.database_url_secret);
            let issuer = identifier::identifier(config.auth_issuer, 256);
            let callers = lists_instances(render_callers) && lists_instances(admin_callers)
                && forall|i: int, j: int|
                0 <= i < render_callers.len() && 0 <= j < admin_callers.len()
                    ==> #[trigger] render_callers[i] != #[trigger] admin_callers[j];
            let actors = kinds.len() > 0 && (forall|i: int, j: int|
                0 <= i < j < kinds.len() ==> #[trigger] kinds[i] != #[trigger] kinds[j]) && (
            forall|i: int|
                0 <= i < kinds.len() ==> #[trigger] kinds[i] == "user"@ || kinds[i]
                    == "service_account"@);
            let fallbacks = 1 <= locales.len() <= 8 && (forall|i: int, j: int|
                0 <= i < j < locales.len() ==> #[trigger] locales[i] != #[trigger] locales[j]) && (
            forall|i: int|
                0 <= i < locales.len() ==> locale::canonical_locale(#[trigger] locales[i]) == Some(
                    locales[i],
                ));
            &&& !schema ==> error == Some(NotificationTemplateConfigError::InvalidSchema)
            &&& schema && !secret ==> error == Some(
                NotificationTemplateConfigError::InvalidSecretReference,
            )
            &&& schema && secret && !issuer ==> error == Some(
                NotificationTemplateConfigError::InvalidAuthIssuer,
            )
            &&& schema && secret && issuer && !key_valid ==> error == Some(
                NotificationTemplateConfigError::InvalidAuthPublicKey,
            )
            &&& schema && secret && issuer && key_valid && !callers ==> error == Some(
                NotificationTemplateConfigError::InvalidCallers,
            )
            &&& schema && secret && issuer && key_valid && callers && !actors ==> error == Some(
                NotificationTemplateConfigError::InvalidActorKinds,
            )
            &&& schema && secret && issuer && key_valid && callers && actors && !fallbacks
                ==> error == Some(NotificationTemplateConfigError::InvalidLocales)
            &&& schema && secret && issuer && key_valid && callers && actors && fallbacks
                ==> error is None
        }),
{
    lemma_distinct(config.render_callers);
    lemma_distinct(config.admin_callers);
    lemma_distinct(config.admin_actor_kinds);
    lemma_distinct(config.fallback_locales);
    lemma_instances(config.render_callers);
    lemma_instances(config.admin_callers);
    lemma_disjoint(config.render_callers, config.admin_callers);
}

proof fn lemma_distinct(list: Seq<Seq<char>>)
    ensures
        identifier::distinct(list) <==> forall|i: int, j: int|
            0 <= i < j < list.len() ==> #[trigger] list[i] != #[trigger] list[j],
{
    if forall|i: int, j: int|
        0 <= i < j < list.len() ==> #[trigger] list[i] != #[trigger] list[j] {
        assert forall|i: int, j: int|
            0 <= i < list.len() && 0 <= j < list.len() && i != j implies #[trigger] list[i]
            != #[trigger] list[j] by {
            if i < j {
                assert(list[i] != list[j]);
            } else {
                assert(list[j] != list[i]);
            }
        }
    }
}

proof fn lemma_instances(list: Seq<Seq<char>>)
    ensures
        identifier::caller_list(list) <==> lists_instances(list),
{
    lemma_distinct(list);
    if identifier::caller_list(list) {
        assert forall|i: int| 0 <= i < list.len() implies identifier::identifier(
            #[trigger] list[i],
            256,
        ) by {
            assert(identifier::instance(list[i]));
        }
    }
    if lists_instances(list) {
        assert forall|i: int| 0 <= i < list.len() implies identifier::instance(
            #[trigger] list[i],
        ) by {
            assert(identifier::identifier(list[i], 256));
        }
    }
}

proof fn lemma_disjoint(a: Seq<Seq<char>>, b: Seq<Seq<char>>)
    ensures
        disjoint(a, b) <==> forall|i: int, j: int|
            0 <= i < a.len() && 0 <= j < b.len() ==> #[trigger] a[i] != #[trigger] b[j],
{
    if disjoint(a, b) {
        assert forall|i: int, j: int| 0 <= i < a.len() && 0 <= j < b.len() implies #[trigger] a[i]
            != #[trigger] b[j] by {
            assert(a.contains(a[i]));
            assert(b.contains(b[j]));
        }
    }
    if forall|i: int, j: int|
        0 <= i < a.len() && 0 <= j < b.len() ==> #[trigger] a[i] != #[trigger] b[j] {
        assert forall|x: Seq<char>| #[trigger] a.contains(x) implies !b.contains(x) by {
            let i = choose|i: int| 0 <= i < a.len() && a[i] == x;
            if b.contains(x) {
                let j = choose|j: int| 0 <= j < b.len() && b[j] == x;
                assert(a[i] != b[j]);
            }
        }
    }
}

/// Every fault of a configuration in its words.
pub proof fn law_faults_of_configurations_in_words()
    ensures
        NotificationTemplateConfigError::InvalidSchema.message_text()
            == "invalid owned PostgreSQL schema"@,
        NotificationTemplateConfigError::InvalidSecretReference.message_text()
            == "invalid database URL Secret reference"@,
        NotificationTemplateConfigError::InvalidAuthIssuer.message_text() == "invalid Auth issuer"@,
        NotificationTemplateConfigError::InvalidAuthPublicKey.message_text()
            == "invalid Auth assertion public key"@,
        NotificationTemplateConfigError::InvalidCallers.message_text()
            == "render and admin callers must be bounded, unique, exact, and disjoint"@,
        NotificationTemplateConfigError::InvalidActorKinds.message_text()
            == "admin actor kinds must be a unique subset of user and service_account"@,
        NotificationTemplateConfigError::InvalidLocales.message_text()
            == "fallback locales must be unique canonical locale tags"@,
{
}

} // verus!
