//! What the commands do, told by the requests that they are given.
use vstd::prelude::*;

use crate::activate;
use crate::activate::{ActivateCommandView, ActivateState};
use crate::answers;
use crate::auth;
use crate::auth::{AdminView, AuthorizationFailure, CallView};
use crate::catalog;
use crate::catalog::{Catalog, Receipt, Response};
use crate::config::ConfigView;
use crate::create;
use crate::create::{CreateCommandView, CreateState};
use crate::failure::{DomainError, PluginError, RuntimeFailure};
use crate::identifier;
use crate::locale;
use crate::number;
use crate::outside;
use crate::records::{
    ActivateRequestView, ActivatedView, CreateRequestView, CreatedView, GetRequestView,
    RenderRequestView,
};
use crate::render;
use crate::render::DefinitionView;
use crate::store::{AnswerView, Progress, ReceiptKeyView, ReleaseKeyView};

verus! {

/// What a call to store comes to on a catalog.
pub open spec fn create_outcome(
    config: ConfigView,
    call: CallView,
    request: CreateRequestView,
    catalog: Catalog,
    now: int,
) -> (Catalog, Result<CreatedView, PluginError>) {
    catalog::create_run(
        create::create_called(config, true, call, request),
        catalog,
        catalog,
        now,
        8,
    )
}

/// What a call to activate comes to on a catalog.
pub open spec fn activate_outcome(
    config: ConfigView,
    call: CallView,
    request: ActivateRequestView,
    catalog: Catalog,
    now: int,
) -> (Catalog, Result<ActivatedView, PluginError>) {
    catalog::activate_run(
        activate::activate_called(config, true, call, request),
        catalog,
        catalog,
        now,
        8,
    )
}

/// The key of the receipt for an administrator's command.
pub open spec fn receipt_key(
    admin: AdminView,
    operation: Seq<char>,
    idempotency_key: Seq<char>,
) -> ReceiptKeyView {
    ReceiptKeyView { caller: admin.caller, subject: admin.subject, operation, idempotency_key }
}

/// The request to store names a template, a version, a key and a locale, and gives sources that can
/// be rendered.
pub open spec fn storable(request: CreateRequestView) -> bool {
    &&& locale::canonical_locale(request.locale) is Some
    &&& identifier::identifier(request.template_id, 160)
    &&& identifier::identifier(request.version, 80)
    &&& identifier::identifier(request.idempotency_key, 240)
    &&& render::valid_definition(
        DefinitionView {
            subject: request.subject_template,
            text: request.text_template,
            html: request.html_template,
        },
    )
}

/// Where the requested version is stored.
pub open spec fn requested_release(request: CreateRequestView) -> ReleaseKeyView {
    ReleaseKeyView {
        template_id: request.template_id,
        version: request.version,
        locale: locale::canonical_locale(request.locale)->0,
    }
}

/// An administrator's request that can be carried out, under a key that was not used, for a version
/// that is not there, succeeds: the version is stored with the subject, the text and the HTML of
/// the request, by the actor on whose behalf the call is made. Nothing else changes but for the
/// receipt, which keeps the answer.
pub proof fn law_requested_sources_are_stored(
    config: ConfigView,
    call: CallView,
    request: CreateRequestView,
    admin: AdminView,
    catalog: Catalog,
    now: int,
)
    requires
        auth::administrator(config, call, "create_version"@) == Ok::<
            AdminView,
            AuthorizationFailure,
        >(admin),
        storable(request),
        !catalog.receipts.dom().contains(
            receipt_key(admin, "create_version"@, request.idempotency_key),
        ),
        !catalog.releases.dom().contains(requested_release(request)),
        outside::four_digit_year(now),
    ensures
        ({
            let (later, result) = create_outcome(config, call, request, catalog, now);
            let receipt = receipt_key(admin, "create_version"@, request.idempotency_key);
            &&& result is Ok
            &&& later.heads == catalog.heads
            &&& later.receipts == catalog.receipts.insert(
                receipt,
                Receipt {
                    hash: request.hash(),
                    response: Some(Response::Created(result->Ok_0)),
                },
            )
            &&& later.releases.dom() == catalog.releases.dom().insert(requested_release(request))
            &&& forall|key: ReleaseKeyView|
                key != requested_release(request) && catalog.releases.dom().contains(key)
                    ==> #[trigger] later.releases[key] == catalog.releases[key]
            &&& later.releases[requested_release(request)].definition.subject
                == request.subject_template
            &&& later.releases[requested_release(request)].definition.text == request.text_template
            &&& later.releases[requested_release(request)].definition.html == request.html_template
            &&& later.releases[requested_release(request)].renderer_identity
                == "lenso.notification-template.renderer/safe-sections@1"@
            &&& later.releases[requested_release(request)].created_by == admin.subject
            &&& later.releases[requested_release(request)].created_at == now
        }),
{
    catalog::law_create_call_comes_to_its_effect(config, call, request, catalog, now);
    let later = create_outcome(config, call, request, catalog, now).0;
    assert(later.releases.dom() =~= catalog.releases.dom().insert(requested_release(request)));
}

/// The answer to a request that is carried out names the template, the version and the locale of
/// the request, the names that its sources use, and the digest of its sources.
pub proof fn law_stored_version_is_answered(
    config: ConfigView,
    call: CallView,
    request: CreateRequestView,
    admin: AdminView,
    catalog: Catalog,
    now: int,
)
    requires
        auth::administrator(config, call, "create_version"@) == Ok::<
            AdminView,
            AuthorizationFailure,
        >(admin),
        !catalog.receipts.dom().contains(
            receipt_key(admin, "create_version"@, request.idempotency_key),
        ),
        create_outcome(config, call, request, catalog, now).1 is Ok,
    ensures
        ({
            let response = create_outcome(config, call, request, catalog, now).1->Ok_0;
            let definition = DefinitionView {
                subject: request.subject_template,
                text: request.text_template,
                html: request.html_template,
            };
            &&& response.template_id == request.template_id
            &&& response.version == request.version
            &&& locale::canonical_locale(request.locale) == Some(response.locale)
            &&& response.revision == seq!['1']
            &&& response.required_variables == render::required_names(definition)
            &&& response.renderer_identity
                == "lenso.notification-template.renderer/safe-sections@1"@
            &&& response.template_digest == render::digest_text(
                seq![request.subject_template, request.text_template, request.html_template],
            )
            &&& response.created_at == outside::rfc3339_text(now)
            &&& !response.idempotent_replay
        }),
{
    catalog::law_create_call_comes_to_its_effect(config, call, request, catalog, now);
    reveal_strlit("1");
    assert("1"@ =~= seq!['1']);
}

/// Whoever is not an administrator for storing is told so, and a request that cannot be carried out
/// is refused as invalid; neither changes anything.
pub proof fn law_store_is_refused(
    config: ConfigView,
    call: CallView,
    request: CreateRequestView,
    catalog: Catalog,
    now: int,
)
    ensures
        auth::administrator(config, call, "create_version"@) == Err::<
            AdminView,
            AuthorizationFailure,
        >(AuthorizationFailure::Unauthorized) ==> create_outcome(
            config,
            call,
            request,
            catalog,
            now,
        ) == (
            catalog,
            Err::<CreatedView, PluginError>(PluginError::Domain(DomainError::Unauthorized)),
        ),
        auth::administrator(config, call, "create_version"@) matches Err(
            AuthorizationFailure::Runtime(reason),
        ) ==> create_outcome(config, call, request, catalog, now) == (
            catalog,
            Err::<CreatedView, PluginError>(PluginError::Runtime(reason)),
        ),
        auth::administrator(config, call, "create_version"@) is Ok && !storable(request)
            ==> create_outcome(config, call, request, catalog, now) == (
            catalog,
            Err::<CreatedView, PluginError>(PluginError::Domain(DomainError::InvalidRequest)),
        ),
        auth::administrator(config, call, "create_version"@) is Ok && storable(request)
            ==> create::create_called(config, false, call, request) == Progress::<
            create::CreateCommandView,
            CreatedView,
        >::Done(Err(PluginError::Runtime(RuntimeFailure::NotPrepared))),
{
    catalog::law_create_call_comes_to_its_effect(config, call, request, catalog, now);
}

/// Under a key that was not used, a version that is there already is a conflict, and a moment that
/// cannot be written is a fault; neither changes anything.
pub proof fn law_store_conflicts(
    config: ConfigView,
    call: CallView,
    request: CreateRequestView,
    admin: AdminView,
    catalog: Catalog,
    now: int,
)
    requires
        auth::administrator(config, call, "create_version"@) == Ok::<
            AdminView,
            AuthorizationFailure,
        >(admin),
        storable(request),
        !catalog.receipts.dom().contains(
            receipt_key(admin, "create_version"@, request.idempotency_key),
        ),
    ensures
        catalog.releases.dom().contains(requested_release(request)) ==> create_outcome(
            config,
            call,
            request,
            catalog,
            now,
        ) == (
            catalog,
            Err::<CreatedView, PluginError>(PluginError::Domain(DomainError::Conflict)),
        ),
        !catalog.releases.dom().contains(requested_release(request)) && !outside::four_digit_year(
            now,
        ) ==> create_outcome(config, call, request, catalog, now) == (
            catalog,
            Err::<CreatedView, PluginError>(
                PluginError::Runtime(RuntimeFailure::InvalidTimestamp),
            ),
        ),
{
    catalog::law_create_call_comes_to_its_effect(config, call, request, catalog, now);
}

/// Under a key that was used, nothing is stored: the same request gets the answer that the receipt
/// keeps, marked as a replay, and another request is refused.
pub proof fn law_store_is_replayed(
    config: ConfigView,
    call: CallView,
    request: CreateRequestView,
    admin: AdminView,
    catalog: Catalog,
    receipt: Receipt,
    now: int,
)
    requires
        auth::administrator(config, call, "create_version"@) == Ok::<
            AdminView,
            AuthorizationFailure,
        >(admin),
        storable(request),
        catalog.receipts.dom().contains(
            receipt_key(admin, "create_version"@, request.idempotency_key),
        ),
        catalog.receipts[receipt_key(admin, "create_version"@, request.idempotency_key)] == receipt,
    ensures
        ({
            let (later, result) = create_outcome(config, call, request, catalog, now);
            &&& later == catalog
            &&& receipt.hash != request.hash() ==> result == Err::<CreatedView, PluginError>(
                PluginError::Domain(DomainError::IdempotencyConflict),
            )
            &&& receipt.hash == request.hash() && receipt.response is None ==> result == Err::<
                CreatedView,
                PluginError,
            >(PluginError::Domain(DomainError::Conflict))
            &&& receipt.hash == request.hash() && (receipt.response matches Some(
                Response::Activated(_),
            )) ==> result == Err::<CreatedView, PluginError>(
                PluginError::Runtime(RuntimeFailure::Representation),
            )
            &&& receipt.hash == request.hash() ==> (receipt.response matches Some(
                Response::Created(kept),
            ) ==> {
                &&& result is Ok
                &&& result->Ok_0.idempotent_replay
                &&& result->Ok_0.template_id == kept.template_id
                &&& result->Ok_0.version == kept.version
                &&& result->Ok_0.locale == kept.locale
                &&& result->Ok_0.revision == kept.revision
                &&& result->Ok_0.required_variables == kept.required_variables
                &&& result->Ok_0.renderer_identity == kept.renderer_identity
                &&& result->Ok_0.template_digest == kept.template_digest
                &&& result->Ok_0.created_at == kept.created_at
            })
        }),
{
    catalog::law_create_call_comes_to_its_effect(config, call, request, catalog, now);
}

/// The request to activate names a template, a version, a key and a revision.
pub open spec fn activatable(request: ActivateRequestView) -> bool {
    &&& number::integer_value(request.expected_revision) is Some
    &&& number::integer_value(request.expected_revision)->0 >= 0
    &&& identifier::identifier(request.template_id, 160)
    &&& identifier::identifier(request.version, 80)
    &&& identifier::identifier(request.idempotency_key, 240)
}

/// The head of the template is at the revision that the request expects; zero stands for none.
pub open spec fn head_as_expected(request: ActivateRequestView, catalog: Catalog) -> bool {
    number::integer_value(request.expected_revision) == Some(
        if catalog.heads.dom().contains(request.template_id) {
            catalog.heads[request.template_id].revision as int
        } else {
            0
        },
    )
}

/// The requested version of the requested template is stored in some locale.
pub open spec fn requested_version_is_stored(
    request: ActivateRequestView,
    catalog: Catalog,
) -> bool {
    exists|key: ReleaseKeyView| #[trigger]
        catalog.releases.dom().contains(key) && key.template_id == request.template_id
            && key.version == request.version
}

proof fn lemma_requested_version(request: ActivateRequestView, catalog: Catalog)
    ensures
        requested_version_is_stored(request, catalog) == catalog::stored_version(
            catalog,
            request.template_id,
            request.version,
        ),
{
    let template_id = request.template_id;
    let version = request.version;
    if requested_version_is_stored(request, catalog) {
        let key = choose|key: ReleaseKeyView| #[trigger]
            catalog.releases.dom().contains(key) && key.template_id == request.template_id
                && key.version == request.version;
        let locale = key.locale;
        assert(key == ReleaseKeyView { template_id, version, locale });
        assert(catalog.releases.dom().contains(ReleaseKeyView { template_id, version, locale }));
    }
    if catalog::stored_version(catalog, template_id, version) {
        let locale = choose|locale: Seq<char>| #[trigger]
            catalog.releases.dom().contains(ReleaseKeyView { template_id, version, locale });
        let key = ReleaseKeyView { template_id, version, locale };
        assert(catalog.releases.dom().contains(key) && key.template_id == request.template_id
            && key.version == request.version);
    }
}

/// An administrator's request under a key that was not used, for a version that is stored of a
/// template whose head is as expected, succeeds: the head of the requested template selects the
/// requested version at the next revision, by the actor on whose behalf the call is made. Nothing
/// else changes but for the receipt, which keeps the answer.
pub proof fn law_requested_version_becomes_active(
    config: ConfigView,
    call: CallView,
    request: ActivateRequestView,
    admin: AdminView,
    catalog: Catalog,
    now: int,
)
    requires
        auth::administrator(config, call, "activate_version"@) == Ok::<
            AdminView,
            AuthorizationFailure,
        >(admin),
        activatable(request),
        !catalog.receipts.dom().contains(
            receipt_key(admin, "activate_version"@, request.idempotency_key),
        ),
        requested_version_is_stored(request, catalog),
        head_as_expected(request, catalog),
        number::integer_value(request.expected_revision)->0 < i64::MAX,
        outside::four_digit_year(now),
    ensures
        ({
            let (later, result) = activate_outcome(config, call, request, catalog, now);
            let receipt = receipt_key(admin, "activate_version"@, request.idempotency_key);
            &&& result is Ok
            &&& later.releases == catalog.releases
            &&& later.receipts == catalog.receipts.insert(
                receipt,
                Receipt {
                    hash: request.hash(),
                    response: Some(Response::Activated(result->Ok_0)),
                },
            )
            &&& later.heads.dom() == catalog.heads.dom().insert(request.template_id)
            &&& forall|other: Seq<char>|
                other != request.template_id && catalog.heads.dom().contains(other)
                    ==> #[trigger] later.heads[other] == catalog.heads[other]
            &&& later.heads[request.template_id].active_version == request.version
            &&& later.heads[request.template_id].revision == number::integer_value(
                request.expected_revision,
            )->0 + 1
            &&& later.heads[request.template_id].updated_by == admin.subject
            &&& later.heads[request.template_id].updated_at == now
        }),
{
    catalog::law_activate_call_comes_to_its_effect(config, call, request, catalog, now);
    lemma_requested_version(request, catalog);
    let later = activate_outcome(config, call, request, catalog, now).0;
    assert(later.heads.dom() =~= catalog.heads.dom().insert(request.template_id));
}

/// The answer to an activation that is carried out names the template and the version of the
/// request, and tells the revision that the template's head then has.
pub proof fn law_activation_is_answered(
    config: ConfigView,
    call: CallView,
    request: ActivateRequestView,
    admin: AdminView,
    catalog: Catalog,
    now: int,
)
    requires
        auth::administrator(config, call, "activate_version"@) == Ok::<
            AdminView,
            AuthorizationFailure,
        >(admin),
        !catalog.receipts.dom().contains(
            receipt_key(admin, "activate_version"@, request.idempotency_key),
        ),
        activate_outcome(config, call, request, catalog, now).1 is Ok,
    ensures
        ({
            let (later, result) = activate_outcome(config, call, request, catalog, now);
            let response = result->Ok_0;
            &&& response.template_id == request.template_id
            &&& response.active_version == request.version
            &&& later.heads.dom().contains(request.template_id)
            &&& later.heads[request.template_id].active_version == response.active_version
            &&& response.revision == number::integer_text(
                later.heads[request.template_id].revision as int,
            )
            &&& response.updated_at == outside::rfc3339_text(now)
            &&& !response.idempotent_replay
        }),
{
    catalog::law_activate_call_comes_to_its_effect(config, call, request, catalog, now);
}

/// Whoever is not an administrator for activating is told so, and a request that cannot be carried
/// out is refused as invalid; neither changes anything.
pub proof fn law_activation_is_refused(
    config: ConfigView,
    call: CallView,
    request: ActivateRequestView,
    catalog: Catalog,
    now: int,
)
    ensures
        auth::administrator(config, call, "activate_version"@) == Err::<
            AdminView,
            AuthorizationFailure,
        >(AuthorizationFailure::Unauthorized) ==> activate_outcome(
            config,
            call,
            request,
            catalog,
            now,
        ) == (
            catalog,
            Err::<ActivatedView, PluginError>(PluginError::Domain(DomainError::Unauthorized)),
        ),
        auth::administrator(config, call, "activate_version"@) matches Err(
            AuthorizationFailure::Runtime(reason),
        ) ==> activate_outcome(config, call, request, catalog, now) == (
            catalog,
            Err::<ActivatedView, PluginError>(PluginError::Runtime(reason)),
        ),
        auth::administrator(config, call, "activate_version"@) is Ok && !activatable(request)
            ==> activate_outcome(config, call, request, catalog, now) == (
            catalog,
            Err::<ActivatedView, PluginError>(PluginError::Domain(DomainError::InvalidRequest)),
        ),
        auth::administrator(config, call, "activate_version"@) is Ok && activatable(request)
            ==> activate::activate_called(config, false, call, request) == Progress::<
            activate::ActivateCommandView,
            ActivatedView,
        >::Done(Err(PluginError::Runtime(RuntimeFailure::NotPrepared))),
{
    catalog::law_activate_call_comes_to_its_effect(config, call, request, catalog, now);
}

/// Under a key that was not used, a version that is not stored is not found; else a head that is
/// not as expected fails the precondition; else the last revision is a fault, and so is a moment
/// that cannot be written. None changes anything.
pub proof fn law_activation_fails(
    config: ConfigView,
    call: CallView,
    request: ActivateRequestView,
    admin: AdminView,
    catalog: Catalog,
    now: int,
)
    requires
        auth::administrator(config, call, "activate_version"@) == Ok::<
            AdminView,
            AuthorizationFailure,
        >(admin),
        activatable(request),
        !catalog.receipts.dom().contains(
            receipt_key(admin, "activate_version"@, request.idempotency_key),
        ),
    ensures
        ({
            let (later, result) = activate_outcome(config, call, request, catalog, now);
            let stored = requested_version_is_stored(request, catalog);
            let expected = head_as_expected(request, catalog);
            let last = number::integer_value(request.expected_revision)->0 == i64::MAX;
            &&& !stored || !expected || last || !outside::four_digit_year(now) ==> later == catalog
            &&& !stored ==> result == Err::<ActivatedView, PluginError>(
                PluginError::Domain(DomainError::NotFound),
            )
            &&& stored && !expected ==> result == Err::<ActivatedView, PluginError>(
                PluginError::Domain(DomainError::PreconditionFailed),
            )
            &&& stored && expected && last ==> result == Err::<ActivatedView, PluginError>(
                PluginError::Runtime(RuntimeFailure::RevisionExhausted),
            )
            &&& stored && expected && !last && !outside::four_digit_year(now) ==> result == Err::<
                ActivatedView,
                PluginError,
            >(PluginError::Runtime(RuntimeFailure::InvalidTimestamp))
        }),
{
    catalog::law_activate_call_comes_to_its_effect(config, call, request, catalog, now);
    lemma_requested_version(request, catalog);
}

/// Under a key that was used, no head moves: the same request gets the answer that the receipt
/// keeps, marked as a replay, and another request is refused.
pub proof fn law_activation_is_replayed(
    config: ConfigView,
    call: CallView,
    request: ActivateRequestView,
    admin: AdminView,
    catalog: Catalog,
    receipt: Receipt,
    now: int,
)
    requires
        auth::administrator(config, call, "activate_version"@) == Ok::<
            AdminView,
            AuthorizationFailure,
        >(admin),
        activatable(request),
        catalog.receipts.dom().contains(
            receipt_key(admin, "activate_version"@, request.idempotency_key),
        ),
        catalog.receipts[receipt_key(admin, "activate_version"@, request.idempotency_key)]
            == receipt,
    ensures
        ({
            let (later, result) = activate_outcome(config, call, request, catalog, now);
            &&& later == catalog
            &&& receipt.hash != request.hash() ==> result == Err::<ActivatedView, PluginError>(
                PluginError::Domain(DomainError::IdempotencyConflict),
            )
            &&& receipt.hash == request.hash() && receipt.response is None ==> result == Err::<
                ActivatedView,
                PluginError,
            >(PluginError::Domain(DomainError::Conflict))
            &&& receipt.hash == request.hash() && (receipt.response matches Some(
                Response::Created(_),
            )) ==> result == Err::<ActivatedView, PluginError>(
                PluginError::Runtime(RuntimeFailure::Representation),
            )
            &&& receipt.hash == request.hash() ==> (receipt.response matches Some(
                Response::Activated(kept),
            ) ==> {
                &&& result is Ok
                &&& result->Ok_0.idempotent_replay
                &&& result->Ok_0.template_id == kept.template_id
                &&& result->Ok_0.active_version == kept.active_version
                &&& result->Ok_0.revision == kept.revision
                &&& result->Ok_0.updated_at == kept.updated_at
            })
        }),
{
    catalog::law_activate_call_comes_to_its_effect(config, call, request, catalog, now);
}

/// Whatever a command to store waits for, an answer that is none to what it asked ends it: as a
/// conflict if the version's key is taken, and else as a fault of the storage; and a receipt that
/// cannot be completed is a fault too.
pub proof fn law_store_ends_with_a_wrong_answer(
    command: CreateCommandView,
    answer: AnswerView<CreatedView>,
)
    ensures
        ({
            let next = create::create_answered(command, answer);
            let taken = command.state is Inserting && (answer matches AnswerView::Failed {
                code: Some(code),
            } && code == seq!['2', '3', '5', '0', '5']);
            let fits = match command.state {
                CreateState::Beginning => answer is Done,
                CreateState::Claiming => answer is Rows,
                CreateState::Reading => answer is Receipt,
                CreateState::Inserting => answer is Moment,
                CreateState::Completing(_) => answer is Rows,
                CreateState::Committing(_) => answer is Done,
            };
            &&& taken ==> next == Progress::<CreateCommandView, CreatedView>::Done(
                Err(PluginError::Domain(DomainError::Conflict)),
            )
            &&& !taken && !fits ==> next == Progress::<CreateCommandView, CreatedView>::Done(
                Err(PluginError::Runtime(RuntimeFailure::Database)),
            )
            &&& command.state is Completing && (answer matches AnswerView::Rows(rows) && rows != 1)
                ==> next == Progress::<CreateCommandView, CreatedView>::Done(
                Err(PluginError::Runtime(RuntimeFailure::ReceiptOwnershipLost)),
            )
            &&& command.state is Reading && (answer matches AnswerView::Receipt { hash, result }
                && hash == command.plan.hash && result is Undecodable) ==> next == Progress::<
                CreateCommandView,
                CreatedView,
            >::Done(Err(PluginError::Runtime(RuntimeFailure::Database)))
        }),
{
    crate::store::law_codes_of_the_storage(Some(seq!['2', '3', '5', '0', '5']));
    if let AnswerView::Failed { code } = answer {
        crate::store::law_codes_of_the_storage(code);
    }
}

/// Whatever a command to activate waits for, an answer that is none to what it asked is a fault of
/// the storage; and a receipt that cannot be completed is a fault too.
pub proof fn law_activation_ends_with_a_wrong_answer(
    command: ActivateCommandView,
    answer: AnswerView<ActivatedView>,
)
    ensures
        ({
            let next = activate::activate_answered(command, answer);
            let fits = match command.state {
                ActivateState::Beginning => answer is Done,
                ActivateState::Claiming => answer is Rows,
                ActivateState::Reading => answer is Receipt,
                ActivateState::Checking => answer is Exists,
                ActivateState::Locking => answer is Head,
                ActivateState::Moving { .. } => answer is Done,
                ActivateState::Timing { .. } => answer is Moment,
                ActivateState::Completing(_) => answer is Rows,
                ActivateState::Committing(_) => answer is Done,
            };
            &&& !fits ==> next == Progress::<ActivateCommandView, ActivatedView>::Done(
                Err(PluginError::Runtime(RuntimeFailure::Database)),
            )
            &&& command.state is Completing && (answer matches AnswerView::Rows(rows) && rows != 1)
                ==> next == Progress::<ActivateCommandView, ActivatedView>::Done(
                Err(PluginError::Runtime(RuntimeFailure::ReceiptOwnershipLost)),
            )
            &&& command.state is Reading && (answer matches AnswerView::Receipt { hash, result }
                && hash == command.plan.hash && result is Undecodable) ==> next == Progress::<
                ActivateCommandView,
                ActivatedView,
            >::Done(Err(PluginError::Runtime(RuntimeFailure::Database)))
        }),
{
}

/// What an administrator stores is what an administrator sees who asks for it, whatever the case in
/// which either writes the locale.
pub proof fn law_stored_sources_are_seen(
    config: ConfigView,
    call: CallView,
    request: CreateRequestView,
    admin: AdminView,
    catalog: Catalog,
    now: int,
    look_call: CallView,
    look: GetRequestView,
)
    requires
        auth::administrator(config, call, "create_version"@) == Ok::<
            AdminView,
            AuthorizationFailure,
        >(admin),
        storable(request),
        !catalog.receipts.dom().contains(
            receipt_key(admin, "create_version"@, request.idempotency_key),
        ),
        !catalog.releases.dom().contains(requested_release(request)),
        outside::four_digit_year(now),
        auth::administrator(config, look_call, "get_version"@) is Ok,
        look.template_id == request.template_id,
        look.version == request.version,
        locale::canonical_locale(look.locale) == locale::canonical_locale(request.locale),
    ensures
        ({
            let later = create_outcome(config, call, request, catalog, now).0;
            let seen = answers::get_outcome(config, look_call, look, later);
            &&& seen is Ok
            &&& seen->Ok_0.template_id == request.template_id
            &&& seen->Ok_0.version == request.version
            &&& seen->Ok_0.subject_template == request.subject_template
            &&& seen->Ok_0.text_template == request.text_template
            &&& seen->Ok_0.html_template == request.html_template
            &&& seen->Ok_0.created_by == admin.subject
            &&& seen->Ok_0.created_at == outside::rfc3339_text(now)
        }),
{
    law_requested_sources_are_stored(config, call, request, admin, catalog, now);
    let later = create_outcome(config, call, request, catalog, now).0;
    let key = requested_release(request);
    assert(later.releases.dom().contains(key));
    assert(later.releases[key].definition == DefinitionView {
        subject: request.subject_template,
        text: request.text_template,
        html: request.html_template,
    });
    answers::law_stored_version_is_shown(config, look_call, look, later, key);
}

/// A command begins its transaction before anything else, then claims its receipt, and goes on as
/// a new one only if the claim stored exactly one; else it reads the receipt that is there.
pub proof fn law_commands_begin_with_a_claim(
    config: ConfigView,
    call: CallView,
    create_request: CreateRequestView,
    activate_request: ActivateRequestView,
    rows: int,
)
    ensures
        create::create_called(config, true, call, create_request) matches Progress::Ask(first) ==> {
            let second = create::create_answered(first, AnswerView::Done);
            &&& create::create_statement(first) is Begin
            &&& second is Ask
            &&& create::create_statement(second->Ask_0) is InsertReceipt
            &&& create::create_answered(second->Ask_0, AnswerView::Rows(rows)) matches Progress::Ask(
                third,
            ) && if rows == 1 {
                create::create_statement(third) is InsertVersion
            } else {
                create::create_statement(third) is SelectReceipt
            }
        },
        activate::activate_called(config, true, call, activate_request) matches Progress::Ask(first)
            ==> {
            let second = activate::activate_answered(first, AnswerView::Done);
            &&& activate::activate_statement(first) is Begin
            &&& second is Ask
            &&& activate::activate_statement(second->Ask_0) is InsertReceipt
            &&& activate::activate_answered(
                second->Ask_0,
                AnswerView::Rows(rows),
            ) matches Progress::Ask(third) && if rows == 1 {
                activate::activate_statement(third) is VersionExists
            } else {
                activate::activate_statement(third) is SelectReceipt
            }
        },
{
}

/// What was stored and made active is what is rendered, in its own locale, for a caller who names
/// no version.
pub proof fn law_active_sources_are_rendered(
    config: ConfigView,
    create_call: CallView,
    create_request: CreateRequestView,
    activate_call: CallView,
    activate_request: ActivateRequestView,
    admin: AdminView,
    activator: AdminView,
    catalog: Catalog,
    created_at: int,
    activated_at: int,
    call: CallView,
    request: RenderRequestView,
)
    requires
        auth::administrator(config, create_call, "create_version"@) == Ok::<
            AdminView,
            AuthorizationFailure,
        >(admin),
        storable(create_request),
        !catalog.receipts.dom().contains(
            receipt_key(admin, "create_version"@, create_request.idempotency_key),
        ),
        !catalog.releases.dom().contains(requested_release(create_request)),
        outside::four_digit_year(created_at),
        auth::administrator(config, activate_call, "activate_version"@) == Ok::<
            AdminView,
            AuthorizationFailure,
        >(activator),
        activatable(activate_request),
        !catalog.receipts.dom().contains(
            receipt_key(activator, "activate_version"@, activate_request.idempotency_key),
        ),
        activate_request.template_id == create_request.template_id,
        activate_request.version == create_request.version,
        head_as_expected(activate_request, catalog),
        number::integer_value(activate_request.expected_revision)->0 < i64::MAX,
        outside::four_digit_year(activated_at),
        answers::may_render(config, call),
        request.template_id == create_request.template_id,
        request.version is None,
        locale::canonical_locale(request.locale) == locale::canonical_locale(create_request.locale),
        render::render_failure(
            (DefinitionView {
                subject: create_request.subject_template,
                text: create_request.text_template,
                html: create_request.html_template,
            }),
            request.variables,
        ) is None,
    ensures
        ({
            let stored = create_outcome(config, create_call, create_request, catalog, created_at).0;
            let active = activate_outcome(
                config,
                activate_call,
                activate_request,
                stored,
                activated_at,
            ).0;
            let result = answers::render_outcome(config, call, request, active);
            let definition = DefinitionView {
                subject: create_request.subject_template,
                text: create_request.text_template,
                html: create_request.html_template,
            };
            &&& result is Ok
            &&& answers::is_rendering(result->Ok_0, definition, request.variables)
            &&& result->Ok_0.template_id == create_request.template_id
            &&& result->Ok_0.version == create_request.version
            &&& !result->Ok_0.fallback_used
        }),
{
    law_requested_sources_are_stored(
        config,
        create_call,
        create_request,
        admin,
        catalog,
        created_at,
    );
    let stored = create_outcome(config, create_call, create_request, catalog, created_at).0;
    let key = requested_release(create_request);
    assert(stored.releases.dom().contains(key));
    assert(requested_version_is_stored(activate_request, stored));
    reveal_strlit("create_version");
    reveal_strlit("activate_version");
    assert("create_version"@.len() != "activate_version"@.len());
    law_requested_version_becomes_active(
        config,
        activate_call,
        activate_request,
        activator,
        stored,
        activated_at,
    );
    let active = activate_outcome(
        config,
        activate_call,
        activate_request,
        stored,
        activated_at,
    ).0;
    let definition = DefinitionView {
        subject: create_request.subject_template,
        text: create_request.text_template,
        html: create_request.html_template,
    };
    assert(stored.releases[key].definition == definition);
    locale::law_candidate_order(
        locale::canonical_locale(request.locale)->0,
        config.fallback_locales,
    );
    answers::law_wanted_version_is_rendered(
        config,
        call,
        request,
        active,
        create_request.version,
        0,
    );
}

} // verus!
