//! Values and what the contracts see of them.
use vstd::prelude::*;

use crate::activate::{ActivateCommand, ActivatePlan, ActivateState};
use crate::auth::{AuthorizedAdmin, Call, SealedAssertion, TemplateActor};
use crate::config::NotificationTemplateConfig;
use crate::create::{CreateCommand, CreatePlan, CreateState};
use crate::delivery::RenderQuery;
use crate::query::{Found, FoundView, GetQuery, ListQuery, Query, QueryView};
use crate::records::{
    ActivateVersionRequest, ActivateVersionResponse, CreateVersionRequest, CreateVersionResponse,
    GetVersionRequest, ListVersionsRequest, ListVersionsResponse, PreviewRequest, RenderRequest,
    RenderResponse, TemplateRecord, TemplateVersion,
};
use crate::render::{RenderedMessage, TemplateDefinition};
use crate::store::{
    Answer, AnswerView, Progress, ReceiptClaim, ReceiptKey, ReleaseKey, Statement, StatementView,
    StoredResult,
};
use crate::syntax;
use crate::syntax::{Node, NodeView};

verus! {

/// Requests, answers and records are seen by the contracts as they are, field by field.
pub proof fn law_requests_and_answers_are_seen_as_they_are(
    create_version_request: CreateVersionRequest,
    activate_version_request: ActivateVersionRequest,
    get_version_request: GetVersionRequest,
    list_versions_request: ListVersionsRequest,
    render_request: RenderRequest,
    preview_request: PreviewRequest,
    create_version_response: CreateVersionResponse,
    activate_version_response: ActivateVersionResponse,
    template_version: TemplateVersion,
    render_response: RenderResponse,
    template_record: TemplateRecord,
    list_versions_response: ListVersionsResponse,
)
    ensures
        create_version_request@.html_template == create_version_request.html_template@,
        create_version_request@.idempotency_key == create_version_request.idempotency_key@,
        create_version_request@.locale == create_version_request.locale@,
        create_version_request@.subject_template == create_version_request.subject_template@,
        create_version_request@.template_id == create_version_request.template_id@,
        create_version_request@.text_template == create_version_request.text_template@,
        create_version_request@.version == create_version_request.version@,
        activate_version_request@.expected_revision == activate_version_request.expected_revision@,
        activate_version_request@.idempotency_key == activate_version_request.idempotency_key@,
        activate_version_request@.template_id == activate_version_request.template_id@,
        activate_version_request@.version == activate_version_request.version@,
        get_version_request@.locale == get_version_request.locale@,
        get_version_request@.template_id == get_version_request.template_id@,
        get_version_request@.version == get_version_request.version@,
        list_versions_request@.count == list_versions_request.count,
        list_versions_request@.start_index == list_versions_request.start_index,
        list_versions_request.template_id is None ==> list_versions_request@.template_id is None,
        list_versions_request.template_id is Some
            ==> list_versions_request@.template_id == Some(list_versions_request.template_id->0@),
        render_request@.locale == render_request.locale@,
        render_request@.template_id == render_request.template_id@,
        render_request@.variables == render_request.variables@,
        render_request.version is None ==> render_request@.version is None,
        render_request.version is Some
            ==> render_request@.version == Some(render_request.version->0@),
        preview_request@.html_template == preview_request.html_template@,
        preview_request@.locale == preview_request.locale@,
        preview_request@.subject_template == preview_request.subject_template@,
        preview_request@.template_id == preview_request.template_id@,
        preview_request@.text_template == preview_request.text_template@,
        preview_request@.variables == preview_request.variables@,
        preview_request@.version == preview_request.version@,
        create_version_response@.template_id == create_version_response.template_id@,
        create_version_response@.version == create_version_response.version@,
        create_version_response@.locale == create_version_response.locale@,
        create_version_response@.revision == create_version_response.revision@,
        create_version_response@.required_variables.len() == create_version_response.required_variables@.len(),
        forall|i: int|
            0 <= i < create_version_response.required_variables@.len()
                ==> #[trigger] create_version_response@.required_variables[i]
                == create_version_response.required_variables@[i]@,
        create_version_response@.renderer_identity == create_version_response.renderer_identity@,
        create_version_response@.template_digest == create_version_response.template_digest@,
        create_version_response@.created_at == create_version_response.created_at@,
        create_version_response@.idempotent_replay == create_version_response.idempotent_replay,
        activate_version_response@.template_id == activate_version_response.template_id@,
        activate_version_response@.active_version == activate_version_response.active_version@,
        activate_version_response@.revision == activate_version_response.revision@,
        activate_version_response@.updated_at == activate_version_response.updated_at@,
        activate_version_response@.idempotent_replay == activate_version_response.idempotent_replay,
        template_version@.template_id == template_version.template_id@,
        template_version@.version == template_version.version@,
        template_version@.locale == template_version.locale@,
        template_version@.revision == template_version.revision@,
        template_version@.subject_template == template_version.subject_template@,
        template_version@.text_template == template_version.text_template@,
        template_version@.html_template == template_version.html_template@,
        template_version@.required_variables.len() == template_version.required_variables@.len(),
        forall|i: int|
            0 <= i < template_version.required_variables@.len()
                ==> #[trigger] template_version@.required_variables[i]
                == template_version.required_variables@[i]@,
        template_version@.renderer_identity == template_version.renderer_identity@,
        template_version@.template_digest == template_version.template_digest@,
        template_version@.created_by == template_version.created_by@,
        template_version@.created_at == template_version.created_at@,
        template_version@.active == template_version.active,
        template_version.head_revision is None ==> template_version@.head_revision is None,
        template_version.head_revision is Some
            ==> template_version@.head_revision == Some(template_version.head_revision->0@),
        render_response@.template_id == render_response.template_id@,
        render_response@.version == render_response.version@,
        render_response@.requested_locale == render_response.requested_locale@,
        render_response@.resolved_locale == render_response.resolved_locale@,
        render_response@.fallback_used == render_response.fallback_used,
        render_response@.renderer_identity == render_response.renderer_identity@,
        render_response@.template_digest == render_response.template_digest@,
        render_response@.content_digest == render_response.content_digest@,
        render_response@.subject == render_response.subject@,
        render_response@.text == render_response.text@,
        render_response@.html == render_response.html@,
        template_record@.template_id == template_record.template_id@,
        template_record@.version == template_record.version@,
        template_record@.locale == template_record.locale@,
        template_record@.revision == template_record.revision,
        template_record@.subject_template == template_record.subject_template@,
        template_record@.text_template == template_record.text_template@,
        template_record@.html_template == template_record.html_template@,
        template_record@.renderer_identity == template_record.renderer_identity@,
        template_record@.created_by == template_record.created_by@,
        template_record@.created_at == template_record.created_at,
        template_record.active_version is None ==> template_record@.active_version is None,
        template_record.active_version is Some
            ==> template_record@.active_version == Some(template_record.active_version->0@),
        template_record.head_revision is None ==> template_record@.head_revision is None,
        template_record.head_revision is Some
            ==> template_record@.head_revision == Some(template_record.head_revision->0 as int),
        list_versions_response@.resources.len() == list_versions_response.resources@.len(),
        forall|i: int|
            0 <= i < list_versions_response.resources@.len()
                ==> #[trigger] list_versions_response@.resources[i]
                == list_versions_response.resources@[i]@,
        list_versions_response@.total_results == list_versions_response.total_results,
        list_versions_response@.start_index == list_versions_response.start_index,
        list_versions_response@.items_per_page == list_versions_response.items_per_page,
{
}

/// Calls, actors and administrators are seen as they are, field by field.
pub proof fn law_calls_are_seen_as_they_are(
    sealed_assertion: SealedAssertion,
    call: Call,
    template_actor: TemplateActor,
    authorized_admin: AuthorizedAdmin,
)
    ensures
        sealed_assertion@.issuer == sealed_assertion.issuer@,
        sealed_assertion@.audience.len() == sealed_assertion.audience@.len(),
        forall|i: int|
            0 <= i < sealed_assertion.audience@.len()
                ==> #[trigger] sealed_assertion@.audience[i] == sealed_assertion.audience@[i]@,
        sealed_assertion@.value == sealed_assertion.value@,
        sealed_assertion@.proof == sealed_assertion.proof@,
        call.caller is None ==> call@.caller is None,
        call.caller is Some ==> call@.caller == Some(call.caller->0@),
        call.assertion is None ==> call@.assertion is None,
        call.assertion is Some ==> call@.assertion == Some(call.assertion->0@),
        call@.now == call.now,
        template_actor@.subject == template_actor.subject@,
        template_actor@.kind == template_actor.kind@,
        authorized_admin@.caller == authorized_admin.caller@,
        authorized_admin@.subject == authorized_admin.subject@,
{
}

/// Configurations are seen as they are, field by field.
pub proof fn law_configurations_are_seen_as_they_are(
    config: NotificationTemplateConfig,
)
    ensures
        config@.schema == config.schema@,
        config@.database_url_secret == config.database_url_secret@,
        config@.auth_issuer == config.auth_issuer@,
        config@.auth_assertion_public_key == config.auth_assertion_public_key@,
        config@.render_callers.len() == config.render_callers@.len(),
        forall|i: int|
            0 <= i < config.render_callers@.len()
                ==> #[trigger] config@.render_callers[i] == config.render_callers@[i]@,
        config@.admin_callers.len() == config.admin_callers@.len(),
        forall|i: int|
            0 <= i < config.admin_callers@.len()
                ==> #[trigger] config@.admin_callers[i] == config.admin_callers@[i]@,
        config@.admin_actor_kinds.len() == config.admin_actor_kinds@.len(),
        forall|i: int|
            0 <= i < config.admin_actor_kinds@.len()
                ==> #[trigger] config@.admin_actor_kinds[i] == config.admin_actor_kinds@[i]@,
        config@.fallback_locales.len() == config.fallback_locales@.len(),
        forall|i: int|
            0 <= i < config.fallback_locales@.len()
                ==> #[trigger] config@.fallback_locales[i] == config.fallback_locales@[i]@,
{
}

/// Definitions and messages are seen as they are, field by field.
pub proof fn law_definitions_and_messages_are_seen_as_they_are(
    definition: TemplateDefinition,
    message: RenderedMessage,
)
    ensures
        definition@.subject == definition.subject@,
        definition@.text == definition.text@,
        definition@.html == definition.html@,
        message@.subject == message.subject@,
        message@.text == message.text@,
        message@.html == message.html@,
        message@.required_variables.len() == message.required_variables@.len(),
        forall|i: int|
            0 <= i < message.required_variables@.len()
                ==> #[trigger] message@.required_variables[i] == message.required_variables@[i]@,
        message@.template_digest == message.template_digest@,
        message@.content_digest == message.content_digest@,
{
}

/// Keys of receipts and versions are seen as they are, field by field.
pub proof fn law_keys_are_seen_as_they_are(
    receipt_key: ReceiptKey,
    release_key: ReleaseKey,
)
    ensures
        receipt_key@.caller == receipt_key.caller@,
        receipt_key@.subject == receipt_key.subject@,
        receipt_key@.operation == receipt_key.operation@,
        receipt_key@.idempotency_key == receipt_key.idempotency_key@,
        release_key@.template_id == release_key.template_id@,
        release_key@.version == release_key.version@,
        release_key@.locale == release_key.locale@,
{
}

/// Plans and commands to store are seen as they are, field by field.
pub proof fn law_commands_to_store_are_seen_as_they_are(
    create_plan: CreatePlan,
    create_command: CreateCommand,
)
    ensures
        create_plan@.receipt == create_plan.receipt@,
        create_plan@.hash == create_plan.hash@,
        create_plan@.release == create_plan.release@,
        create_plan@.definition == create_plan.definition@,
        create_plan@.required_variables.len() == create_plan.required_variables@.len(),
        forall|i: int|
            0 <= i < create_plan.required_variables@.len()
                ==> #[trigger] create_plan@.required_variables[i]
                == create_plan.required_variables@[i]@,
        create_command@.plan == create_command.plan@,
        create_command@.state == create_command.state@,
{
}

/// Plans and commands to activate are seen as they are, field by field.
pub proof fn law_commands_to_activate_are_seen_as_they_are(
    activate_plan: ActivatePlan,
    activate_command: ActivateCommand,
)
    ensures
        activate_plan@.receipt == activate_plan.receipt@,
        activate_plan@.hash == activate_plan.hash@,
        activate_plan@.template_id == activate_plan.template_id@,
        activate_plan@.version == activate_plan.version@,
        activate_plan@.expected_revision == activate_plan.expected_revision,
        activate_command@.plan == activate_command.plan@,
        activate_command@.state == activate_command.state@,
{
}

/// Looks are seen as they are, field by field.
pub proof fn law_looks_are_seen_as_they_are(
    get_query: GetQuery,
    list_query: ListQuery,
)
    ensures
        get_query@.release == get_query.release@,
        list_query.template_id is None ==> list_query@.template_id is None,
        list_query.template_id is Some
            ==> list_query@.template_id == Some(list_query.template_id->0@),
        list_query@.count == list_query.count,
        list_query@.start_index == list_query.start_index,
        list_query@.offset == list_query.offset,
        list_query.total is None ==> list_query@.total is None,
        list_query.total is Some ==> list_query@.total == Some(list_query.total->0 as int),
{
}

/// A rendering that is under way is seen as it is; of its candidates, those that are left are seen.
pub proof fn law_renderings_are_seen_as_they_are(
    render_query: RenderQuery,
)
    ensures
        render_query@.template_id == render_query.template_id@,
        render_query.version is None ==> render_query@.version is None,
        render_query.version is Some ==> render_query@.version == Some(render_query.version->0@),
        render_query@.requested_locale == render_query.requested_locale@,
        render_query@.locale == render_query.locale@,
        render_query@.variables == render_query.variables@,
        render_query.next <= render_query.candidates@.len()
            ==> render_query@.later.len() == render_query.candidates@.len() - render_query.next,
        forall|i: int|
            render_query.next <= i < render_query.candidates@.len()
                ==> render_query@.later[i - render_query.next]
                == #[trigger] render_query.candidates@[i]@,
        render_query.next > render_query.candidates@.len() ==> render_query@.later.len() == 0,
{
}

/// Questions are seen as they are.
pub proof fn law_questions_are_seen_as_they_are(question: Query)
    ensures
        ({
            match question {
                Query::Template { release } => question@ == QueryView::Template {
                    release: release@,
                },
                Query::ActiveVersion { template_id } => question@ == QueryView::ActiveVersion {
                    template_id: template_id@,
                },
                Query::Count { template_id: Some(template_id) } => question@ == QueryView::Count {
                    template_id: Some(template_id@),
                },
                Query::Count { template_id: None } => question@ == QueryView::Count {
                    template_id: None,
                },
                Query::Templates { template_id: Some(template_id), limit, offset } => question@
                    == QueryView::Templates {
                    template_id: Some(template_id@),
                    limit: limit as int,
                    offset: offset as int,
                },
                Query::Templates { template_id: None, limit, offset } => question@
                    == QueryView::Templates {
                    template_id: None,
                    limit: limit as int,
                    offset: offset as int,
                },
            }
        }),
{
}

/// Findings are seen as they are.
pub proof fn law_findings_are_seen_as_they_are(found: Found)
    ensures
        ({
            match found {
                Found::Failed => found@ is Failed,
                Found::Template(None) => found@ == FoundView::Template(None),
                Found::Template(Some(record)) => found@ == FoundView::Template(Some(record@)),
                Found::ActiveVersion(None) => found@ == FoundView::ActiveVersion(None),
                Found::ActiveVersion(Some(version)) => found@ == FoundView::ActiveVersion(
                    Some(version@),
                ),
                Found::Count(count) => found@ == FoundView::Count(count as int),
                Found::Templates(list) => {
                    &&& found@ is Templates
                    &&& found@->Templates_0.len() == list@.len()
                    &&& forall|i: int|
                        0 <= i < list@.len() ==> #[trigger] found@->Templates_0[i] == list@[i]@
                },
            }
        }),
{
}

/// Statements are seen as they are.
pub proof fn law_statements_are_seen_as_they_are<R: View>(statement: Statement<R>)
    ensures
        ({
            match statement {
                Statement::Begin => statement@ is Begin,
                Statement::Commit => statement@ is Commit,
                Statement::InsertReceipt { key, hash } => statement@
                    == StatementView::<R::V>::InsertReceipt { key: key@, hash: hash@ },
                Statement::SelectReceipt { key } => statement@
                    == StatementView::<R::V>::SelectReceipt {
                    key: key@,
                },
                Statement::InsertVersion {
                    release,
                    definition,
                    renderer_identity,
                    created_by,
                } => statement@ == StatementView::<R::V>::InsertVersion {
                    release: release@,
                    definition: definition@,
                    renderer_identity: renderer_identity@,
                    created_by: created_by@,
                },
                Statement::VersionExists { template_id, version } => statement@
                    == StatementView::<R::V>::VersionExists {
                    template_id: template_id@,
                    version: version@,
                },
                Statement::SelectHead { template_id } => statement@
                    == StatementView::<R::V>::SelectHead {
                    template_id: template_id@,
                },
                Statement::InsertHead { template_id, version, updated_by } => statement@
                    == StatementView::<R::V>::InsertHead {
                    template_id: template_id@,
                    version: version@,
                    updated_by: updated_by@,
                },
                Statement::UpdateHead { template_id, version, revision, updated_by } => statement@
                    == StatementView::<R::V>::UpdateHead {
                    template_id: template_id@,
                    version: version@,
                    revision: revision as int,
                    updated_by: updated_by@,
                },
                Statement::HeadUpdatedAt { template_id } => statement@
                    == StatementView::<R::V>::HeadUpdatedAt { template_id: template_id@ },
                Statement::CompleteReceipt { key, response } => statement@
                    == StatementView::<R::V>::CompleteReceipt { key: key@, response: response@ },
            }
        }),
{
}

/// The storage's answers are seen as they are.
pub proof fn law_answers_are_seen_as_they_are<R: View>(
    answer: Answer<R>,
    stored: StoredResult<R>,
    claim: ReceiptClaim<R>,
)
    ensures
        ({
            match answer {
                Answer::Failed { code: None } => answer@
                    == AnswerView::<R::V>::Failed { code: None },
                Answer::Failed { code: Some(code) } => answer@ == AnswerView::<R::V>::Failed {
                    code: Some(code@),
                },
                Answer::Done => answer@ is Done,
                Answer::Rows(rows) => answer@ == AnswerView::<R::V>::Rows(rows as int),
                Answer::Receipt { hash, result } => answer@ == AnswerView::<R::V>::Receipt {
                    hash: hash@,
                    result: result@,
                },
                Answer::Moment(nanos) => answer@ == AnswerView::<R::V>::Moment(nanos as int),
                Answer::Exists(found) => answer@ == AnswerView::<R::V>::Exists(found),
                Answer::Head(head) => answer@ == AnswerView::<R::V>::Head(head),
            }
        }),
        ({
            match stored {
                StoredResult::Absent => stored@ is Absent,
                StoredResult::Undecodable => stored@ is Undecodable,
                StoredResult::Foreign => stored@ is Foreign,
                StoredResult::Known(response) => stored@ == StoredResult::Known(response@),
            }
        }),
        ({
            match claim {
                ReceiptClaim::Replay(response) => claim@ == ReceiptClaim::Replay(response@),
                ReceiptClaim::Unreadable => claim@ is Unreadable,
                ReceiptClaim::Conflict => claim@ is Conflict,
                ReceiptClaim::InProgress => claim@ is InProgress,
            }
        }),
{
}

/// How far an operation is, is seen as it is.
pub proof fn law_progress_is_seen_as_it_is<C: View, T: View>(progress: Progress<C, T>)
    ensures
        ({
            match progress {
                Progress::Ask(command) => progress@ == Progress::<C::V, T::V>::Ask(command@),
                Progress::Done(Ok(reply)) => progress@ == Progress::<C::V, T::V>::Done(Ok(reply@)),
                Progress::Done(Err(error)) => progress@ == Progress::<C::V, T::V>::Done(Err(error)),
            }
        }),
{
}

/// What a command waits for is seen as it is.
pub proof fn law_states_are_seen_as_they_are<R: View>(
    storing: CreateState<R>,
    activating: ActivateState<R>,
)
    ensures
        ({
            match storing {
                CreateState::Beginning => storing@ is Beginning,
                CreateState::Claiming => storing@ is Claiming,
                CreateState::Reading => storing@ is Reading,
                CreateState::Inserting => storing@ is Inserting,
                CreateState::Completing(response) => storing@ == CreateState::Completing(
                    response@,
                ),
                CreateState::Committing(Some(response)) => storing@ == CreateState::Committing(
                    Some(response@),
                ),
                CreateState::Committing(None) => storing@ == CreateState::Committing(
                    None::<R::V>,
                ),
            }
        }),
        ({
            match activating {
                ActivateState::Beginning => activating@ is Beginning,
                ActivateState::Claiming => activating@ is Claiming,
                ActivateState::Reading => activating@ is Reading,
                ActivateState::Checking => activating@ is Checking,
                ActivateState::Locking => activating@ is Locking,
                ActivateState::Moving { revision, first } => activating@ == ActivateState::<
                    R::V,
                >::Moving { revision, first },
                ActivateState::Timing { revision } => activating@ == ActivateState::<
                    R::V,
                >::Timing { revision },
                ActivateState::Completing(response) => activating@ == ActivateState::Completing(
                    response@,
                ),
                ActivateState::Committing(Some(response)) => activating@
                    == ActivateState::Committing(Some(response@)),
                ActivateState::Committing(None) => activating@ == ActivateState::Committing(
                    None::<R::V>,
                ),
            }
        }),
{
}

/// The pieces of a template are seen as they are.
pub proof fn law_nodes_are_seen_as_they_are(node: Node, list: Vec<Node>, i: int)
    ensures
        ({
            match node {
                Node::Text(value) => node@ == NodeView::Text(value@),
                Node::Variable(name) => node@ == NodeView::Variable(name@),
                Node::Section { name, inverted, children } => node@ == NodeView::Section {
                    name: name@,
                    inverted,
                    children: syntax::nodes_view(children@),
                },
            }
        }),
        syntax::nodes_view(list@).len() == list@.len(),
        0 <= i < list@.len() ==> syntax::nodes_view(list@)[i] == list@[i]@,
{
}

} // verus!
