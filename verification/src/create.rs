//! Storing versions.
use vstd::prelude::*;

use crate::auth;
use crate::auth::{AdminView, AuthorizedAdmin, Call, CallView, CREATE_VERSION_OPERATION};
use crate::config::ConfigView;
use crate::failure::{RuntimeFailure, TemplateFailure};
use crate::identifier;
use crate::locale;
use crate::plugin;
use crate::plugin::NotificationTemplatePlugin;
use crate::records;
use crate::records::{
    CreateRequestView, CreateVersionRequest, CreateVersionResponse, CreatedView,
};
use crate::render;
use crate::render::{DefinitionView, TemplateDefinition, RENDERER_IDENTITY};
use crate::store;
use crate::store::{
    Answer, AnswerView, Progress, ReceiptClaim, ReceiptKey, ReceiptKeyView, ReleaseKey,
    ReleaseKeyView, Statement, StatementView,
};
use crate::text;

verus! {

/// What is to be stored, for whom, and what the request is recognised by.
#[derive(Debug)]
pub struct CreatePlan {
    pub receipt: ReceiptKey,
    pub hash: Vec<u8>,
    pub release: ReleaseKey,
    pub definition: TemplateDefinition,
    pub required_variables: Vec<String>,
}

/// A [`CreatePlan`] by its texts and bytes.
pub struct CreatePlanView {
    pub receipt: ReceiptKeyView,
    pub hash: Seq<u8>,
    pub release: ReleaseKeyView,
    pub definition: DefinitionView,
    pub required_variables: Seq<Seq<char>>,
}

impl View for CreatePlan {
    type V = CreatePlanView;

    open spec fn view(&self) -> CreatePlanView {
        CreatePlanView {
            receipt: self.receipt@,
            hash: self.hash@,
            release: self.release@,
            definition: self.definition@,
            required_variables: text::texts(self.required_variables@),
        }
    }
}

/// What a command to store waits for.
#[derive(Debug)]
pub enum CreateState<R> {
    Beginning,
    Claiming,
    Reading,
    Inserting,
    Completing(R),
    /// The transaction's end; then the answer, if there is one that is understood.
    Committing(Option<R>),
}

impl<R: View> View for CreateState<R> {
    type V = CreateState<R::V>;

    open spec fn view(&self) -> CreateState<R::V> {
        match self {
            CreateState::Beginning => CreateState::Beginning,
            CreateState::Claiming => CreateState::Claiming,
            CreateState::Reading => CreateState::Reading,
            CreateState::Inserting => CreateState::Inserting,
            CreateState::Completing(response) => CreateState::Completing(response@),
            CreateState::Committing(Some(response)) => CreateState::Committing(Some(response@)),
            CreateState::Committing(None) => CreateState::Committing(None),
        }
    }
}

/// A command to store that is being carried out.
#[derive(Debug)]
pub struct CreateCommand {
    pub plan: CreatePlan,
    pub state: CreateState<CreateVersionResponse>,
}

/// A [`CreateCommand`] by its texts and bytes.
pub struct CreateCommandView {
    pub plan: CreatePlanView,
    pub state: CreateState<CreatedView>,
}

impl View for CreateCommand {
    type V = CreateCommandView;

    open spec fn view(&self) -> CreateCommandView {
        CreateCommandView { plan: self.plan@, state: self.state@ }
    }
}

/// The request can be carried out: its names and key are well formed, its locale is a tag, and its
/// sources can be rendered.
pub open spec fn well_formed(request: CreateRequestView) -> bool {
    &&& locale::canonical_locale(request.locale) is Some
    &&& identifier::identifier(request.template_id, 160)
    &&& identifier::identifier(request.version, 80)
    &&& identifier::idempotency_key(request.idempotency_key)
    &&& render::valid_definition(request.definition())
}

/// The plan for a well-formed request of an administrator.
pub open spec fn create_plan(admin: AdminView, request: CreateRequestView) -> CreatePlanView {
    CreatePlanView {
        receipt: ReceiptKeyView {
            caller: admin.caller,
            subject: admin.subject,
            operation: CREATE_VERSION_OPERATION@,
            idempotency_key: request.idempotency_key,
        },
        hash: request.hash(),
        release: ReleaseKeyView {
            template_id: request.template_id,
            version: request.version,
            locale: locale::canonical_locale(request.locale)->0,
        },
        definition: request.definition(),
        required_variables: render::required_names(request.definition()),
    }
}

/// How an administrator's request begins.
pub open spec fn create_begun(
    prepared: bool,
    admin: AdminView,
    request: CreateRequestView,
) -> Progress<CreateCommandView, CreatedView> {
    if !well_formed(request) {
        plugin::refused(TemplateFailure::InvalidRequest)
    } else if !prepared {
        plugin::failed(RuntimeFailure::NotPrepared)
    } else {
        Progress::Ask(
            CreateCommandView {
                plan: create_plan(admin, request),
                state: CreateState::Beginning,
            },
        )
    }
}

/// How a call begins.
pub open spec fn create_called(
    config: ConfigView,
    prepared: bool,
    call: CallView,
    request: CreateRequestView,
) -> Progress<CreateCommandView, CreatedView> {
    match auth::administrator(config, call, CREATE_VERSION_OPERATION@) {
        Ok(admin) => create_begun(prepared, admin, request),
        Err(failure) => Progress::Done(Err(plugin::authorization_error(failure))),
    }
}

/// What is answered when the version has been stored.
pub open spec fn created(plan: CreatePlanView, created_at: Seq<char>) -> CreatedView {
    CreatedView {
        template_id: plan.release.template_id,
        version: plan.release.version,
        locale: plan.release.locale,
        revision: "1"@,
        required_variables: plan.required_variables,
        renderer_identity: RENDERER_IDENTITY@,
        template_digest: render::definition_digest(plan.definition),
        created_at,
        idempotent_replay: false,
    }
}

/// An earlier answer as it is given again.
pub open spec fn replayed(response: CreatedView) -> CreatedView {
    CreatedView { idempotent_replay: true, ..response }
}

/// What the command asks of the storage.
pub open spec fn create_statement(command: CreateCommandView) -> StatementView<CreatedView> {
    let plan = command.plan;
    match command.state {
        CreateState::Beginning => StatementView::Begin,
        CreateState::Claiming => StatementView::InsertReceipt {
            key: plan.receipt,
            hash: plan.hash,
        },
        CreateState::Reading => StatementView::SelectReceipt { key: plan.receipt },
        CreateState::Inserting => StatementView::InsertVersion {
            release: plan.release,
            definition: plan.definition,
            renderer_identity: RENDERER_IDENTITY@,
            created_by: plan.receipt.subject,
        },
        CreateState::Completing(response) => StatementView::CompleteReceipt {
            key: plan.receipt,
            response,
        },
        CreateState::Committing(_) => StatementView::Commit,
    }
}

/// The command in another state.
pub open spec fn create_awaits(
    command: CreateCommandView,
    state: CreateState<CreatedView>,
) -> Progress<CreateCommandView, CreatedView> {
    Progress::Ask(CreateCommandView { state, ..command })
}

/// How the command goes on when the storage has answered.
pub open spec fn create_answered(
    command: CreateCommandView,
    answer: AnswerView<CreatedView>,
) -> Progress<CreateCommandView, CreatedView> {
    let plan = command.plan;
    match (command.state, answer) {
        (CreateState::Beginning, AnswerView::Done) => create_awaits(
            command,
            CreateState::Claiming,
        ),
        (CreateState::Claiming, AnswerView::Rows(rows)) => if rows == 1 {
            create_awaits(command, CreateState::Inserting)
        } else {
            create_awaits(command, CreateState::Reading)
        },
        (CreateState::Reading, AnswerView::Receipt { hash, result }) => match store::claim(
            hash,
            result,
            plan.hash,
        ) {
            Ok(ReceiptClaim::Replay(response)) => create_awaits(
                command,
                CreateState::Committing(Some(replayed(response))),
            ),
            Ok(ReceiptClaim::Unreadable) => create_awaits(command, CreateState::Committing(None)),
            Ok(ReceiptClaim::Conflict) => plugin::refused(TemplateFailure::IdempotencyConflict),
            Ok(ReceiptClaim::InProgress) => plugin::refused(TemplateFailure::Conflict),
            Err(failure) => plugin::failed(failure),
        },
        (CreateState::Inserting, AnswerView::Moment(nanos)) => match records::moment_text(nanos) {
            Ok(created_at) => create_awaits(
                command,
                CreateState::Completing(created(plan, created_at)),
            ),
            Err(failure) => plugin::failed(failure),
        },
        (CreateState::Inserting, AnswerView::Failed { code }) => if store::key_taken(code) {
            plugin::refused(TemplateFailure::Conflict)
        } else {
            plugin::failed(RuntimeFailure::Database)
        },
        (CreateState::Completing(response), AnswerView::Rows(rows)) => if rows == 1 {
            create_awaits(command, CreateState::Committing(Some(response)))
        } else {
            plugin::failed(RuntimeFailure::ReceiptOwnershipLost)
        },
        (CreateState::Committing(Some(response)), AnswerView::Done) => Progress::Done(Ok(response)),
        (CreateState::Committing(None), AnswerView::Done) => plugin::failed(
            RuntimeFailure::Representation,
        ),
        _ => plugin::failed(RuntimeFailure::Database),
    }
}

impl CreateVersionResponse {
    /// A copy of the answer.
    pub fn copy(&self) -> (res: Self)
        ensures
            res@ == self@,
    {
        CreateVersionResponse {
            template_id: self.template_id.clone(),
            version: self.version.clone(),
            locale: self.locale.clone(),
            revision: self.revision.clone(),
            required_variables: text::clone_list(&self.required_variables),
            renderer_identity: self.renderer_identity.clone(),
            template_digest: self.template_digest.clone(),
            created_at: self.created_at.clone(),
            idempotent_replay: self.idempotent_replay,
        }
    }
}

impl CreatePlan {
    /// What is answered when the version has been stored.
    pub fn created(&self, created_at: String) -> (res: CreateVersionResponse)
        ensures
            res@ == created(self@, created_at@),
    {
        CreateVersionResponse {
            template_id: self.release.template_id.clone(),
            version: self.release.version.clone(),
            locale: self.release.locale.clone(),
            revision: "1".to_owned(),
            required_variables: text::clone_list(&self.required_variables),
            renderer_identity: RENDERER_IDENTITY.to_owned(),
            template_digest: render::template_digest(&self.definition),
            created_at,
            idempotent_replay: false,
        }
    }
}

/// The command for a plan in a state.
fn awaiting(plan: CreatePlan, state: CreateState<CreateVersionResponse>) -> (res: Progress<
    CreateCommand,
    CreateVersionResponse,
>)
    ensures
        res@ == Progress::<CreateCommandView, CreatedView>::Ask(
            CreateCommandView { plan: plan@, state: state@ },
        ),
{
    Progress::Ask(CreateCommand { plan, state })
}

impl CreateCommand {
    /// What the command asks of the storage.
    pub fn statement(&self) -> (res: Statement<CreateVersionResponse>)
        ensures
            res@ == create_statement(self@),
    {
        match &self.state {
            CreateState::Beginning => Statement::Begin,
            CreateState::Claiming => Statement::InsertReceipt {
                key: self.plan.receipt.clone(),
                hash: self.plan.hash.clone(),
            },
            CreateState::Reading => Statement::SelectReceipt { key: self.plan.receipt.clone() },
            CreateState::Inserting => Statement::InsertVersion {
                release: self.plan.release.clone(),
                definition: TemplateDefinition {
                    subject: self.plan.definition.subject.clone(),
                    text: self.plan.definition.text.clone(),
                    html: self.plan.definition.html.clone(),
                },
                renderer_identity: RENDERER_IDENTITY.to_owned(),
                created_by: self.plan.receipt.subject.clone(),
            },
            CreateState::Completing(response) => Statement::CompleteReceipt {
                key: self.plan.receipt.clone(),
                response: response.copy(),
            },
            CreateState::Committing(_) => Statement::Commit,
        }
    }

    /// Goes on with the command when the storage has answered.
    pub fn answered(self, answer: Answer<CreateVersionResponse>) -> (res: Progress<
        CreateCommand,
        CreateVersionResponse,
    >)
        ensures
            res@ == create_answered(self@, answer@),
    {
        let CreateCommand { plan, state } = self;
        match (state, answer) {
            (CreateState::Beginning, Answer::Done) => awaiting(plan, CreateState::Claiming),
            (CreateState::Claiming, Answer::Rows(rows)) => if rows == 1 {
                awaiting(plan, CreateState::Inserting)
            } else {
                awaiting(plan, CreateState::Reading)
            },
            (CreateState::Reading, Answer::Receipt { hash, result }) => {
                match store::claim_receipt(&hash, result, &plan.hash) {
                    Ok(ReceiptClaim::Replay(mut response)) => {
                        response.idempotent_replay = true;
                        awaiting(plan, CreateState::Committing(Some(response)))
                    },
                    Ok(ReceiptClaim::Unreadable) => awaiting(plan, CreateState::Committing(None)),
                    Ok(ReceiptClaim::Conflict) => plugin::refuse(
                        TemplateFailure::IdempotencyConflict,
                    ),
                    Ok(ReceiptClaim::InProgress) => plugin::refuse(TemplateFailure::Conflict),
                    Err(failure) => plugin::fail(failure),
                }
            },
            (CreateState::Inserting, Answer::Moment(nanos)) => {
                match records::timestamp(nanos) {
                    Ok(created_at) => {
                        let response = plan.created(created_at);
                        awaiting(plan, CreateState::Completing(response))
                    },
                    Err(failure) => plugin::fail(failure),
                }
            },
            (CreateState::Inserting, Answer::Failed { code }) => if store::unique_violation(&code) {
                plugin::refuse(TemplateFailure::Conflict)
            } else {
                plugin::fail(RuntimeFailure::Database)
            },
            (CreateState::Completing(response), Answer::Rows(rows)) => {
                match store::complete_receipt(rows) {
                    Ok(()) => awaiting(plan, CreateState::Committing(Some(response))),
                    Err(failure) => plugin::fail(failure),
                }
            },
            (CreateState::Committing(Some(response)), Answer::Done) => plugin::reply(response),
            (CreateState::Committing(None), Answer::Done) => plugin::fail(
                RuntimeFailure::Representation,
            ),
            _ => plugin::fail(RuntimeFailure::Database),
        }
    }
}

impl NotificationTemplatePlugin {
    /// Begins to store a version for an administrator.
    pub fn create_version_value(
        &self,
        admin: AuthorizedAdmin,
        request: CreateVersionRequest,
    ) -> (res: Progress<CreateCommand, CreateVersionResponse>)
        ensures
            res@ == create_begun(self.prepared, admin@, request@),
    {
        let locale = match locale::normalize_locale(request.locale.as_str()) {
            Some(locale) => locale,
            None => {
                return plugin::refuse(TemplateFailure::InvalidRequest);
            },
        };
        if !identifier::valid_identifier(request.template_id.as_str(), 160)
            || !identifier::valid_identifier(request.version.as_str(), 80)
            || !identifier::valid_idempotency_key(request.idempotency_key.as_str()) {
            return plugin::refuse(TemplateFailure::InvalidRequest);
        }
        let definition = TemplateDefinition {
            subject: request.subject_template.clone(),
            text: request.text_template.clone(),
            html: request.html_template.clone(),
        };
        let required_variables = match render::validate_definition(&definition) {
            Ok(required) => required,
            Err(_) => {
                return plugin::refuse(TemplateFailure::InvalidRequest);
            },
        };
        proof {
            render::lemma_required_names(text::texts(required_variables@), definition@);
        }
        if let Err(failure) = self.require_prepared() {
            return plugin::fail(failure);
        }
        let hash = match request.request_hash() {
            Ok(hash) => hash,
            Err(failure) => {
                return plugin::fail(failure);
            },
        };
        let plan = CreatePlan {
            receipt: ReceiptKey {
                caller: admin.caller,
                subject: admin.subject,
                operation: CREATE_VERSION_OPERATION.to_owned(),
                idempotency_key: request.idempotency_key,
            },
            hash,
            release: ReleaseKey {
                template_id: request.template_id,
                version: request.version,
                locale,
            },
            definition,
            required_variables,
        };
        awaiting(plan, CreateState::Beginning)
    }

    /// Begins to store a version for a caller.
    pub fn create_version(&self, call: &Call, request: CreateVersionRequest) -> (res: Progress<
        CreateCommand,
        CreateVersionResponse,
    >)
        ensures
            res@ == create_called(self.config@, self.prepared, call@, request@),
            res is Ask ==> auth::bound_to(self.config@, call@, CREATE_VERSION_OPERATION@),
    {
        match self.config.authorize_call(call, CREATE_VERSION_OPERATION) {
            Ok(admin) => self.create_version_value(admin, request),
            Err(failure) => Progress::Done(Err(plugin::unauthorized(failure))),
        }
    }
}

/// How many statements a command asks for at most from a state on.
pub open spec fn statements_left(state: CreateState<CreatedView>) -> nat {
    match state {
        CreateState::Beginning => 5,
        CreateState::Claiming => 4,
        CreateState::Inserting => 3,
        CreateState::Completing(_) => 2,
        CreateState::Reading => 2,
        CreateState::Committing(_) => 1,
    }
}

/// A command comes to an end, whatever the storage answers, and a statement that fails ends it in
/// an error at once.
pub proof fn law_create_command_ends(command: CreateCommandView, answer: AnswerView<CreatedView>)
    ensures
        create_answered(command, answer) matches Progress::Ask(next) ==> next.plan == command.plan
            && statements_left(next.state) < statements_left(command.state),
        answer is Failed ==> (create_answered(command, answer) matches Progress::Done(result)
            && result is Err),
{
}

/// A command succeeds only when the storage has committed its transaction.
pub proof fn law_create_succeeds_by_commit(
    command: CreateCommandView,
    answer: AnswerView<CreatedView>,
    response: CreatedView,
)
    requires
        create_answered(command, answer) == Progress::<CreateCommandView, CreatedView>::Done(
            Ok(response),
        ),
    ensures
        create_statement(command) is Commit,
        answer is Done,
{
}

} // verus!
