//! Moving active heads.
use vstd::prelude::*;

use crate::auth;
use crate::auth::{AdminView, AuthorizedAdmin, Call, CallView, ACTIVATE_VERSION_OPERATION};
use crate::config::ConfigView;
use crate::failure::{RuntimeFailure, TemplateFailure};
use crate::identifier;
use crate::number;
use crate::plugin;
use crate::plugin::NotificationTemplatePlugin;
use crate::records;
use crate::records::{
    ActivateRequestView, ActivateVersionRequest, ActivateVersionResponse, ActivatedView,
};
use crate::store;
use crate::store::{
    Answer, AnswerView, Progress, ReceiptClaim, ReceiptKey, ReceiptKeyView, Statement,
    StatementView,
};

verus! {

/// Which version is to become active at which revision, for whom, and what the request is
/// recognised by.
#[derive(Debug)]
pub struct ActivatePlan {
    pub receipt: ReceiptKey,
    pub hash: Vec<u8>,
    pub template_id: String,
    pub version: String,
    pub expected_revision: i64,
}

/// An [`ActivatePlan`] by its texts and bytes.
pub struct ActivatePlanView {
    pub receipt: ReceiptKeyView,
    pub hash: Seq<u8>,
    pub template_id: Seq<char>,
    pub version: Seq<char>,
    pub expected_revision: int,
}

impl View for ActivatePlan {
    type V = ActivatePlanView;

    open spec fn view(&self) -> ActivatePlanView {
        ActivatePlanView {
            receipt: self.receipt@,
            hash: self.hash@,
            template_id: self.template_id@,
            version: self.version@,
            expected_revision: self.expected_revision as int,
        }
    }
}

/// What a command to activate waits for.
#[derive(Debug)]
pub enum ActivateState<R> {
    Beginning,
    Claiming,
    Reading,
    Checking,
    Locking,
    /// The head's move to a revision; `first` if there was no head.
    Moving { revision: i64, first: bool },
    Timing { revision: i64 },
    Completing(R),
    /// The transaction's end; then the answer, if there is one that is understood.
    Committing(Option<R>),
}

impl<R: View> View for ActivateState<R> {
    type V = ActivateState<R::V>;

    open spec fn view(&self) -> ActivateState<R::V> {
        match self {
            ActivateState::Beginning => ActivateState::Beginning,
            ActivateState::Claiming => ActivateState::Claiming,
            ActivateState::Reading => ActivateState::Reading,
            ActivateState::Checking => ActivateState::Checking,
            ActivateState::Locking => ActivateState::Locking,
            ActivateState::Moving { revision, first } => ActivateState::Moving {
                revision: *revision,
                first: *first,
            },
            ActivateState::Timing { revision } => ActivateState::Timing { revision: *revision },
            ActivateState::Completing(response) => ActivateState::Completing(response@),
            ActivateState::Committing(Some(response)) => ActivateState::Committing(
                Some(response@),
            ),
            ActivateState::Committing(None) => ActivateState::Committing(None),
        }
    }
}

/// A command to activate that is being carried out.
#[derive(Debug)]
pub struct ActivateCommand {
    pub plan: ActivatePlan,
    pub state: ActivateState<ActivateVersionResponse>,
}

/// An [`ActivateCommand`] by its texts and bytes.
pub struct ActivateCommandView {
    pub plan: ActivatePlanView,
    pub state: ActivateState<ActivatedView>,
}

impl View for ActivateCommand {
    type V = ActivateCommandView;

    open spec fn view(&self) -> ActivateCommandView {
        ActivateCommandView { plan: self.plan@, state: self.state@ }
    }
}

/// The revision that a request expects the head to have; zero stands for no head.
pub open spec fn expected_revision(request: ActivateRequestView) -> Option<int> {
    match number::integer_value(request.expected_revision) {
        Some(revision) => if revision >= 0 {
            Some(revision)
        } else {
            None
        },
        None => None,
    }
}

/// The request can be carried out: its names and key are well formed, and it expects a revision.
pub open spec fn well_formed(request: ActivateRequestView) -> bool {
    &&& expected_revision(request) is Some
    &&& identifier::identifier(request.template_id, 160)
    &&& identifier::identifier(request.version, 80)
    &&& identifier::idempotency_key(request.idempotency_key)
}

/// The plan for a well-formed request of an administrator.
pub open spec fn activate_plan(admin: AdminView, request: ActivateRequestView) -> ActivatePlanView {
    ActivatePlanView {
        receipt: ReceiptKeyView {
            caller: admin.caller,
            subject: admin.subject,
            operation: ACTIVATE_VERSION_OPERATION@,
            idempotency_key: request.idempotency_key,
        },
        hash: request.hash(),
        template_id: request.template_id,
        version: request.version,
        expected_revision: expected_revision(request)->0,
    }
}

/// How an administrator's request begins.
pub open spec fn activate_begun(
    prepared: bool,
    admin: AdminView,
    request: ActivateRequestView,
) -> Progress<ActivateCommandView, ActivatedView> {
    if !well_formed(request) {
        plugin::refused(TemplateFailure::InvalidRequest)
    } else if !prepared {
        plugin::failed(RuntimeFailure::NotPrepared)
    } else {
        Progress::Ask(
            ActivateCommandView {
                plan: activate_plan(admin, request),
                state: ActivateState::Beginning,
            },
        )
    }
}

/// How a call begins.
pub open spec fn activate_called(
    config: ConfigView,
    prepared: bool,
    call: CallView,
    request: ActivateRequestView,
) -> Progress<ActivateCommandView, ActivatedView> {
    match auth::administrator(config, call, ACTIVATE_VERSION_OPERATION@) {
        Ok(admin) => activate_begun(prepared, admin, request),
        Err(failure) => Progress::Done(Err(plugin::authorization_error(failure))),
    }
}

/// What is answered when the head has been moved.
pub open spec fn activated(
    plan: ActivatePlanView,
    revision: int,
    updated_at: Seq<char>,
) -> ActivatedView {
    ActivatedView {
        template_id: plan.template_id,
        active_version: plan.version,
        revision: number::integer_text(revision),
        updated_at,
        idempotent_replay: false,
    }
}

/// An earlier answer as it is given again.
pub open spec fn replayed(response: ActivatedView) -> ActivatedView {
    ActivatedView { idempotent_replay: true, ..response }
}

/// What the command asks of the storage.
pub open spec fn activate_statement(command: ActivateCommandView) -> StatementView<ActivatedView> {
    let plan = command.plan;
    match command.state {
        ActivateState::Beginning => StatementView::Begin,
        ActivateState::Claiming => StatementView::InsertReceipt {
            key: plan.receipt,
            hash: plan.hash,
        },
        ActivateState::Reading => StatementView::SelectReceipt { key: plan.receipt },
        ActivateState::Checking => StatementView::VersionExists {
            template_id: plan.template_id,
            version: plan.version,
        },
        ActivateState::Locking => StatementView::SelectHead { template_id: plan.template_id },
        ActivateState::Moving { revision, first } => if first {
            StatementView::InsertHead {
                template_id: plan.template_id,
                version: plan.version,
                updated_by: plan.receipt.subject,
            }
        } else {
            StatementView::UpdateHead {
                template_id: plan.template_id,
                version: plan.version,
                revision: revision as int,
                updated_by: plan.receipt.subject,
            }
        },
        ActivateState::Timing { revision } => StatementView::HeadUpdatedAt {
            template_id: plan.template_id,
        },
        ActivateState::Completing(response) => StatementView::CompleteReceipt {
            key: plan.receipt,
            response,
        },
        ActivateState::Committing(_) => StatementView::Commit,
    }
}

/// The command in another state.
pub open spec fn activate_awaits(
    command: ActivateCommandView,
    state: ActivateState<ActivatedView>,
) -> Progress<ActivateCommandView, ActivatedView> {
    Progress::Ask(ActivateCommandView { state, ..command })
}

/// How the command goes on when the head's revision is known.
pub open spec fn head_found(
    command: ActivateCommandView,
    head: Option<i64>,
) -> Progress<ActivateCommandView, ActivatedView> {
    let current: int = match head {
        Some(revision) => revision as int,
        None => 0,
    };
    if current != command.plan.expected_revision {
        plugin::refused(TemplateFailure::PreconditionFailed)
    } else if current == i64::MAX {
        plugin::failed(RuntimeFailure::RevisionExhausted)
    } else {
        activate_awaits(
            command,
            ActivateState::Moving { revision: (current + 1) as i64, first: head is None },
        )
    }
}

/// How the command goes on when the storage has answered.
pub open spec fn activate_answered(
    command: ActivateCommandView,
    answer: AnswerView<ActivatedView>,
) -> Progress<ActivateCommandView, ActivatedView> {
    let plan = command.plan;
    match (command.state, answer) {
        (ActivateState::Beginning, AnswerView::Done) => activate_awaits(
            command,
            ActivateState::Claiming,
        ),
        (ActivateState::Claiming, AnswerView::Rows(rows)) => if rows == 1 {
            activate_awaits(command, ActivateState::Checking)
        } else {
            activate_awaits(command, ActivateState::Reading)
        },
        (ActivateState::Reading, AnswerView::Receipt { hash, result }) => match store::claim(
            hash,
            result,
            plan.hash,
        ) {
            Ok(ReceiptClaim::Replay(response)) => activate_awaits(
                command,
                ActivateState::Committing(Some(replayed(response))),
            ),
            Ok(ReceiptClaim::Unreadable) => activate_awaits(
                command,
                ActivateState::Committing(None),
            ),
            Ok(ReceiptClaim::Conflict) => plugin::refused(TemplateFailure::IdempotencyConflict),
            Ok(ReceiptClaim::InProgress) => plugin::refused(TemplateFailure::Conflict),
            Err(failure) => plugin::failed(failure),
        },
        (ActivateState::Checking, AnswerView::Exists(found)) => if found {
            activate_awaits(command, ActivateState::Locking)
        } else {
            plugin::refused(TemplateFailure::NotFound)
        },
        (ActivateState::Locking, AnswerView::Head(head)) => head_found(command, head),
        (ActivateState::Moving { revision, first }, AnswerView::Done) => activate_awaits(
            command,
            ActivateState::Timing { revision },
        ),
        (ActivateState::Timing { revision }, AnswerView::Moment(nanos)) =>
            match records::moment_text(nanos) {
            Ok(updated_at) => activate_awaits(
                command,
                ActivateState::Completing(activated(plan, revision as int, updated_at)),
            ),
            Err(failure) => plugin::failed(failure),
        },
        (ActivateState::Completing(response), AnswerView::Rows(rows)) => if rows == 1 {
            activate_awaits(command, ActivateState::Committing(Some(response)))
        } else {
            plugin::failed(RuntimeFailure::ReceiptOwnershipLost)
        },
        (ActivateState::Committing(Some(response)), AnswerView::Done) => Progress::Done(
            Ok(response),
        ),
        (ActivateState::Committing(None), AnswerView::Done) => plugin::failed(
            RuntimeFailure::Representation,
        ),
        _ => plugin::failed(RuntimeFailure::Database),
    }
}

impl ActivateVersionResponse {
    /// A copy of the answer.
    pub fn copy(&self) -> (res: Self)
        ensures
            res@ == self@,
    {
        ActivateVersionResponse {
            template_id: self.template_id.clone(),
            active_version: self.active_version.clone(),
            revision: self.revision.clone(),
            updated_at: self.updated_at.clone(),
            idempotent_replay: self.idempotent_replay,
        }
    }
}

/// The command for a plan in a state.
fn awaiting(plan: ActivatePlan, state: ActivateState<ActivateVersionResponse>) -> (res: Progress<
    ActivateCommand,
    ActivateVersionResponse,
>)
    ensures
        res@ == Progress::<ActivateCommandView, ActivatedView>::Ask(
            ActivateCommandView { plan: plan@, state: state@ },
        ),
{
    Progress::Ask(ActivateCommand { plan, state })
}

impl ActivateCommand {
    /// What the command asks of the storage.
    pub fn statement(&self) -> (res: Statement<ActivateVersionResponse>)
        ensures
            res@ == activate_statement(self@),
    {
        match &self.state {
            ActivateState::Beginning => Statement::Begin,
            ActivateState::Claiming => Statement::InsertReceipt {
                key: self.plan.receipt.clone(),
                hash: self.plan.hash.clone(),
            },
            ActivateState::Reading => Statement::SelectReceipt {
                key: self.plan.receipt.clone(),
            },
            ActivateState::Checking => Statement::VersionExists {
                template_id: self.plan.template_id.clone(),
                version: self.plan.version.clone(),
            },
            ActivateState::Locking => Statement::SelectHead {
                template_id: self.plan.template_id.clone(),
            },
            ActivateState::Moving { revision, first } => if *first {
                Statement::InsertHead {
                    template_id: self.plan.template_id.clone(),
                    version: self.plan.version.clone(),
                    updated_by: self.plan.receipt.subject.clone(),
                }
            } else {
                Statement::UpdateHead {
                    template_id: self.plan.template_id.clone(),
                    version: self.plan.version.clone(),
                    revision: *revision,
                    updated_by: self.plan.receipt.subject.clone(),
                }
            },
            ActivateState::Timing { revision } => Statement::HeadUpdatedAt {
                template_id: self.plan.template_id.clone(),
            },
            ActivateState::Completing(response) => Statement::CompleteReceipt {
                key: self.plan.receipt.clone(),
                response: response.copy(),
            },
            ActivateState::Committing(_) => Statement::Commit,
        }
    }

    /// Goes on with the command when the storage has answered.
    pub fn answered(self, answer: Answer<ActivateVersionResponse>) -> (res: Progress<
        ActivateCommand,
        ActivateVersionResponse,
    >)
        ensures
            res@ == activate_answered(self@, answer@),
    {
        let ActivateCommand { plan, state } = self;
        match (state, answer) {
            (ActivateState::Beginning, Answer::Done) => awaiting(plan, ActivateState::Claiming),
            (ActivateState::Claiming, Answer::Rows(rows)) => if rows == 1 {
                awaiting(plan, ActivateState::Checking)
            } else {
                awaiting(plan, ActivateState::Reading)
            },
            (ActivateState::Reading, Answer::Receipt { hash, result }) => {
                match store::claim_receipt(&hash, result, &plan.hash) {
                    Ok(ReceiptClaim::Replay(mut response)) => {
                        response.idempotent_replay = true;
                        awaiting(plan, ActivateState::Committing(Some(response)))
                    },
                    Ok(ReceiptClaim::Unreadable) => awaiting(plan, ActivateState::Committing(None)),
                    Ok(ReceiptClaim::Conflict) => plugin::refuse(
                        TemplateFailure::IdempotencyConflict,
                    ),
                    Ok(ReceiptClaim::InProgress) => plugin::refuse(TemplateFailure::Conflict),
                    Err(failure) => plugin::fail(failure),
                }
            },
            (ActivateState::Checking, Answer::Exists(found)) => if found {
                awaiting(plan, ActivateState::Locking)
            } else {
                plugin::refuse(TemplateFailure::NotFound)
            },
            (ActivateState::Locking, Answer::Head(head)) => {
                let (current, first): (i64, bool) = match head {
                    Some(current) => (current, false),
                    None => (0, true),
                };
                if current != plan.expected_revision {
                    return plugin::refuse(TemplateFailure::PreconditionFailed);
                }
                match current.checked_add(1) {
                    Some(revision) => awaiting(plan, ActivateState::Moving { revision, first }),
                    None => plugin::fail(RuntimeFailure::RevisionExhausted),
                }
            },
            (ActivateState::Moving { revision, first: _ }, Answer::Done) => awaiting(
                plan,
                ActivateState::Timing { revision },
            ),
            (ActivateState::Timing { revision }, Answer::Moment(nanos)) => {
                match records::timestamp(nanos) {
                    Ok(updated_at) => {
                        let response = ActivateVersionResponse {
                            template_id: plan.template_id.clone(),
                            active_version: plan.version.clone(),
                            revision: number::integer_to_text(revision),
                            updated_at,
                            idempotent_replay: false,
                        };
                        awaiting(plan, ActivateState::Completing(response))
                    },
                    Err(failure) => plugin::fail(failure),
                }
            },
            (ActivateState::Completing(response), Answer::Rows(rows)) => {
                match store::complete_receipt(rows) {
                    Ok(()) => awaiting(plan, ActivateState::Committing(Some(response))),
                    Err(failure) => plugin::fail(failure),
                }
            },
            (ActivateState::Committing(Some(response)), Answer::Done) => plugin::reply(response),
            (ActivateState::Committing(None), Answer::Done) => plugin::fail(
                RuntimeFailure::Representation,
            ),
            _ => plugin::fail(RuntimeFailure::Database),
        }
    }
}

impl NotificationTemplatePlugin {
    /// Begins to activate a version for an administrator.
    pub fn activate_version_value(
        &self,
        admin: AuthorizedAdmin,
        request: ActivateVersionRequest,
    ) -> (res: Progress<ActivateCommand, ActivateVersionResponse>)
        ensures
            res@ == activate_begun(self.prepared, admin@, request@),
    {
        let expected_revision: i64 = match number::parse_integer(
            request.expected_revision.as_str(),
        ) {
            Some(revision) => {
                if revision < 0 {
                    return plugin::refuse(TemplateFailure::InvalidRequest);
                }
                revision
            },
            None => {
                return plugin::refuse(TemplateFailure::InvalidRequest);
            },
        };
        if !identifier::valid_identifier(request.template_id.as_str(), 160)
            || !identifier::valid_identifier(request.version.as_str(), 80)
            || !identifier::valid_idempotency_key(request.idempotency_key.as_str()) {
            return plugin::refuse(TemplateFailure::InvalidRequest);
        }
        if let Err(failure) = self.require_prepared() {
            return plugin::fail(failure);
        }
        let hash = match request.request_hash() {
            Ok(hash) => hash,
            Err(failure) => {
                return plugin::fail(failure);
            },
        };
        let plan = ActivatePlan {
            receipt: ReceiptKey {
                caller: admin.caller,
                subject: admin.subject,
                operation: ACTIVATE_VERSION_OPERATION.to_owned(),
                idempotency_key: request.idempotency_key,
            },
            hash,
            template_id: request.template_id,
            version: request.version,
            expected_revision,
        };
        awaiting(plan, ActivateState::Beginning)
    }

    /// Begins to activate a version for a caller.
    pub fn activate_version(&self, call: &Call, request: ActivateVersionRequest) -> (res: Progress<
        ActivateCommand,
        ActivateVersionResponse,
    >)
        ensures
            res@ == activate_called(self.config@, self.prepared, call@, request@),
            res is Ask ==> auth::bound_to(self.config@, call@, ACTIVATE_VERSION_OPERATION@),
    {
        match self.config.authorize_call(call, ACTIVATE_VERSION_OPERATION) {
            Ok(admin) => self.activate_version_value(admin, request),
            Err(failure) => Progress::Done(Err(plugin::unauthorized(failure))),
        }
    }
}

/// How many statements a command asks for at most from a state on.
pub open spec fn statements_left(state: ActivateState<ActivatedView>) -> nat {
    match state {
        ActivateState::Beginning => 8,
        ActivateState::Claiming => 7,
        ActivateState::Checking => 6,
        ActivateState::Locking => 5,
        ActivateState::Moving { .. } => 4,
        ActivateState::Timing { .. } => 3,
        ActivateState::Completing(_) => 2,
        ActivateState::Reading => 2,
        ActivateState::Committing(_) => 1,
    }
}

/// A command comes to an end, whatever the storage answers, and a statement that fails ends it in
/// an error at once.
pub proof fn law_activate_command_ends(
    command: ActivateCommandView,
    answer: AnswerView<ActivatedView>,
)
    ensures
        activate_answered(command, answer) matches Progress::Ask(next) ==> next.plan
            == command.plan && statements_left(next.state) < statements_left(command.state),
        answer is Failed ==> (activate_answered(command, answer) matches Progress::Done(result)
            && result is Err),
{
}

/// A command succeeds only when the storage has committed its transaction.
pub proof fn law_activate_succeeds_by_commit(
    command: ActivateCommandView,
    answer: AnswerView<ActivatedView>,
    response: ActivatedView,
)
    requires
        activate_answered(command, answer) == Progress::<ActivateCommandView, ActivatedView>::Done(
            Ok(response),
        ),
    ensures
        activate_statement(command) is Commit,
        answer is Done,
{
}

} // verus!
