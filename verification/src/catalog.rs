//! What the commands come to on the catalog that the storage keeps, one transaction after the other.
use vstd::prelude::*;

use crate::activate;
use crate::activate::{ActivateCommandView, ActivatePlanView, ActivateState};
use crate::auth;
use crate::auth::{AdminView, CallView, ACTIVATE_VERSION_OPERATION, CREATE_VERSION_OPERATION};
use crate::config::ConfigView;
use crate::create;
use crate::create::{CreateCommandView, CreatePlanView, CreateState};
use crate::failure::{DomainError, PluginError, RuntimeFailure};
use crate::plugin;
use crate::records;
use crate::records::{ActivateRequestView, ActivatedView, CreateRequestView, CreatedView};
use crate::render::{DefinitionView, RENDERER_IDENTITY};
use crate::store::{
    AnswerView, Progress, ReceiptKeyView, ReleaseKeyView, StatementView, StoredResult,
};

verus! {

/// A stored version of a template in a locale.
pub struct Release {
    pub definition: DefinitionView,
    pub renderer_identity: Seq<char>,
    pub created_by: Seq<char>,
    pub created_at: int,
}

/// Which version of a template is active.
pub struct Head {
    pub active_version: Seq<char>,
    pub revision: i64,
    pub updated_by: Seq<char>,
    pub updated_at: int,
}

/// The answer to a command.
pub enum Response {
    Created(CreatedView),
    Activated(ActivatedView),
}

/// The trace of a command: the hash of its request and, once there is one, its answer.
pub struct Receipt {
    pub hash: Seq<u8>,
    pub response: Option<Response>,
}

/// What the storage keeps.
pub struct Catalog {
    pub releases: Map<ReleaseKeyView, Release>,
    pub heads: Map<Seq<char>, Head>,
    pub receipts: Map<ReceiptKeyView, Receipt>,
}

/// A version of a template is stored in some locale.
pub open spec fn stored_version(
    catalog: Catalog,
    template_id: Seq<char>,
    version: Seq<char>,
) -> bool {
    exists|locale: Seq<char>| #[trigger]
        catalog.releases.dom().contains(ReleaseKeyView { template_id, version, locale })
}

/// The refusal of a row whose key is taken.
pub open spec fn taken<R>() -> AnswerView<R> {
    AnswerView::Failed { code: Some("23505"@) }
}

/// The failure to find a row that has to be there.
pub open spec fn missing<R>() -> AnswerView<R> {
    AnswerView::Failed { code: None }
}

/// What a statement makes of the catalog at a moment, and what it answers. A command's answer goes
/// into a receipt by `write` and comes out of one by `read`.
pub open spec fn perform<R>(
    catalog: Catalog,
    statement: StatementView<R>,
    now: int,
    write: spec_fn(R) -> Response,
    read: spec_fn(Response) -> StoredResult<R>,
) -> (Catalog, AnswerView<R>) {
    match statement {
        StatementView::Begin => (catalog, AnswerView::Done),
        StatementView::InsertReceipt { key, hash } => if catalog.receipts.dom().contains(key) {
            (catalog, AnswerView::Rows(0))
        } else {
            let receipt = Receipt { hash, response: None };
            (
                Catalog { receipts: catalog.receipts.insert(key, receipt), ..catalog },
                AnswerView::Rows(1),
            )
        },
        StatementView::SelectReceipt { key } => if catalog.receipts.dom().contains(key) {
            let receipt = catalog.receipts[key];
            let result = match receipt.response {
                Some(response) => read(response),
                None => StoredResult::Absent,
            };
            (catalog, AnswerView::Receipt { hash: receipt.hash, result })
        } else {
            (catalog, missing())
        },
        StatementView::InsertVersion { release, definition, renderer_identity, created_by } => {
            if catalog.releases.dom().contains(release) {
                (catalog, taken())
            } else {
                let row = Release { definition, renderer_identity, created_by, created_at: now };
                (
                    Catalog { releases: catalog.releases.insert(release, row), ..catalog },
                    AnswerView::Moment(now),
                )
            }
        },
        StatementView::VersionExists { template_id, version } => (
            catalog,
            AnswerView::Exists(stored_version(catalog, template_id, version)),
        ),
        StatementView::SelectHead { template_id } => (
            catalog,
            AnswerView::Head(
                if catalog.heads.dom().contains(template_id) {
                    Some(catalog.heads[template_id].revision)
                } else {
                    None
                },
            ),
        ),
        StatementView::InsertHead { template_id, version, updated_by } => {
            if catalog.heads.dom().contains(template_id) {
                (catalog, taken())
            } else {
                let head = Head {
                    active_version: version,
                    revision: 1,
                    updated_by,
                    updated_at: now,
                };
                (
                    Catalog { heads: catalog.heads.insert(template_id, head), ..catalog },
                    AnswerView::Done,
                )
            }
        },
        StatementView::UpdateHead { template_id, version, revision, updated_by } => {
            if catalog.heads.dom().contains(template_id) {
                let head = Head {
                    active_version: version,
                    revision: revision as i64,
                    updated_by,
                    updated_at: now,
                };
                (
                    Catalog { heads: catalog.heads.insert(template_id, head), ..catalog },
                    AnswerView::Done,
                )
            } else {
                (catalog, AnswerView::Done)
            }
        },
        StatementView::HeadUpdatedAt { template_id } => (
            catalog,
            if catalog.heads.dom().contains(template_id) {
                AnswerView::Moment(catalog.heads[template_id].updated_at)
            } else {
                missing()
            },
        ),
        StatementView::CompleteReceipt { key, response } => {
            if catalog.receipts.dom().contains(key) && catalog.receipts[key].response is None {
                let receipt = Receipt {
                    response: Some(write(response)),
                    ..catalog.receipts[key]
                };
                (
                    Catalog { receipts: catalog.receipts.insert(key, receipt), ..catalog },
                    AnswerView::Rows(1),
                )
            } else {
                (catalog, AnswerView::Rows(0))
            }
        },
        StatementView::Commit => (catalog, AnswerView::Done),
    }
}

/// An answer to a command to store, as it is read from a receipt.
pub open spec fn read_created(response: Response) -> StoredResult<CreatedView> {
    match response {
        Response::Created(created) => StoredResult::Known(created),
        Response::Activated(_) => StoredResult::Foreign,
    }
}

/// An answer to a command to activate, as it is read from a receipt.
pub open spec fn read_activated(response: Response) -> StoredResult<ActivatedView> {
    match response {
        Response::Created(_) => StoredResult::Foreign,
        Response::Activated(activated) => StoredResult::Known(activated),
    }
}

/// Carries a command to store out, for at most `steps` statements: what the transaction works on,
/// what is left when it ends, and the result. Only what is committed is left.
pub open spec fn create_run(
    progress: Progress<CreateCommandView, CreatedView>,
    working: Catalog,
    committed: Catalog,
    now: int,
    steps: nat,
) -> (Catalog, Result<CreatedView, PluginError>)
    decreases steps,
{
    match progress {
        Progress::Done(result) => (committed, result),
        Progress::Ask(command) => if steps == 0 {
            (committed, Err(PluginError::Runtime(RuntimeFailure::Database)))
        } else {
            let statement = create::create_statement(command);
            let (after, answer) = perform(
                working,
                statement,
                now,
                |response: CreatedView| Response::Created(response),
                |response: Response| read_created(response),
            );
            let left = if statement is Commit {
                after
            } else {
                committed
            };
            create_run(
                create::create_answered(command, answer),
                after,
                left,
                now,
                (steps - 1) as nat,
            )
        },
    }
}

/// Carries a command to activate out, as [`create_run`] does one to store.
pub open spec fn activate_run(
    progress: Progress<ActivateCommandView, ActivatedView>,
    working: Catalog,
    committed: Catalog,
    now: int,
    steps: nat,
) -> (Catalog, Result<ActivatedView, PluginError>)
    decreases steps,
{
    match progress {
        Progress::Done(result) => (committed, result),
        Progress::Ask(command) => if steps == 0 {
            (committed, Err(PluginError::Runtime(RuntimeFailure::Database)))
        } else {
            let statement = activate::activate_statement(command);
            let (after, answer) = perform(
                working,
                statement,
                now,
                |response: ActivatedView| Response::Activated(response),
                |response: Response| read_activated(response),
            );
            let left = if statement is Commit {
                after
            } else {
                committed
            };
            activate_run(
                activate::activate_answered(command, answer),
                after,
                left,
                now,
                (steps - 1) as nat,
            )
        },
    }
}

/// The catalog after a command to store.
pub open spec fn create_after(catalog: Catalog, plan: CreatePlanView, now: int) -> Catalog {
    if create_result(catalog, plan, now) is Err || catalog.receipts.dom().contains(plan.receipt) {
        catalog
    } else {
        Catalog {
            releases: catalog.releases.insert(
                plan.release,
                Release {
                    definition: plan.definition,
                    renderer_identity: RENDERER_IDENTITY@,
                    created_by: plan.receipt.subject,
                    created_at: now,
                },
            ),
            receipts: catalog.receipts.insert(
                plan.receipt,
                Receipt {
                    hash: plan.hash,
                    response: Some(Response::Created(create_result(catalog, plan, now)->Ok_0)),
                },
            ),
            ..catalog
        }
    }
}

/// The result of a command to store: a key that was used before gives the earlier answer again, or
/// is refused if the request was another one; else a version that is there is never replaced.
pub open spec fn create_result(catalog: Catalog, plan: CreatePlanView, now: int) -> Result<
    CreatedView,
    PluginError,
> {
    if catalog.receipts.dom().contains(plan.receipt) {
        let receipt = catalog.receipts[plan.receipt];
        if receipt.hash != plan.hash {
            Err(PluginError::Domain(DomainError::IdempotencyConflict))
        } else {
            match receipt.response {
                None => Err(PluginError::Domain(DomainError::Conflict)),
                Some(Response::Created(response)) => Ok(create::replayed(response)),
                Some(Response::Activated(_)) => Err(
                    PluginError::Runtime(RuntimeFailure::Representation),
                ),
            }
        }
    } else if catalog.releases.dom().contains(plan.release) {
        Err(PluginError::Domain(DomainError::Conflict))
    } else {
        match records::moment_text(now) {
            Ok(created_at) => Ok(create::created(plan, created_at)),
            Err(failure) => Err(PluginError::Runtime(failure)),
        }
    }
}

/// The revision of a template's head; zero if it has none.
pub open spec fn revision_of(catalog: Catalog, template_id: Seq<char>) -> int {
    if catalog.heads.dom().contains(template_id) {
        catalog.heads[template_id].revision as int
    } else {
        0
    }
}

/// The catalog after a command to activate.
pub open spec fn activate_after(catalog: Catalog, plan: ActivatePlanView, now: int) -> Catalog {
    if activate_result(catalog, plan, now) is Err || catalog.receipts.dom().contains(
        plan.receipt,
    ) {
        catalog
    } else {
        Catalog {
            heads: catalog.heads.insert(
                plan.template_id,
                Head {
                    active_version: plan.version,
                    revision: (plan.expected_revision + 1) as i64,
                    updated_by: plan.receipt.subject,
                    updated_at: now,
                },
            ),
            receipts: catalog.receipts.insert(
                plan.receipt,
                Receipt {
                    hash: plan.hash,
                    response: Some(
                        Response::Activated(activate_result(catalog, plan, now)->Ok_0),
                    ),
                },
            ),
            ..catalog
        }
    }
}

/// The result of a command to activate: a key that was used before gives the earlier answer again,
/// or is refused if the request was another one; else the version has to be there, and the head at
/// the expected revision.
pub open spec fn activate_result(catalog: Catalog, plan: ActivatePlanView, now: int) -> Result<
    ActivatedView,
    PluginError,
> {
    if catalog.receipts.dom().contains(plan.receipt) {
        let receipt = catalog.receipts[plan.receipt];
        if receipt.hash != plan.hash {
            Err(PluginError::Domain(DomainError::IdempotencyConflict))
        } else {
            match receipt.response {
                None => Err(PluginError::Domain(DomainError::Conflict)),
                Some(Response::Activated(response)) => Ok(activate::replayed(response)),
                Some(Response::Created(_)) => Err(
                    PluginError::Runtime(RuntimeFailure::Representation),
                ),
            }
        }
    } else if !stored_version(catalog, plan.template_id, plan.version) {
        Err(PluginError::Domain(DomainError::NotFound))
    } else if revision_of(catalog, plan.template_id) != plan.expected_revision {
        Err(PluginError::Domain(DomainError::PreconditionFailed))
    } else if plan.expected_revision == i64::MAX {
        Err(PluginError::Runtime(RuntimeFailure::RevisionExhausted))
    } else {
        match records::moment_text(now) {
            Ok(updated_at) => Ok(
                activate::activated(plan, plan.expected_revision + 1, updated_at),
            ),
            Err(failure) => Err(PluginError::Runtime(failure)),
        }
    }
}

/// A command to store, carried out on a catalog, comes to its result and leaves the catalog that
/// is its effect.
pub proof fn law_create_runs_to_its_effect(catalog: Catalog, plan: CreatePlanView, now: int)
    ensures
        create_run(
            Progress::Ask(CreateCommandView { plan, state: CreateState::Beginning }),
            catalog,
            catalog,
            now,
            8,
        ) == (create_after(catalog, plan, now), create_result(catalog, plan, now)),
{
    reveal_with_fuel(create_run, 9);
    let claimed = Catalog {
        receipts: catalog.receipts.insert(
            plan.receipt,
            Receipt { hash: plan.hash, response: None },
        ),
        ..catalog
    };
    if !catalog.receipts.dom().contains(plan.receipt) && create_result(catalog, plan, now) is Ok {
        let response = Some(Response::Created(create_result(catalog, plan, now)->Ok_0));
        assert(claimed.receipts.insert(plan.receipt, Receipt { hash: plan.hash, response })
            =~= catalog.receipts.insert(plan.receipt, Receipt { hash: plan.hash, response }));
    }
}

/// Whether a version is stored rests on the stored versions alone.
proof fn lemma_stored_version(
    catalog: Catalog,
    other: Catalog,
    template_id: Seq<char>,
    version: Seq<char>,
)
    requires
        catalog.releases == other.releases,
    ensures
        stored_version(catalog, template_id, version) == stored_version(
            other,
            template_id,
            version,
        ),
{
    if stored_version(catalog, template_id, version) {
        let locale = choose|locale: Seq<char>| #[trigger]
            catalog.releases.dom().contains(ReleaseKeyView { template_id, version, locale });
        assert(other.releases.dom().contains(ReleaseKeyView { template_id, version, locale }));
    }
    if stored_version(other, template_id, version) {
        let locale = choose|locale: Seq<char>| #[trigger]
            other.releases.dom().contains(ReleaseKeyView { template_id, version, locale });
        assert(catalog.releases.dom().contains(ReleaseKeyView { template_id, version, locale }));
    }
}

/// A command to activate, carried out on a catalog, comes to its result and leaves the catalog
/// that is its effect.
pub proof fn law_activate_runs_to_its_effect(catalog: Catalog, plan: ActivatePlanView, now: int)
    ensures
        activate_run(
            Progress::Ask(ActivateCommandView { plan, state: ActivateState::Beginning }),
            catalog,
            catalog,
            now,
            8,
        ) == (activate_after(catalog, plan, now), activate_result(catalog, plan, now)),
{
    reveal_with_fuel(activate_run, 9);
    let claimed = Catalog {
        receipts: catalog.receipts.insert(
            plan.receipt,
            Receipt { hash: plan.hash, response: None },
        ),
        ..catalog
    };
    lemma_stored_version(catalog, claimed, plan.template_id, plan.version);
    if !catalog.receipts.dom().contains(plan.receipt) && activate_result(catalog, plan, now) is Ok {
        let response = Some(Response::Activated(activate_result(catalog, plan, now)->Ok_0));
        assert(claimed.receipts.insert(plan.receipt, Receipt { hash: plan.hash, response })
            =~= catalog.receipts.insert(plan.receipt, Receipt { hash: plan.hash, response }));
    }
}

/// A call to store, carried out on a catalog: whoever is not an administrator and whatever is not
/// well formed changes nothing; else the call comes to the effect of its plan.
pub proof fn law_create_call_comes_to_its_effect(
    config: ConfigView,
    call: CallView,
    request: CreateRequestView,
    catalog: Catalog,
    now: int,
)
    ensures
        create_run(create::create_called(config, true, call, request), catalog, catalog, now, 8)
            == (match auth::administrator(config, call, CREATE_VERSION_OPERATION@) {
            Err(failure) => (catalog, Err(plugin::authorization_error(failure))),
            Ok(admin) => if create::well_formed(request) {
                let plan = create::create_plan(admin, request);
                (create_after(catalog, plan, now), create_result(catalog, plan, now))
            } else {
                (catalog, Err(PluginError::Domain(DomainError::InvalidRequest)))
            },
        }),
{
    if let Ok(admin) = auth::administrator(config, call, CREATE_VERSION_OPERATION@) {
        law_create_runs_to_its_effect(catalog, create::create_plan(admin, request), now);
    }
}

/// A call to activate, carried out on a catalog: whoever is not an administrator and whatever is
/// not well formed changes nothing; else the call comes to the effect of its plan.
pub proof fn law_activate_call_comes_to_its_effect(
    config: ConfigView,
    call: CallView,
    request: ActivateRequestView,
    catalog: Catalog,
    now: int,
)
    ensures
        activate_run(
            activate::activate_called(config, true, call, request),
            catalog,
            catalog,
            now,
            8,
        ) == (match auth::administrator(config, call, ACTIVATE_VERSION_OPERATION@) {
            Err(failure) => (catalog, Err(plugin::authorization_error(failure))),
            Ok(admin) => if activate::well_formed(request) {
                let plan = activate::activate_plan(admin, request);
                (activate_after(catalog, plan, now), activate_result(catalog, plan, now))
            } else {
                (catalog, Err(PluginError::Domain(DomainError::InvalidRequest)))
            },
        }),
{
    if let Ok(admin) = auth::administrator(config, call, ACTIVATE_VERSION_OPERATION@) {
        law_activate_runs_to_its_effect(catalog, activate::activate_plan(admin, request), now);
    }
}

/// A command that changes the catalog.
pub enum Command {
    Create(CreatePlanView),
    Activate(ActivatePlanView),
}

/// The catalog after a command.
pub open spec fn after(catalog: Catalog, command: Command, now: int) -> Catalog {
    match command {
        Command::Create(plan) => create_after(catalog, plan, now),
        Command::Activate(plan) => activate_after(catalog, plan, now),
    }
}

/// The catalog after commands, each with the moment at which it is carried out.
pub open spec fn after_all(catalog: Catalog, commands: Seq<(Command, int)>) -> Catalog
    decreases commands.len(),
{
    if commands.len() == 0 {
        catalog
    } else {
        after(
            after_all(catalog, commands.drop_last()),
            commands.last().0,
            commands.last().1,
        )
    }
}

/// Everything that `earlier` keeps for good is in `later` too: the stored versions as they are, the
/// answers that were given, and for each head one at the same or a later revision.
pub open spec fn preserves(earlier: Catalog, later: Catalog) -> bool {
    &&& forall|release: ReleaseKeyView| #[trigger]
        earlier.releases.dom().contains(release) ==> later.releases.dom().contains(release)
            && later.releases[release] == earlier.releases[release]
    &&& forall|key: ReceiptKeyView| #[trigger]
        earlier.receipts.dom().contains(key) ==> later.receipts.dom().contains(key)
            && later.receipts[key] == earlier.receipts[key]
    &&& forall|template_id: Seq<char>| #[trigger]
        revision_of(later, template_id) >= revision_of(earlier, template_id)
}

/// Stored versions are immutable, answers are kept, and heads only move forward, whatever commands
/// are carried out.
pub proof fn law_commands_preserve(catalog: Catalog, commands: Seq<(Command, int)>)
    ensures
        preserves(catalog, after_all(catalog, commands)),
    decreases commands.len(),
{
    if commands.len() > 0 {
        let before = after_all(catalog, commands.drop_last());
        law_commands_preserve(catalog, commands.drop_last());
        law_command_preserves(before, commands.last().0, commands.last().1);
        let later = after_all(catalog, commands);
        assert forall|template_id: Seq<char>| #[trigger]
            revision_of(later, template_id) >= revision_of(catalog, template_id) by {
            assert(revision_of(later, template_id) >= revision_of(before, template_id));
            assert(revision_of(before, template_id) >= revision_of(catalog, template_id));
        }
    }
}

/// Stored versions are immutable, answers are kept, and heads only move forward, by one revision at
/// a time.
pub proof fn law_command_preserves(catalog: Catalog, command: Command, now: int)
    ensures
        preserves(catalog, after(catalog, command, now)),
        forall|template_id: Seq<char>| #[trigger]
            revision_of(after(catalog, command, now), template_id) <= revision_of(
                catalog,
                template_id,
            ) + 1,
{
}

/// Every head selects a version that is stored, and has a revision that is positive.
pub open spec fn consistent(catalog: Catalog) -> bool {
    forall|template_id: Seq<char>| #[trigger]
        catalog.heads.dom().contains(template_id) ==> catalog.heads[template_id].revision >= 1
            && stored_version(catalog, template_id, catalog.heads[template_id].active_version)
}

/// Heads never select a version that is not there, whatever commands are carried out.
pub proof fn law_heads_select_stored_versions(catalog: Catalog, commands: Seq<(Command, int)>)
    requires
        consistent(catalog),
        forall|i: int|
            0 <= i < commands.len() ==> ((#[trigger] commands[i]).0 matches Command::Activate(plan)
                ==> plan.expected_revision >= 0),
    ensures
        consistent(after_all(catalog, commands)),
    decreases commands.len(),
{
    if commands.len() > 0 {
        let before = after_all(catalog, commands.drop_last());
        let command = commands.last().0;
        let now = commands.last().1;
        let later = after_all(catalog, commands);
        assert forall|i: int| 0 <= i < commands.drop_last().len() implies (
        (#[trigger] commands.drop_last()[i]).0 matches Command::Activate(plan)
            ==> plan.expected_revision >= 0) by {
            assert(commands.drop_last()[i] == commands[i]);
        }
        law_heads_select_stored_versions(catalog, commands.drop_last());
        law_command_preserves(before, command, now);
        assert(commands[commands.len() - 1] == commands.last());
        assert forall|template_id: Seq<char>| #[trigger]
            later.heads.dom().contains(template_id) implies later.heads[template_id].revision >= 1
            && stored_version(later, template_id, later.heads[template_id].active_version) by {
            let version = later.heads[template_id].active_version;
            assert(stored_version(before, template_id, version));
            let locale = choose|locale: Seq<char>| #[trigger]
                before.releases.dom().contains(ReleaseKeyView { template_id, version, locale });
            assert(later.releases.dom().contains(ReleaseKeyView { template_id, version, locale }));
        }
    }
}

/// A refused or failed command leaves the catalog as it was.
pub proof fn law_failure_changes_nothing(
    catalog: Catalog,
    create_plan: CreatePlanView,
    activate_plan: ActivatePlanView,
    now: int,
)
    ensures
        create_result(catalog, create_plan, now) is Err ==> create_after(catalog, create_plan, now)
            == catalog,
        activate_result(catalog, activate_plan, now) is Err ==> activate_after(
            catalog,
            activate_plan,
            now,
        ) == catalog,
{
}

/// The receipts are those that finished commands leave: each has an answer, and one that fits its
/// operation.
pub open spec fn well_kept(catalog: Catalog) -> bool {
    forall|key: ReceiptKeyView| #[trigger]
        catalog.receipts.dom().contains(key) ==> {
            &&& catalog.receipts[key].response is Some
            &&& key.operation == CREATE_VERSION_OPERATION@
                ==> catalog.receipts[key].response->0 is Created
            &&& key.operation == ACTIVATE_VERSION_OPERATION@
                ==> catalog.receipts[key].response->0 is Activated
        }
}

/// A command's receipt is filed under its operation.
pub open spec fn filed(command: Command) -> bool {
    match command {
        Command::Create(plan) => plan.receipt.operation == CREATE_VERSION_OPERATION@,
        Command::Activate(plan) => plan.receipt.operation == ACTIVATE_VERSION_OPERATION@,
    }
}

proof fn lemma_operations_differ()
    ensures
        CREATE_VERSION_OPERATION@ != ACTIVATE_VERSION_OPERATION@,
{
    reveal_strlit("create_version");
    reveal_strlit("activate_version");
    assert(CREATE_VERSION_OPERATION@.len() == 14);
    assert(ACTIVATE_VERSION_OPERATION@.len() == 16);
}

/// Commands of different operations never share a receipt, whatever keys they come with.
pub proof fn law_operations_do_not_share_receipts(
    admin: AdminView,
    other: AdminView,
    create_request: CreateRequestView,
    activate_request: ActivateRequestView,
)
    ensures
        create::create_plan(admin, create_request).receipt != activate::activate_plan(
            other,
            activate_request,
        ).receipt,
        filed(Command::Create(create::create_plan(admin, create_request))),
        filed(Command::Activate(activate::activate_plan(other, activate_request))),
{
    lemma_operations_differ();
}

/// Receipts stay well kept, whatever commands are carried out.
pub proof fn law_receipts_are_well_kept(catalog: Catalog, commands: Seq<(Command, int)>)
    requires
        well_kept(catalog),
        forall|i: int| 0 <= i < commands.len() ==> filed((#[trigger] commands[i]).0),
    ensures
        well_kept(after_all(catalog, commands)),
    decreases commands.len(),
{
    if commands.len() > 0 {
        lemma_operations_differ();
        let earlier = commands.drop_last();
        assert forall|i: int| 0 <= i < earlier.len() implies filed((#[trigger] earlier[i]).0) by {
            assert(earlier[i] == commands[i]);
        }
        law_receipts_are_well_kept(catalog, earlier);
        assert(filed(commands[commands.len() - 1].0));
    }
}

/// With well-kept receipts a key that was used before is either answered again or refused as used
/// for another request; a command is never found in progress, and never with an answer that is not
/// understood.
pub proof fn law_used_keys_are_answered_or_refused(
    catalog: Catalog,
    create_plan: CreatePlanView,
    activate_plan: ActivatePlanView,
    now: int,
)
    requires
        well_kept(catalog),
        filed(Command::Create(create_plan)),
        filed(Command::Activate(activate_plan)),
        catalog.receipts.dom().contains(create_plan.receipt),
        catalog.receipts.dom().contains(activate_plan.receipt),
    ensures
        ({
            let receipt = catalog.receipts[create_plan.receipt];
            create_result(catalog, create_plan, now) == (if receipt.hash == create_plan.hash {
                Ok(create::replayed(receipt.response->0->Created_0))
            } else {
                Err(PluginError::Domain(DomainError::IdempotencyConflict))
            })
        }),
        ({
            let receipt = catalog.receipts[activate_plan.receipt];
            activate_result(catalog, activate_plan, now) == (if receipt.hash
                == activate_plan.hash {
                Ok(activate::replayed(receipt.response->0->Activated_0))
            } else {
                Err(PluginError::Domain(DomainError::IdempotencyConflict))
            })
        }),
{
}

/// A version that was stored is there as it was asked for.
pub proof fn law_created_version_is_stored(catalog: Catalog, plan: CreatePlanView, now: int)
    requires
        create_result(catalog, plan, now) is Ok,
        !catalog.receipts.dom().contains(plan.receipt),
    ensures
        ({
            let later = create_after(catalog, plan, now);
            &&& !catalog.releases.dom().contains(plan.release)
            &&& later.releases.dom().contains(plan.release)
            &&& later.releases[plan.release].definition == plan.definition
            &&& later.releases[plan.release].renderer_identity == RENDERER_IDENTITY@
            &&& later.releases[plan.release].created_by == plan.receipt.subject
            &&& later.heads == catalog.heads
        }),
{
}

/// A version that is there is not stored again: the command is refused as a conflict.
pub proof fn law_stored_version_is_not_replaced(catalog: Catalog, plan: CreatePlanView, now: int)
    requires
        catalog.releases.dom().contains(plan.release),
        !catalog.receipts.dom().contains(plan.receipt),
    ensures
        create_result(catalog, plan, now) == Err::<CreatedView, PluginError>(
            PluginError::Domain(DomainError::Conflict),
        ),
{
}

/// A command to store that succeeded gives the same answer whenever it comes again, marked as a
/// replay, and then changes nothing.
pub proof fn law_create_is_idempotent(
    catalog: Catalog,
    plan: CreatePlanView,
    now: int,
    commands: Seq<(Command, int)>,
    later_now: int,
)
    requires
        create_result(catalog, plan, now) is Ok,
    ensures
        ({
            let later = after_all(create_after(catalog, plan, now), commands);
            &&& create_result(later, plan, later_now) == Ok::<CreatedView, PluginError>(
                create::replayed(create_result(catalog, plan, now)->Ok_0),
            )
            &&& create_after(later, plan, later_now) == later
        }),
{
    law_commands_preserve(create_after(catalog, plan, now), commands);
    assert(create_after(catalog, plan, now).receipts.dom().contains(plan.receipt));
}

/// A command to activate that succeeded gives the same answer whenever it comes again, marked as a
/// replay, and then changes nothing.
pub proof fn law_activate_is_idempotent(
    catalog: Catalog,
    plan: ActivatePlanView,
    now: int,
    commands: Seq<(Command, int)>,
    later_now: int,
)
    requires
        activate_result(catalog, plan, now) is Ok,
    ensures
        ({
            let later = after_all(activate_after(catalog, plan, now), commands);
            &&& activate_result(later, plan, later_now) == Ok::<ActivatedView, PluginError>(
                activate::replayed(activate_result(catalog, plan, now)->Ok_0),
            )
            &&& activate_after(later, plan, later_now) == later
        }),
{
    law_commands_preserve(activate_after(catalog, plan, now), commands);
    assert(activate_after(catalog, plan, now).receipts.dom().contains(plan.receipt));
}

/// A key that a command succeeded under is refused to every request that is recognised as another
/// one.
pub proof fn law_key_is_not_reused(
    catalog: Catalog,
    plan: CreatePlanView,
    now: int,
    commands: Seq<(Command, int)>,
    other: CreatePlanView,
    later_now: int,
)
    requires
        create_result(catalog, plan, now) is Ok,
        other.receipt == plan.receipt,
        other.hash != plan.hash,
    ensures
        create_result(
            after_all(create_after(catalog, plan, now), commands),
            other,
            later_now,
        ) == Err::<CreatedView, PluginError>(PluginError::Domain(DomainError::IdempotencyConflict)),
{
    law_commands_preserve(create_after(catalog, plan, now), commands);
    assert(create_after(catalog, plan, now).receipts.dom().contains(plan.receipt));
}

/// A key that an activation succeeded under is refused to every request that is recognised as
/// another one.
pub proof fn law_activation_key_is_not_reused(
    catalog: Catalog,
    plan: ActivatePlanView,
    now: int,
    commands: Seq<(Command, int)>,
    other: ActivatePlanView,
    later_now: int,
)
    requires
        activate_result(catalog, plan, now) is Ok,
        other.receipt == plan.receipt,
        other.hash != plan.hash,
    ensures
        activate_result(
            after_all(activate_after(catalog, plan, now), commands),
            other,
            later_now,
        ) == Err::<ActivatedView, PluginError>(
            PluginError::Domain(DomainError::IdempotencyConflict),
        ),
{
    law_commands_preserve(activate_after(catalog, plan, now), commands);
    assert(activate_after(catalog, plan, now).receipts.dom().contains(plan.receipt));
}

/// An activation that succeeds finds the head at the expected revision, moves it to the next one,
/// and makes the version active; other heads and all versions stay.
pub proof fn law_activation_moves_the_head_by_one(
    catalog: Catalog,
    plan: ActivatePlanView,
    now: int,
)
    requires
        activate_result(catalog, plan, now) is Ok,
        !catalog.receipts.dom().contains(plan.receipt),
    ensures
        ({
            let later = activate_after(catalog, plan, now);
            &&& revision_of(catalog, plan.template_id) == plan.expected_revision
            &&& revision_of(later, plan.template_id) == plan.expected_revision + 1
            &&& later.heads.dom().contains(plan.template_id)
            &&& later.heads[plan.template_id].active_version == plan.version
            &&& stored_version(catalog, plan.template_id, plan.version)
            &&& later.releases == catalog.releases
            &&& later.heads.remove(plan.template_id) == catalog.heads.remove(plan.template_id)
        }),
{
    let later = activate_after(catalog, plan, now);
    assert(later.heads.remove(plan.template_id) =~= catalog.heads.remove(plan.template_id));
}

/// Of two activations that expect the same revision of a template's head only one can succeed:
/// once the head has moved, the other is refused for good.
pub proof fn law_only_one_activation_wins(
    catalog: Catalog,
    plan: ActivatePlanView,
    now: int,
    commands: Seq<(Command, int)>,
    other: ActivatePlanView,
    later_now: int,
)
    requires
        activate_result(catalog, plan, now) is Ok,
        !catalog.receipts.dom().contains(plan.receipt),
        other.template_id == plan.template_id,
        other.expected_revision == plan.expected_revision,
    ensures
        ({
            let later = after_all(activate_after(catalog, plan, now), commands);
            &&& !later.receipts.dom().contains(other.receipt) && stored_version(
                later,
                other.template_id,
                other.version,
            ) ==> activate_result(later, other, later_now) == Err::<ActivatedView, PluginError>(
                PluginError::Domain(DomainError::PreconditionFailed),
            )
            &&& !later.receipts.dom().contains(other.receipt) ==> activate_result(
                later,
                other,
                later_now,
            ) is Err
        }),
{
    law_activation_moves_the_head_by_one(catalog, plan, now);
    let moved = activate_after(catalog, plan, now);
    law_commands_preserve(moved, commands);
    let later = after_all(moved, commands);
    assert(revision_of(later, plan.template_id) >= revision_of(moved, plan.template_id));
}

} // verus!
