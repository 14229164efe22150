use std::collections::BTreeMap;

use notification_template::activate::{ActivateCommand, ActivatePlan, ActivateState};
use notification_template::auth::AuthorizedAdmin;
use notification_template::config::NotificationTemplateConfig;
use notification_template::create::{CreateCommand, CreateState};
use notification_template::delivery::RenderQuery;
use notification_template::failure::{DomainError, PluginError, RuntimeFailure, TemplateFailure};
use notification_template::plugin::NotificationTemplatePlugin;
use notification_template::query::{Found, GetQuery, ListQuery, Query};
use notification_template::records::{
    timestamp, ActivateVersionRequest, ActivateVersionResponse, CreateVersionRequest,
    CreateVersionResponse, GetVersionRequest, ListVersionsRequest, ListVersionsResponse,
    PreviewRequest, RenderRequest, RenderResponse, TemplateRecord, TemplateVersion,
};
use notification_template::render::{TemplateDefinition, RENDERER_IDENTITY};
use notification_template::store::{
    claim_receipt, complete_receipt, unique_violation, Answer, Progress, ReceiptClaim, ReceiptKey,
    Statement, StoredResult,
};

type Key = (String, String, String, String);
type ReleaseId = (String, String, String);

#[derive(Clone)]
enum Reply {
    Created(CreateVersionResponse),
    Activated(ActivateVersionResponse),
}

/// A storage that keeps everything in memory.
#[derive(Clone, Default)]
struct Memory {
    versions: BTreeMap<ReleaseId, (TemplateDefinition, String, String, i128)>,
    heads: BTreeMap<String, (String, i64, String, i128)>,
    receipts: BTreeMap<Key, (Vec<u8>, Option<Reply>)>,
    now: i128,
}

fn key(key: ReceiptKey) -> Key {
    (key.caller, key.subject, key.operation, key.idempotency_key)
}

fn taken<R>() -> Answer<R> {
    Answer::Failed {
        code: Some("23505".to_owned()),
    }
}

impl Memory {
    fn perform<R>(
        &mut self,
        statement: Statement<R>,
        write: fn(R) -> Reply,
        read: fn(&Reply) -> StoredResult<R>,
    ) -> Answer<R> {
        match statement {
            Statement::Begin | Statement::Commit => Answer::Done,
            Statement::InsertReceipt { key: id, hash } => {
                let id = key(id);
                if self.receipts.contains_key(&id) {
                    Answer::Rows(0)
                } else {
                    self.receipts.insert(id, (hash, None));
                    Answer::Rows(1)
                }
            }
            Statement::SelectReceipt { key: id } => {
                let (hash, reply) = &self.receipts[&key(id)];
                Answer::Receipt {
                    hash: hash.clone(),
                    result: reply.as_ref().map_or(StoredResult::Absent, read),
                }
            }
            Statement::InsertVersion {
                release,
                definition,
                renderer_identity,
                created_by,
            } => {
                let id = (release.template_id, release.version, release.locale);
                if self.versions.contains_key(&id) {
                    return taken();
                }
                self.versions
                    .insert(id, (definition, renderer_identity, created_by, self.now));
                Answer::Moment(self.now)
            }
            Statement::VersionExists {
                template_id,
                version,
            } => Answer::Exists(
                self.versions
                    .keys()
                    .any(|(id, v, _)| *id == template_id && *v == version),
            ),
            Statement::SelectHead { template_id } => {
                Answer::Head(self.heads.get(&template_id).map(|head| head.1))
            }
            Statement::InsertHead {
                template_id,
                version,
                updated_by,
            } => {
                if self.heads.contains_key(&template_id) {
                    return taken();
                }
                self.heads
                    .insert(template_id, (version, 1, updated_by, self.now));
                Answer::Done
            }
            Statement::UpdateHead {
                template_id,
                version,
                revision,
                updated_by,
            } => {
                self.heads
                    .insert(template_id, (version, revision, updated_by, self.now));
                Answer::Done
            }
            Statement::HeadUpdatedAt { template_id } => {
                Answer::Moment(self.heads[&template_id].3)
            }
            Statement::CompleteReceipt { key: id, response } => {
                let receipt = self.receipts.get_mut(&key(id)).unwrap();
                if receipt.1.is_some() {
                    return Answer::Rows(0);
                }
                receipt.1 = Some(write(response));
                Answer::Rows(1)
            }
        }
    }

    fn record(&self, id: &ReleaseId) -> Option<TemplateRecord> {
        let (definition, renderer_identity, created_by, created_at) = self.versions.get(id)?;
        let head = self.heads.get(&id.0);
        Some(TemplateRecord {
            template_id: id.0.clone(),
            version: id.1.clone(),
            locale: id.2.clone(),
            revision: 1,
            subject_template: definition.subject.clone(),
            text_template: definition.text.clone(),
            html_template: definition.html.clone(),
            renderer_identity: renderer_identity.clone(),
            created_by: created_by.clone(),
            created_at: *created_at,
            active_version: head.map(|head| head.0.clone()),
            head_revision: head.map(|head| head.1),
        })
    }

    fn find(&self, query: Query) -> Found {
        let of = |template_id: &Option<String>| {
            self.versions
                .keys()
                .filter(|id| template_id.as_ref().map_or(true, |wanted| *wanted == id.0))
                .cloned()
                .collect::<Vec<_>>()
        };
        match query {
            Query::Template { release } => Found::Template(self.record(&(
                release.template_id,
                release.version,
                release.locale,
            ))),
            Query::ActiveVersion { template_id } => {
                Found::ActiveVersion(self.heads.get(&template_id).map(|head| head.0.clone()))
            }
            Query::Count { template_id } => Found::Count(of(&template_id).len() as i64),
            Query::Templates {
                template_id,
                limit,
                offset,
            } => Found::Templates(
                of(&template_id)
                    .iter()
                    .skip(offset as usize)
                    .take(limit as usize)
                    .filter_map(|id| self.record(id))
                    .collect(),
            ),
        }
    }

    fn create(&mut self, request: CreateVersionRequest) -> Result<CreateVersionResponse, PluginError> {
        let mut working = self.clone();
        let mut progress: Progress<CreateCommand, CreateVersionResponse> =
            plugin().create_version_value(admin(), request);
        loop {
            match progress {
                Progress::Done(result) => return result,
                Progress::Ask(command) => {
                    let statement = command.statement();
                    let commit = matches!(statement, Statement::Commit);
                    let answer = working.perform(statement, Reply::Created, |reply| match reply {
                        Reply::Created(response) => StoredResult::Known(response.clone()),
                        Reply::Activated(_) => StoredResult::Foreign,
                    });
                    if commit {
                        *self = working.clone();
                    }
                    progress = command.answered(answer);
                }
            }
        }
    }

    fn activate(
        &mut self,
        request: ActivateVersionRequest,
    ) -> Result<ActivateVersionResponse, PluginError> {
        let mut working = self.clone();
        let mut progress: Progress<ActivateCommand, ActivateVersionResponse> =
            plugin().activate_version_value(admin(), request);
        loop {
            match progress {
                Progress::Done(result) => return result,
                Progress::Ask(command) => {
                    let statement = command.statement();
                    let commit = matches!(statement, Statement::Commit);
                    let answer =
                        working.perform(statement, Reply::Activated, |reply| match reply {
                            Reply::Activated(response) => StoredResult::Known(response.clone()),
                            Reply::Created(_) => StoredResult::Foreign,
                        });
                    if commit {
                        *self = working.clone();
                    }
                    progress = command.answered(answer);
                }
            }
        }
    }

    fn get(&self, request: GetVersionRequest) -> Result<TemplateVersion, PluginError> {
        let mut progress: Progress<GetQuery, TemplateVersion> =
            plugin().get_version_value(request);
        loop {
            match progress {
                Progress::Done(result) => return result,
                Progress::Ask(look) => {
                    let found = self.find(look.query());
                    progress = look.answered(found);
                }
            }
        }
    }

    fn list(&self, request: ListVersionsRequest) -> Result<ListVersionsResponse, PluginError> {
        let mut progress: Progress<ListQuery, ListVersionsResponse> =
            plugin().list_versions_value(request);
        loop {
            match progress {
                Progress::Done(result) => return result,
                Progress::Ask(look) => {
                    let found = self.find(look.query());
                    progress = look.answered(found);
                }
            }
        }
    }

    fn render(&self, request: RenderRequest) -> Result<RenderResponse, PluginError> {
        let mut progress: Progress<RenderQuery, RenderResponse> = plugin().render_value(request);
        loop {
            match progress {
                Progress::Done(result) => return result,
                Progress::Ask(look) => {
                    let found = self.find(look.query());
                    progress = look.answered(found);
                }
            }
        }
    }
}

fn plugin() -> NotificationTemplatePlugin {
    NotificationTemplatePlugin {
        config: NotificationTemplateConfig {
            schema: "notification_templates".to_owned(),
            database_url_secret: "notification-templates/database-url".to_owned(),
            auth_issuer: "auth.users".to_owned(),
            auth_assertion_public_key: String::new(),
            render_callers: vec!["notification-blue".to_owned()],
            admin_callers: vec!["template-admin-blue".to_owned()],
            admin_actor_kinds: vec!["user".to_owned()],
            fallback_locales: vec!["en".to_owned(), "de".to_owned()],
        },
        prepared: true,
    }
}

fn admin() -> AuthorizedAdmin {
    AuthorizedAdmin {
        caller: "template-admin-blue".to_owned(),
        subject: "usr_template_admin".to_owned(),
    }
}

fn create_request() -> CreateVersionRequest {
    CreateVersionRequest {
        html_template: "<p>Hello {{name}}</p>".to_owned(),
        idempotency_key: "custom-v1".to_owned(),
        locale: "fr".to_owned(),
        subject_template: "Hello {{name}}".to_owned(),
        template_id: "custom".to_owned(),
        text_template: "Hello {{name}}".to_owned(),
        version: "v1".to_owned(),
    }
}

fn activate_request(expected: &str, key: &str, version: &str) -> ActivateVersionRequest {
    ActivateVersionRequest {
        expected_revision: expected.to_owned(),
        idempotency_key: key.to_owned(),
        template_id: "custom".to_owned(),
        version: version.to_owned(),
    }
}

fn render_request(locale: &str, version: Option<&str>) -> RenderRequest {
    RenderRequest {
        locale: locale.to_owned(),
        template_id: "custom".to_owned(),
        variables: vec![("name".to_owned(), "Acme <Ops>".to_owned())],
        version: version.map(str::to_owned),
    }
}

fn domain<T>(error: DomainError) -> Result<T, PluginError> {
    Err(PluginError::Domain(error))
}

/// 2026-09-01T00:00:00Z.
const SEPTEMBER: i128 = 1_788_220_800_000_000_000;

fn memory() -> Memory {
    Memory {
        now: SEPTEMBER,
        ..Memory::default()
    }
}

fn hex(bytes: &[u8]) -> String {
    bytes.iter().map(|byte| format!("{byte:02x}")).collect()
}

#[test]
fn requests_are_recognised_by_their_content() {
    assert_eq!(
        hex(&create_request().request_hash().unwrap()),
        "ed8bbd16ce3f01ee430d0b98e844a1dff358ad0915746e427378feab7e3aef83"
    );
    assert_eq!(
        hex(&activate_request("0", "activate-custom-v1", "v1")
            .request_hash()
            .unwrap()),
        "5591ee05d96fe7fc59458092f9769cc27ad365f291d7135af0cabdfc90adc66d"
    );
    let mut changed = create_request();
    changed.locale = "fr-CA".to_owned();
    assert_ne!(
        changed.request_hash().unwrap(),
        create_request().request_hash().unwrap()
    );
}

#[test]
fn moments_are_written_in_utc() {
    assert_eq!(timestamp(SEPTEMBER).unwrap(), "2026-09-01T00:00:00Z");
    assert_eq!(timestamp(0).unwrap(), "1970-01-01T00:00:00Z");
    assert_eq!(timestamp(1_500_000).unwrap(), "1970-01-01T00:00:00.0015Z");
    let first = -62_167_219_200_000_000_000;
    let last = 253_402_300_799_999_999_999;
    assert_eq!(timestamp(first).unwrap(), "0000-01-01T00:00:00Z");
    assert_eq!(timestamp(last).unwrap(), "9999-12-31T23:59:59.999999999Z");
    for outside in [first - 1, last + 1, i128::MIN, i128::MAX] {
        assert_eq!(timestamp(outside), Err(RuntimeFailure::InvalidTimestamp));
    }
}

#[test]
fn a_stored_version_is_answered_and_read_back() {
    let mut store = memory();
    let created = store.create(create_request()).unwrap();
    assert_eq!(created.template_id, "custom");
    assert_eq!(created.version, "v1");
    assert_eq!(created.locale, "fr");
    assert_eq!(created.revision, "1");
    assert_eq!(created.required_variables, vec!["name"]);
    assert_eq!(created.renderer_identity, RENDERER_IDENTITY);
    assert_eq!(created.created_at, "2026-09-01T00:00:00Z");
    assert!(!created.idempotent_replay);
    let read = store
        .get(GetVersionRequest {
            locale: "FR".to_owned(),
            template_id: "custom".to_owned(),
            version: "v1".to_owned(),
        })
        .unwrap();
    assert_eq!(read.template_digest, created.template_digest);
    assert_eq!(read.created_by, "usr_template_admin");
    assert_eq!(read.html_template, "<p>Hello {{name}}</p>");
    assert_eq!(read.revision, "1");
    assert!(!read.active);
    assert_eq!(read.head_revision, None);
    assert_eq!(
        store
            .get(GetVersionRequest {
                locale: "en".to_owned(),
                template_id: "custom".to_owned(),
                version: "v1".to_owned(),
            })
            .err(),
        domain::<()>(DomainError::NotFound).err()
    );
}

#[test]
fn commands_are_idempotent_and_versions_immutable() {
    let mut store = memory();
    let created = store.create(create_request()).unwrap();
    store.now += 1_000_000_000;
    let replay = store.create(create_request()).unwrap();
    assert!(replay.idempotent_replay);
    assert_eq!(replay.created_at, created.created_at);
    assert_eq!(replay.template_digest, created.template_digest);
    let mut changed = create_request();
    changed.subject_template = "Changed {{name}}".to_owned();
    assert_eq!(
        store.create(changed.clone()).err(),
        domain::<()>(DomainError::IdempotencyConflict).err()
    );
    changed.idempotency_key = "another".to_owned();
    assert_eq!(
        store.create(changed).err(),
        domain::<()>(DomainError::Conflict).err()
    );
    assert_eq!(store.versions.len(), 1);
    assert_eq!(store.receipts.len(), 1);
}

#[test]
fn heads_move_by_compare_and_swap() {
    let mut store = memory();
    store.create(create_request()).unwrap();
    let mut second = create_request();
    second.version = "v2".to_owned();
    second.idempotency_key = "custom-v2".to_owned();
    store.create(second).unwrap();
    assert_eq!(
        store.activate(activate_request("1", "early", "v1")).err(),
        domain::<()>(DomainError::PreconditionFailed).err()
    );
    let activated = store
        .activate(activate_request("0", "activate-custom-v1", "v1"))
        .unwrap();
    assert_eq!(activated.revision, "1");
    assert_eq!(activated.active_version, "v1");
    assert_eq!(activated.updated_at, "2026-09-01T00:00:00Z");
    assert!(!activated.idempotent_replay);
    let replay = store
        .activate(activate_request("0", "activate-custom-v1", "v1"))
        .unwrap();
    assert!(replay.idempotent_replay && replay.revision == "1");
    assert_eq!(
        store.activate(activate_request("0", "late", "v2")).err(),
        domain::<()>(DomainError::PreconditionFailed).err()
    );
    assert_eq!(
        store
            .activate(activate_request("1", "activate-custom-v1", "v2"))
            .err(),
        domain::<()>(DomainError::IdempotencyConflict).err()
    );
    assert_eq!(
        store.activate(activate_request("1", "ghost", "v3")).err(),
        domain::<()>(DomainError::NotFound).err()
    );
    let moved = store.activate(activate_request("+1", "second", "v2")).unwrap();
    assert_eq!((moved.revision.as_str(), moved.active_version.as_str()), ("2", "v2"));
    assert_eq!(store.heads["custom"].1, 2);
    // Refused commands leave no receipts.
    assert_eq!(store.receipts.len(), 4);
}

#[test]
fn a_head_at_the_last_revision_cannot_move() {
    let mut store = memory();
    store.create(create_request()).unwrap();
    store.heads.insert(
        "custom".to_owned(),
        ("v1".to_owned(), i64::MAX, "x".to_owned(), 0),
    );
    assert_eq!(
        store
            .activate(activate_request("9223372036854775807", "last", "v1"))
            .err(),
        Some(PluginError::Runtime(RuntimeFailure::RevisionExhausted))
    );
}

#[test]
fn malformed_requests_are_refused() {
    let mut store = memory();
    let invalid = domain::<()>(DomainError::InvalidRequest).err();
    let changes: [fn(&mut CreateVersionRequest); 6] = [
        |r| r.locale = "fr_FR".to_owned(),
        |r| r.template_id = "a b".to_owned(),
        |r| r.version = "v".repeat(81),
        |r| r.idempotency_key = String::new(),
        |r| r.text_template = "{{".to_owned(),
        |r| r.html_template = "<script>{{name}}</script>".to_owned(),
    ];
    for change in changes {
        let mut request = create_request();
        change(&mut request);
        assert_eq!(store.create(request).err(), invalid);
    }
    for expected in ["", "-1", "x", "9223372036854775808"] {
        assert_eq!(
            store.activate(activate_request(expected, "k", "v1")).err(),
            invalid
        );
    }
    assert_eq!(store.activate(activate_request("0", "", "v1")).err(), invalid);
    assert_eq!(store.render(render_request("x", None)).err(), invalid);
    assert_eq!(store.render(render_request("en", Some(""))).err(), invalid);
    for (count, start_index, template_id) in
        [(201, 1, None), (-1, 1, None), (1, 0, None), (1, 1, Some("a/b".to_owned()))]
    {
        assert_eq!(
            store
                .list(ListVersionsRequest {
                    count,
                    start_index,
                    template_id,
                })
                .err(),
            invalid
        );
    }
}

#[test]
fn the_first_stored_locale_is_rendered() {
    let mut store = memory();
    let not_found = domain::<()>(DomainError::NotFound).err();
    store.create(create_request()).unwrap();
    let message = store.render(render_request("fr", Some("v1"))).unwrap();
    assert_eq!(message.requested_locale, "fr");
    assert!(!message.fallback_used);
    assert_eq!(message.subject, "Hello Acme <Ops>");
    assert_eq!(message.html, "<p>Hello Acme &lt;Ops&gt;</p>");
    let message = store.render(render_request("fr-ca", Some("v1"))).unwrap();
    assert_eq!(message.requested_locale, "fr-CA");
    assert_eq!(message.resolved_locale, "fr");
    assert!(message.fallback_used);
    assert_eq!(store.render(render_request("it", Some("v1"))).err(), not_found);
    let mut german = create_request();
    german.locale = "de".to_owned();
    german.idempotency_key = "custom-de".to_owned();
    store.create(german).unwrap();
    let message = store.render(render_request("it", Some("v1"))).unwrap();
    assert_eq!(message.resolved_locale, "de");
    assert_eq!(store.render(render_request("fr", None)).err(), not_found);
    store.activate(activate_request("0", "a", "v1")).unwrap();
    let message = store.render(render_request("fr", None)).unwrap();
    assert_eq!(message.version, "v1");
}

#[test]
fn variables_decide_what_a_render_is_answered() {
    let mut store = memory();
    store.create(create_request()).unwrap();
    let render = |variables: &[(&str, &str)]| {
        let mut request = render_request("fr", Some("v1"));
        request.variables = variables
            .iter()
            .map(|(name, value)| (name.to_string(), value.to_string()))
            .collect();
        store.render(request).err()
    };
    assert_eq!(render(&[]), domain::<()>(DomainError::MissingVariable).err());
    assert_eq!(
        render(&[("name", "x"), ("extra", "y")]),
        domain::<()>(DomainError::UnexpectedVariable).err()
    );
    assert_eq!(
        render(&[("name", "\0")]),
        domain::<()>(DomainError::UnsafeVariable).err()
    );
    assert_eq!(render(&[("name", "x")]), None);
}

#[test]
fn a_preview_shows_what_is_rendered_once_stored() {
    let mut store = memory();
    store.create(create_request()).unwrap();
    let preview = PreviewRequest {
        html_template: create_request().html_template,
        locale: "FR".to_owned(),
        subject_template: create_request().subject_template,
        template_id: "custom".to_owned(),
        text_template: create_request().text_template,
        variables: vec![("name".to_owned(), "Acme <Ops>".to_owned())],
        version: "v1".to_owned(),
    };
    let shown = NotificationTemplatePlugin::preview_value(preview.clone()).unwrap();
    let rendered = store.render(render_request("fr", Some("v1"))).unwrap();
    assert_eq!(format!("{shown:?}"), format!("{rendered:?}"));
    let mut bad = preview.clone();
    bad.html_template = "{{".to_owned();
    assert_eq!(
        NotificationTemplatePlugin::preview_value(bad).err(),
        Some(TemplateFailure::InvalidRequest)
    );
    let mut bad = preview;
    bad.variables.clear();
    assert_eq!(
        NotificationTemplatePlugin::preview_value(bad).err(),
        Some(TemplateFailure::MissingVariable)
    );
}

#[test]
fn pages_are_cut_out_of_the_list() {
    let mut store = memory();
    for index in 0..5 {
        let mut request = create_request();
        request.version = format!("v{index}");
        request.idempotency_key = format!("k{index}");
        store.create(request).unwrap();
    }
    let page = store
        .list(ListVersionsRequest {
            count: 2,
            start_index: 3,
            template_id: Some("custom".to_owned()),
        })
        .unwrap();
    assert_eq!(page.total_results, 5);
    assert_eq!(page.start_index, 3);
    assert_eq!(page.items_per_page, 2);
    let versions: Vec<&str> = page
        .resources
        .iter()
        .map(|resource| resource.version.as_str())
        .collect();
    assert_eq!(versions, vec!["v2", "v3"]);
    let count = |count: i64, start_index: i64| {
        store
            .list(ListVersionsRequest {
                count,
                start_index,
                template_id: None,
            })
            .unwrap()
            .items_per_page
    };
    assert_eq!(count(200, 1), 5);
    assert_eq!(count(0, 1), 0);
    assert_eq!(count(3, 5), 1);
    assert_eq!(count(3, 6), 0);
}

#[test]
fn an_exact_release_renders_the_same_after_other_commands() {
    let mut store = memory();
    store.create(create_request()).unwrap();
    let before = store.render(render_request("fr", Some("v1"))).unwrap();
    let mut second = create_request();
    second.version = "v2".to_owned();
    second.idempotency_key = "custom-v2".to_owned();
    second.subject_template = "Bonjour {{name}}".to_owned();
    store.create(second).unwrap();
    store.activate(activate_request("0", "a", "v2")).unwrap();
    let after = store.render(render_request("fr", Some("v1"))).unwrap();
    assert_eq!(format!("{before:?}"), format!("{after:?}"));
    let active = store.render(render_request("fr", None)).unwrap();
    assert_eq!(active.subject, "Bonjour Acme <Ops>");
    assert_eq!(active.version, "v2");
}

#[test]
fn keys_of_different_operations_do_not_meet() {
    let mut store = memory();
    store.create(create_request()).unwrap();
    let activated = store
        .activate(activate_request("0", "custom-v1", "v1"))
        .unwrap();
    assert!(!activated.idempotent_replay);
    assert_eq!(store.receipts.len(), 2);
}

fn record() -> TemplateRecord {
    TemplateRecord {
        template_id: "custom".to_owned(),
        version: "v1".to_owned(),
        locale: "fr".to_owned(),
        revision: 1,
        subject_template: "Hello {{name}}".to_owned(),
        text_template: "Hello {{name}}".to_owned(),
        html_template: "<p>Hello {{name}}</p>".to_owned(),
        renderer_identity: RENDERER_IDENTITY.to_owned(),
        created_by: "usr".to_owned(),
        created_at: 0,
        active_version: Some("v1".to_owned()),
        head_revision: Some(7),
    }
}

#[test]
fn records_that_were_not_stored_by_the_plugin_are_faults() {
    let value = record().value().unwrap();
    assert!(value.active);
    assert_eq!(value.head_revision.as_deref(), Some("7"));
    let mut other = record();
    other.active_version = Some("v2".to_owned());
    assert!(!other.value().unwrap().active);
    let fault = |change: fn(&mut TemplateRecord)| {
        let mut changed = record();
        change(&mut changed);
        changed.value().err()
    };
    assert_eq!(
        fault(|r| r.html_template = "<p>".to_owned() + "{{"),
        Some(RuntimeFailure::InvalidStoredDefinition)
    );
    assert_eq!(
        fault(|r| r.renderer_identity = "other".to_owned()),
        Some(RuntimeFailure::InvalidStoredMetadata)
    );
    assert_eq!(
        fault(|r| r.revision = 2),
        Some(RuntimeFailure::InvalidStoredMetadata)
    );
    assert_eq!(
        fault(|r| r.created_at = i128::MAX),
        Some(RuntimeFailure::InvalidTimestamp)
    );
    let shown = record().value_at(Ok("then".to_owned())).unwrap();
    assert_eq!(shown.created_at, "then");
    assert_eq!(shown.required_variables, vec!["name"]);
    let mut broken = record();
    broken.text_template = String::new();
    let look = match plugin().render_value(render_request("fr", Some("v1"))) {
        Progress::Ask(look) => look,
        Progress::Done(_) => panic!("nothing was asked"),
    };
    match look.answered(Found::Template(Some(broken.clone()))) {
        Progress::Done(result) => assert_eq!(
            result.err(),
            Some(PluginError::Runtime(RuntimeFailure::InvalidStoredDefinition))
        ),
        Progress::Ask(_) => panic!("more was asked"),
    }
    let mut list = match plugin().list_versions_value(ListVersionsRequest {
        count: 2,
        start_index: 1,
        template_id: None,
    }) {
        Progress::Ask(look) => look,
        Progress::Done(_) => panic!("nothing was asked"),
    };
    list.total = Some(2);
    match list.answered(Found::Templates(vec![record(), broken])) {
        Progress::Done(result) => assert_eq!(
            result.err(),
            Some(PluginError::Runtime(RuntimeFailure::InvalidStoredDefinition))
        ),
        Progress::Ask(_) => panic!("more was asked"),
    }
}

#[test]
fn receipts_are_judged_by_hash_and_answer() {
    let claim = |hash: u8, result: StoredResult<u8>| {
        claim_receipt_of(hash, result)
    };
    assert!(matches!(claim(2, StoredResult::Known(7)), Ok(None)));
    assert!(matches!(claim(2, StoredResult::Undecodable), Ok(None)));
    assert!(matches!(claim(1, StoredResult::Known(7)), Ok(Some(Some(7)))));
    assert!(matches!(claim(1, StoredResult::Foreign), Ok(Some(None))));
    assert_eq!(
        claim(1, StoredResult::Undecodable).err(),
        Some(RuntimeFailure::Database)
    );
    assert!(unique_violation(&Some("23505".to_owned())));
    assert!(!unique_violation(&Some("23503".to_owned())));
    assert!(!unique_violation(&None));
    assert_eq!(complete_receipt(1), Ok(()));
    assert_eq!(complete_receipt(0), Err(RuntimeFailure::ReceiptOwnershipLost));
    assert_eq!(complete_receipt(2), Err(RuntimeFailure::ReceiptOwnershipLost));
}

/// `None` for another request, then the answer that is given again, if it is understood.
fn claim_receipt_of(
    hash: u8,
    result: StoredResult<u8>,
) -> Result<Option<Option<u8>>, RuntimeFailure> {
    claim_receipt(&vec![hash], result, &vec![1]).map(|claim| match claim {
        ReceiptClaim::Conflict => None,
        ReceiptClaim::Unreadable | ReceiptClaim::InProgress => Some(None),
        ReceiptClaim::Replay(response) => Some(Some(response)),
    })
}

fn create_command(state: CreateState<CreateVersionResponse>) -> CreateCommand {
    match plugin().create_version_value(admin(), create_request()) {
        Progress::Ask(command) => CreateCommand {
            plan: command.plan,
            state,
        },
        Progress::Done(_) => panic!("nothing was asked"),
    }
}

#[test]
fn faults_of_the_storage_end_a_command() {
    let end = |state, answer| match create_command(state).answered(answer) {
        Progress::Done(result) => result.err(),
        Progress::Ask(_) => panic!("more was asked"),
    };
    let failed = |code: Option<&str>| Answer::Failed {
        code: code.map(str::to_owned),
    };
    let database = Some(PluginError::Runtime(RuntimeFailure::Database));
    let conflict = domain::<()>(DomainError::Conflict).err();
    assert_eq!(end(CreateState::Beginning, failed(None)), database);
    assert_eq!(end(CreateState::Claiming, failed(Some("23505"))), database);
    assert_eq!(end(CreateState::Reading, failed(None)), database);
    assert_eq!(end(CreateState::Inserting, failed(Some("23505"))), conflict);
    assert_eq!(end(CreateState::Inserting, failed(Some("57014"))), database);
    assert_eq!(end(CreateState::Inserting, Answer::Rows(1)), database);
    assert_eq!(
        end(CreateState::Inserting, Answer::Moment(i128::MAX)),
        Some(PluginError::Runtime(RuntimeFailure::InvalidTimestamp))
    );
    assert_eq!(
        end(CreateState::Committing(None), Answer::Done),
        Some(PluginError::Runtime(RuntimeFailure::Representation))
    );
    assert_eq!(end(CreateState::Committing(None), failed(None)), database);
    let hash = create_request().request_hash().unwrap();
    let receipt = |result| Answer::Receipt {
        hash: hash.clone(),
        result,
    };
    assert_eq!(
        end(CreateState::Reading, receipt(StoredResult::Absent)),
        conflict
    );
    assert_eq!(
        end(CreateState::Reading, receipt(StoredResult::Undecodable)),
        database
    );
    let response = memory().create(create_request()).unwrap();
    assert_eq!(
        end(CreateState::Completing(response), Answer::Rows(0)),
        Some(PluginError::Runtime(RuntimeFailure::ReceiptOwnershipLost))
    );
    match create_command(CreateState::Reading).answered(receipt(StoredResult::Foreign)) {
        Progress::Ask(command) => assert!(matches!(command.statement(), Statement::Commit)),
        Progress::Done(_) => panic!("nothing was committed"),
    }
}

#[test]
fn an_activation_asks_in_order() {
    let plan = || ActivatePlan {
        receipt: ReceiptKey {
            caller: "c".to_owned(),
            subject: "s".to_owned(),
            operation: "activate_version".to_owned(),
            idempotency_key: "k".to_owned(),
        },
        hash: vec![1],
        template_id: "t".to_owned(),
        version: "v".to_owned(),
        expected_revision: 4,
    };
    let ask = |state| ActivateCommand { plan: plan(), state };
    let next = |state, answer| match ask(state).answered(answer) {
        Progress::Ask(command) => command,
        Progress::Done(_) => panic!("nothing was asked"),
    };
    let command = next(ActivateState::Locking, Answer::Head(Some(4)));
    assert!(matches!(
        command.statement(),
        Statement::UpdateHead { revision: 5, .. }
    ));
    let command = next(
        ActivateState::Moving {
            revision: 5,
            first: false,
        },
        Answer::Done,
    );
    assert!(matches!(
        command.statement(),
        Statement::HeadUpdatedAt { .. }
    ));
    let command = next(ActivateState::Timing { revision: 5 }, Answer::Moment(0));
    match command.statement() {
        Statement::CompleteReceipt { key, response } => {
            assert_eq!(key.idempotency_key, "k");
            assert_eq!(response.revision, "5");
        }
        _ => panic!("the receipt was not completed"),
    }
    match ask(ActivateState::Locking).answered(Answer::Head(None)) {
        Progress::Done(result) => assert_eq!(
            result.err(),
            domain::<()>(DomainError::PreconditionFailed).err()
        ),
        Progress::Ask(_) => panic!("more was asked"),
    }
}
