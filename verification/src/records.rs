//! What callers ask for and what they are answered.
use vstd::prelude::*;

use crate::failure::RuntimeFailure;
use crate::names;
use crate::number;
use crate::outside;
use crate::render;
use crate::render::{
    DefinitionView, MessageView, RenderedMessage, TemplateDefinition, RENDERER_IDENTITY,
};
use crate::text;

verus! {

/// A request to store a version of a template in a locale.
#[derive(Clone, Debug)]
pub struct CreateVersionRequest {
    pub html_template: String,
    pub idempotency_key: String,
    pub locale: String,
    pub subject_template: String,
    pub template_id: String,
    pub text_template: String,
    pub version: String,
}

/// A [`CreateVersionRequest`] by its texts.
pub struct CreateRequestView {
    pub html_template: Seq<char>,
    pub idempotency_key: Seq<char>,
    pub locale: Seq<char>,
    pub subject_template: Seq<char>,
    pub template_id: Seq<char>,
    pub text_template: Seq<char>,
    pub version: Seq<char>,
}

impl View for CreateVersionRequest {
    type V = CreateRequestView;

    open spec fn view(&self) -> CreateRequestView {
        CreateRequestView {
            html_template: self.html_template@,
            idempotency_key: self.idempotency_key@,
            locale: self.locale@,
            subject_template: self.subject_template@,
            template_id: self.template_id@,
            text_template: self.text_template@,
            version: self.version@,
        }
    }
}

impl CreateRequestView {
    /// The sources that are to be stored.
    pub open spec fn definition(self) -> DefinitionView {
        DefinitionView {
            subject: self.subject_template,
            text: self.text_template,
            html: self.html_template,
        }
    }

    /// The request's fields by their names.
    pub open spec fn members(self) -> Map<Seq<char>, Seq<char>> {
        map![
            "html_template"@ => self.html_template,
            "idempotency_key"@ => self.idempotency_key,
            "locale"@ => self.locale,
            "subject_template"@ => self.subject_template,
            "template_id"@ => self.template_id,
            "text_template"@ => self.text_template,
            "version"@ => self.version
        ]
    }

    /// What the request is recognised by.
    pub open spec fn hash(self) -> Seq<u8> {
        outside::sha256(outside::json_object(self.members()))
    }
}

/// A request to make a version of a template the active one.
#[derive(Clone, Debug)]
pub struct ActivateVersionRequest {
    pub expected_revision: String,
    pub idempotency_key: String,
    pub template_id: String,
    pub version: String,
}

/// An [`ActivateVersionRequest`] by its texts.
pub struct ActivateRequestView {
    pub expected_revision: Seq<char>,
    pub idempotency_key: Seq<char>,
    pub template_id: Seq<char>,
    pub version: Seq<char>,
}

impl View for ActivateVersionRequest {
    type V = ActivateRequestView;

    open spec fn view(&self) -> ActivateRequestView {
        ActivateRequestView {
            expected_revision: self.expected_revision@,
            idempotency_key: self.idempotency_key@,
            template_id: self.template_id@,
            version: self.version@,
        }
    }
}

impl ActivateRequestView {
    /// The request's fields by their names.
    pub open spec fn members(self) -> Map<Seq<char>, Seq<char>> {
        map![
            "expected_revision"@ => self.expected_revision,
            "idempotency_key"@ => self.idempotency_key,
            "template_id"@ => self.template_id,
            "version"@ => self.version
        ]
    }

    /// What the request is recognised by.
    pub open spec fn hash(self) -> Seq<u8> {
        outside::sha256(outside::json_object(self.members()))
    }
}

/// The fields of a request to store have different names.
proof fn lemma_create_names()
    ensures
        "html_template"@ != "idempotency_key"@,
        "html_template"@ != "locale"@,
        "html_template"@ != "subject_template"@,
        "html_template"@ != "template_id"@,
        "html_template"@ != "text_template"@,
        "html_template"@ != "version"@,
        "idempotency_key"@ != "locale"@,
        "idempotency_key"@ != "subject_template"@,
        "idempotency_key"@ != "template_id"@,
        "idempotency_key"@ != "text_template"@,
        "idempotency_key"@ != "version"@,
        "locale"@ != "subject_template"@,
        "locale"@ != "template_id"@,
        "locale"@ != "text_template"@,
        "locale"@ != "version"@,
        "subject_template"@ != "template_id"@,
        "subject_template"@ != "text_template"@,
        "subject_template"@ != "version"@,
        "template_id"@ != "text_template"@,
        "template_id"@ != "version"@,
        "text_template"@ != "version"@,
{
    reveal_strlit("html_template");
    assert("html_template"@.len() == 13);
    reveal_strlit("idempotency_key");
    assert("idempotency_key"@.len() == 15);
    reveal_strlit("locale");
    assert("locale"@.len() == 6);
    reveal_strlit("subject_template");
    assert("subject_template"@.len() == 16);
    reveal_strlit("template_id");
    assert("template_id"@.len() == 11);
    reveal_strlit("text_template");
    assert("text_template"@.len() == 13);
    reveal_strlit("version");
    assert("version"@.len() == 7);
    assert("html_template"@[0] != "text_template"@[0]);
}

/// The fields of a request to activate have different names.
proof fn lemma_activate_names()
    ensures
        "expected_revision"@ != "idempotency_key"@,
        "expected_revision"@ != "template_id"@,
        "expected_revision"@ != "version"@,
        "idempotency_key"@ != "template_id"@,
        "idempotency_key"@ != "version"@,
        "template_id"@ != "version"@,
{
    reveal_strlit("expected_revision");
    assert("expected_revision"@.len() == 17);
    reveal_strlit("idempotency_key");
    assert("idempotency_key"@.len() == 15);
    reveal_strlit("template_id");
    assert("template_id"@.len() == 11);
    reveal_strlit("version");
    assert("version"@.len() == 7);
}

/// Requests to store that differ have different members.
pub proof fn law_create_members_tell_requests_apart(a: CreateRequestView, b: CreateRequestView)
    requires
        a.members() == b.members(),
    ensures
        a == b,
{
    lemma_create_names();
    assert(a.members()["html_template"@] == a.html_template);
    assert(b.members()["html_template"@] == b.html_template);
    assert(a.members()["idempotency_key"@] == a.idempotency_key);
    assert(b.members()["idempotency_key"@] == b.idempotency_key);
    assert(a.members()["locale"@] == a.locale);
    assert(b.members()["locale"@] == b.locale);
    assert(a.members()["subject_template"@] == a.subject_template);
    assert(b.members()["subject_template"@] == b.subject_template);
    assert(a.members()["template_id"@] == a.template_id);
    assert(b.members()["template_id"@] == b.template_id);
    assert(a.members()["text_template"@] == a.text_template);
    assert(b.members()["text_template"@] == b.text_template);
    assert(a.members()["version"@] == a.version);
    assert(b.members()["version"@] == b.version);
}

/// Requests to activate that differ have different members.
pub proof fn law_activate_members_tell_requests_apart(a: ActivateRequestView, b: ActivateRequestView)
    requires
        a.members() == b.members(),
    ensures
        a == b,
{
    lemma_activate_names();
    assert(a.members()["expected_revision"@] == a.expected_revision);
    assert(b.members()["expected_revision"@] == b.expected_revision);
    assert(a.members()["idempotency_key"@] == a.idempotency_key);
    assert(b.members()["idempotency_key"@] == b.idempotency_key);
    assert(a.members()["template_id"@] == a.template_id);
    assert(b.members()["template_id"@] == b.template_id);
    assert(a.members()["version"@] == a.version);
    assert(b.members()["version"@] == b.version);
}

/// The hash of a JSON object with these members.
fn request_hash(members: Vec<(String, String)>) -> (res: Result<Vec<u8>, RuntimeFailure>)
    requires
        names::named_once(members@),
    ensures
        res is Ok,
        res->Ok_0@ == outside::sha256(outside::json_object(names::pairs_map(members@))),
        forall|other: Map<Seq<char>, Seq<char>>|
            other.dom().finite() && #[trigger] outside::json_object(other) == outside::json_object(
                names::pairs_map(members@),
            ) ==> other == names::pairs_map(members@),
{
    match outside::json_of_strings(members) {
        Ok(bytes) => Ok(outside::sha256_digest(bytes.as_slice())),
        Err(_) => Err(RuntimeFailure::Representation),
    }
}

impl CreateVersionRequest {
    /// What the request is recognised by: the hash of the JSON object that its fields form. No
    /// other request forms the same object.
    pub fn request_hash(&self) -> (res: Result<Vec<u8>, RuntimeFailure>)
        ensures
            res is Ok,
            res->Ok_0@ == self@.hash(),
            forall|other: CreateRequestView| #[trigger]
                outside::json_object(other.members()) == outside::json_object(self@.members())
                    ==> other == self@,
    {
        let mut members: Vec<(String, String)> = Vec::new();
        proof {
            lemma_create_names();
        }
        names::add_pair(&mut members, "html_template", &self.html_template);
        names::add_pair(&mut members, "idempotency_key", &self.idempotency_key);
        names::add_pair(&mut members, "locale", &self.locale);
        names::add_pair(&mut members, "subject_template", &self.subject_template);
        names::add_pair(&mut members, "template_id", &self.template_id);
        names::add_pair(&mut members, "text_template", &self.text_template);
        names::add_pair(&mut members, "version", &self.version);
        assert(names::pairs_map(members@) =~= self@.members());
        let res = request_hash(members);
        proof {
            assert forall|other: CreateRequestView| #[trigger]
                outside::json_object(other.members()) == outside::json_object(
                    self@.members(),
                ) implies other == self@ by {
                assert(other.members().dom().finite());
                law_create_members_tell_requests_apart(other, self@);
            }
        }
        res
    }
}

impl ActivateVersionRequest {
    /// What the request is recognised by: the hash of the JSON object that its fields form. No
    /// other request forms the same object.
    pub fn request_hash(&self) -> (res: Result<Vec<u8>, RuntimeFailure>)
        ensures
            res is Ok,
            res->Ok_0@ == self@.hash(),
            forall|other: ActivateRequestView| #[trigger]
                outside::json_object(other.members()) == outside::json_object(self@.members())
                    ==> other == self@,
    {
        let mut members: Vec<(String, String)> = Vec::new();
        proof {
            lemma_activate_names();
        }
        names::add_pair(&mut members, "expected_revision", &self.expected_revision);
        names::add_pair(&mut members, "idempotency_key", &self.idempotency_key);
        names::add_pair(&mut members, "template_id", &self.template_id);
        names::add_pair(&mut members, "version", &self.version);
        assert(names::pairs_map(members@) =~= self@.members());
        let res = request_hash(members);
        proof {
            assert forall|other: ActivateRequestView| #[trigger]
                outside::json_object(other.members()) == outside::json_object(
                    self@.members(),
                ) implies other == self@ by {
                assert(other.members().dom().finite());
                law_activate_members_tell_requests_apart(other, self@);
            }
        }
        res
    }
}

/// A request to see a version of a template in a locale.
#[derive(Clone, Debug)]
pub struct GetVersionRequest {
    pub locale: String,
    pub template_id: String,
    pub version: String,
}

/// A [`GetVersionRequest`] by its texts.
pub struct GetRequestView {
    pub locale: Seq<char>,
    pub template_id: Seq<char>,
    pub version: Seq<char>,
}

impl View for GetVersionRequest {
    type V = GetRequestView;

    open spec fn view(&self) -> GetRequestView {
        GetRequestView {
            locale: self.locale@,
            template_id: self.template_id@,
            version: self.version@,
        }
    }
}

/// A request to see some of the stored versions, of one template or of all.
#[derive(Clone, Debug)]
pub struct ListVersionsRequest {
    pub count: i64,
    pub start_index: i64,
    pub template_id: Option<String>,
}

/// A [`ListVersionsRequest`] by its texts.
pub struct ListRequestView {
    pub count: int,
    pub start_index: int,
    pub template_id: Option<Seq<char>>,
}

impl View for ListVersionsRequest {
    type V = ListRequestView;

    open spec fn view(&self) -> ListRequestView {
        ListRequestView {
            count: self.count as int,
            start_index: self.start_index as int,
            template_id: text::optional(self.template_id),
        }
    }
}

/// A request to render a stored version, the active one if none is named.
#[derive(Clone, Debug)]
pub struct RenderRequest {
    pub locale: String,
    pub template_id: String,
    pub variables: Vec<(String, String)>,
    pub version: Option<String>,
}

/// A [`RenderRequest`] by its texts.
pub struct RenderRequestView {
    pub locale: Seq<char>,
    pub template_id: Seq<char>,
    pub variables: Seq<(String, String)>,
    pub version: Option<Seq<char>>,
}

impl View for RenderRequest {
    type V = RenderRequestView;

    open spec fn view(&self) -> RenderRequestView {
        RenderRequestView {
            locale: self.locale@,
            template_id: self.template_id@,
            variables: self.variables@,
            version: text::optional(self.version),
        }
    }
}

/// A request to render sources that are not stored.
#[derive(Clone, Debug)]
pub struct PreviewRequest {
    pub html_template: String,
    pub locale: String,
    pub subject_template: String,
    pub template_id: String,
    pub text_template: String,
    pub variables: Vec<(String, String)>,
    pub version: String,
}

/// A [`PreviewRequest`] by its texts.
pub struct PreviewRequestView {
    pub html_template: Seq<char>,
    pub locale: Seq<char>,
    pub subject_template: Seq<char>,
    pub template_id: Seq<char>,
    pub text_template: Seq<char>,
    pub variables: Seq<(String, String)>,
    pub version: Seq<char>,
}

impl View for PreviewRequest {
    type V = PreviewRequestView;

    open spec fn view(&self) -> PreviewRequestView {
        PreviewRequestView {
            html_template: self.html_template@,
            locale: self.locale@,
            subject_template: self.subject_template@,
            template_id: self.template_id@,
            text_template: self.text_template@,
            variables: self.variables@,
            version: self.version@,
        }
    }
}

/// The answer to a request to store.
#[derive(Clone, Debug)]
pub struct CreateVersionResponse {
    pub template_id: String,
    pub version: String,
    pub locale: String,
    pub revision: String,
    pub required_variables: Vec<String>,
    pub renderer_identity: String,
    pub template_digest: String,
    pub created_at: String,
    pub idempotent_replay: bool,
}

/// A [`CreateVersionResponse`] by its texts.
pub struct CreatedView {
    pub template_id: Seq<char>,
    pub version: Seq<char>,
    pub locale: Seq<char>,
    pub revision: Seq<char>,
    pub required_variables: Seq<Seq<char>>,
    pub renderer_identity: Seq<char>,
    pub template_digest: Seq<char>,
    pub created_at: Seq<char>,
    pub idempotent_replay: bool,
}

impl View for CreateVersionResponse {
    type V = CreatedView;

    open spec fn view(&self) -> CreatedView {
        CreatedView {
            template_id: self.template_id@,
            version: self.version@,
            locale: self.locale@,
            revision: self.revision@,
            required_variables: text::texts(self.required_variables@),
            renderer_identity: self.renderer_identity@,
            template_digest: self.template_digest@,
            created_at: self.created_at@,
            idempotent_replay: self.idempotent_replay,
        }
    }
}

/// The answer to a request to activate.
#[derive(Clone, Debug)]
pub struct ActivateVersionResponse {
    pub template_id: String,
    pub active_version: String,
    pub revision: String,
    pub updated_at: String,
    pub idempotent_replay: bool,
}

/// An [`ActivateVersionResponse`] by its texts.
pub struct ActivatedView {
    pub template_id: Seq<char>,
    pub active_version: Seq<char>,
    pub revision: Seq<char>,
    pub updated_at: Seq<char>,
    pub idempotent_replay: bool,
}

impl View for ActivateVersionResponse {
    type V = ActivatedView;

    open spec fn view(&self) -> ActivatedView {
        ActivatedView {
            template_id: self.template_id@,
            active_version: self.active_version@,
            revision: self.revision@,
            updated_at: self.updated_at@,
            idempotent_replay: self.idempotent_replay,
        }
    }
}

/// A stored version as an administrator sees it.
#[derive(Clone, Debug)]
pub struct TemplateVersion {
    pub template_id: String,
    pub version: String,
    pub locale: String,
    pub revision: String,
    pub subject_template: String,
    pub text_template: String,
    pub html_template: String,
    pub required_variables: Vec<String>,
    pub renderer_identity: String,
    pub template_digest: String,
    pub created_by: String,
    pub created_at: String,
    pub active: bool,
    pub head_revision: Option<String>,
}

/// A [`TemplateVersion`] by its texts.
pub struct VersionView {
    pub template_id: Seq<char>,
    pub version: Seq<char>,
    pub locale: Seq<char>,
    pub revision: Seq<char>,
    pub subject_template: Seq<char>,
    pub text_template: Seq<char>,
    pub html_template: Seq<char>,
    pub required_variables: Seq<Seq<char>>,
    pub renderer_identity: Seq<char>,
    pub template_digest: Seq<char>,
    pub created_by: Seq<char>,
    pub created_at: Seq<char>,
    pub active: bool,
    pub head_revision: Option<Seq<char>>,
}

impl View for TemplateVersion {
    type V = VersionView;

    open spec fn view(&self) -> VersionView {
        VersionView {
            template_id: self.template_id@,
            version: self.version@,
            locale: self.locale@,
            revision: self.revision@,
            subject_template: self.subject_template@,
            text_template: self.text_template@,
            html_template: self.html_template@,
            required_variables: text::texts(self.required_variables@),
            renderer_identity: self.renderer_identity@,
            template_digest: self.template_digest@,
            created_by: self.created_by@,
            created_at: self.created_at@,
            active: self.active,
            head_revision: text::optional(self.head_revision),
        }
    }
}

/// A rendered message and what it was rendered from.
#[derive(Clone, Debug)]
pub struct RenderResponse {
    pub template_id: String,
    pub version: String,
    pub requested_locale: String,
    pub resolved_locale: String,
    pub fallback_used: bool,
    pub renderer_identity: String,
    pub template_digest: String,
    pub content_digest: String,
    pub subject: String,
    pub text: String,
    pub html: String,
}

/// A [`RenderResponse`] by its texts.
pub struct DeliveryView {
    pub template_id: Seq<char>,
    pub version: Seq<char>,
    pub requested_locale: Seq<char>,
    pub resolved_locale: Seq<char>,
    pub fallback_used: bool,
    pub renderer_identity: Seq<char>,
    pub template_digest: Seq<char>,
    pub content_digest: Seq<char>,
    pub subject: Seq<char>,
    pub text: Seq<char>,
    pub html: Seq<char>,
}

impl View for RenderResponse {
    type V = DeliveryView;

    open spec fn view(&self) -> DeliveryView {
        DeliveryView {
            template_id: self.template_id@,
            version: self.version@,
            requested_locale: self.requested_locale@,
            resolved_locale: self.resolved_locale@,
            fallback_used: self.fallback_used,
            renderer_identity: self.renderer_identity@,
            template_digest: self.template_digest@,
            content_digest: self.content_digest@,
            subject: self.subject@,
            text: self.text@,
            html: self.html@,
        }
    }
}

/// A stored version, with its template's head if it has one. Times are in nanoseconds since 1970.
#[derive(Clone, Debug)]
pub struct TemplateRecord {
    pub template_id: String,
    pub version: String,
    pub locale: String,
    pub revision: i64,
    pub subject_template: String,
    pub text_template: String,
    pub html_template: String,
    pub renderer_identity: String,
    pub created_by: String,
    pub created_at: i128,
    pub active_version: Option<String>,
    pub head_revision: Option<i64>,
}

/// A [`TemplateRecord`] by its texts.
pub struct RecordView {
    pub template_id: Seq<char>,
    pub version: Seq<char>,
    pub locale: Seq<char>,
    pub revision: int,
    pub subject_template: Seq<char>,
    pub text_template: Seq<char>,
    pub html_template: Seq<char>,
    pub renderer_identity: Seq<char>,
    pub created_by: Seq<char>,
    pub created_at: int,
    pub active_version: Option<Seq<char>>,
    pub head_revision: Option<int>,
}

impl View for TemplateRecord {
    type V = RecordView;

    open spec fn view(&self) -> RecordView {
        RecordView {
            template_id: self.template_id@,
            version: self.version@,
            locale: self.locale@,
            revision: self.revision as int,
            subject_template: self.subject_template@,
            text_template: self.text_template@,
            html_template: self.html_template@,
            renderer_identity: self.renderer_identity@,
            created_by: self.created_by@,
            created_at: self.created_at as int,
            active_version: text::optional(self.active_version),
            head_revision: match self.head_revision {
                Some(value) => Some(value as int),
                None => None,
            },
        }
    }
}

/// A page of stored versions.
#[derive(Clone, Debug)]
pub struct ListVersionsResponse {
    pub resources: Vec<TemplateVersion>,
    pub total_results: i64,
    pub start_index: i64,
    pub items_per_page: usize,
}

/// A [`ListVersionsResponse`] by its texts.
pub struct PageView {
    pub resources: Seq<VersionView>,
    pub total_results: int,
    pub start_index: int,
    pub items_per_page: int,
}

/// Versions by their texts.
pub open spec fn version_views(list: Seq<TemplateVersion>) -> Seq<VersionView> {
    Seq::new(list.len(), |i: int| list[i]@)
}

/// Stored versions by their texts.
pub open spec fn record_views(list: Seq<TemplateRecord>) -> Seq<RecordView> {
    Seq::new(list.len(), |i: int| list[i]@)
}

impl View for ListVersionsResponse {
    type V = PageView;

    open spec fn view(&self) -> PageView {
        PageView {
            resources: version_views(self.resources@),
            total_results: self.total_results as int,
            start_index: self.start_index as int,
            items_per_page: self.items_per_page as int,
        }
    }
}

impl PreviewRequestView {
    /// The sources that are to be rendered.
    pub open spec fn definition(self) -> DefinitionView {
        DefinitionView {
            subject: self.subject_template,
            text: self.text_template,
            html: self.html_template,
        }
    }
}

/// A moment in nanoseconds since 1970 as answers give it.
pub open spec fn moment_text(nanos: int) -> Result<Seq<char>, RuntimeFailure> {
    if outside::four_digit_year(nanos) {
        Ok(outside::rfc3339_text(nanos))
    } else {
        Err(RuntimeFailure::InvalidTimestamp)
    }
}

/// A moment in nanoseconds since 1970 as answers give it.
pub fn timestamp(nanos: i128) -> (res: Result<String, RuntimeFailure>)
    ensures
        match res {
            Ok(written) => moment_text(nanos as int) == Ok::<Seq<char>, RuntimeFailure>(written@),
            Err(failure) => moment_text(nanos as int) == Err::<Seq<char>, RuntimeFailure>(failure),
        },
{
    match outside::rfc3339(nanos) {
        Some(written) => Ok(written),
        None => Err(RuntimeFailure::InvalidTimestamp),
    }
}

impl RecordView {
    /// The stored sources.
    pub open spec fn definition(self) -> DefinitionView {
        DefinitionView {
            subject: self.subject_template,
            text: self.text_template,
            html: self.html_template,
        }
    }

    /// What an administrator sees of the record, given the moment of its creation in words, unless
    /// the record is not one that the plugin stores.
    pub open spec fn value_at(self, created_at: Result<Seq<char>, RuntimeFailure>) -> Result<
        VersionView,
        RuntimeFailure,
    > {
        if !render::valid_definition(self.definition()) {
            Err(RuntimeFailure::InvalidStoredDefinition)
        } else if self.renderer_identity != RENDERER_IDENTITY@ || self.revision != 1 {
            Err(RuntimeFailure::InvalidStoredMetadata)
        } else {
            match created_at {
                Ok(created_at) => Ok(
                    VersionView {
                        template_id: self.template_id,
                        version: self.version,
                        locale: self.locale,
                        revision: number::integer_text(self.revision),
                        subject_template: self.subject_template,
                        text_template: self.text_template,
                        html_template: self.html_template,
                        required_variables: render::required_names(self.definition()),
                        renderer_identity: self.renderer_identity,
                        template_digest: render::definition_digest(self.definition()),
                        created_by: self.created_by,
                        created_at,
                        active: self.active_version == Some(self.version),
                        head_revision: match self.head_revision {
                            Some(revision) => Some(number::integer_text(revision)),
                            None => None,
                        },
                    },
                ),
                Err(failure) => Err(failure),
            }
        }
    }

    /// What an administrator sees of the record, unless the record is not one that the plugin
    /// stores.
    pub open spec fn value(self) -> Result<VersionView, RuntimeFailure> {
        self.value_at(moment_text(self.created_at))
    }
}

impl TemplateRecord {
    /// The stored sources.
    pub fn definition(&self) -> (res: TemplateDefinition)
        ensures
            res@ == self@.definition(),
    {
        TemplateDefinition {
            subject: self.subject_template.clone(),
            text: self.text_template.clone(),
            html: self.html_template.clone(),
        }
    }

    /// What an administrator sees of the record.
    pub fn value(&self) -> (res: Result<TemplateVersion, RuntimeFailure>)
        ensures
            match res {
                Ok(version) => self@.value() == Ok::<VersionView, RuntimeFailure>(version@),
                Err(failure) => self@.value() == Err::<VersionView, RuntimeFailure>(failure),
            },
    {
        self.value_at(timestamp(self.created_at))
    }

    /// What an administrator sees of the record, given the moment of its creation in words.
    pub fn value_at(&self, created_at: Result<String, RuntimeFailure>) -> (res: Result<
        TemplateVersion,
        RuntimeFailure,
    >)
        ensures
            ({
                let expected = self@.value_at(
                    match created_at {
                        Ok(written) => Ok(written@),
                        Err(failure) => Err(failure),
                    },
                );
                match res {
                    Ok(version) => expected == Ok::<VersionView, RuntimeFailure>(version@),
                    Err(failure) => expected == Err::<VersionView, RuntimeFailure>(failure),
                }
            }),
    {
        let definition = self.definition();
        let required_variables = match render::validate_definition(&definition) {
            Ok(required) => required,
            Err(_) => {
                return Err(RuntimeFailure::InvalidStoredDefinition);
            },
        };
        proof {
            render::lemma_required_names(text::texts(required_variables@), definition@);
        }
        if !text::same_text(self.renderer_identity.as_str(), RENDERER_IDENTITY) || self.revision
            != 1 {
            return Err(RuntimeFailure::InvalidStoredMetadata);
        }
        let created_at = match created_at {
            Ok(written) => written,
            Err(failure) => {
                return Err(failure);
            },
        };
        let active: bool = match &self.active_version {
            Some(version) => text::same_text(version.as_str(), self.version.as_str()),
            None => false,
        };
        let head_revision = match self.head_revision {
            Some(revision) => Some(number::integer_to_text(revision)),
            None => None,
        };
        Ok(
            TemplateVersion {
                template_id: self.template_id.clone(),
                version: self.version.clone(),
                locale: self.locale.clone(),
                revision: number::integer_to_text(self.revision),
                subject_template: self.subject_template.clone(),
                text_template: self.text_template.clone(),
                html_template: self.html_template.clone(),
                required_variables,
                renderer_identity: self.renderer_identity.clone(),
                template_digest: render::template_digest(&definition),
                created_by: self.created_by.clone(),
                created_at,
                active,
                head_revision,
            },
        )
    }
}

/// What is answered when a message has been rendered.
pub open spec fn delivery(
    template_id: Seq<char>,
    version: Seq<char>,
    requested_locale: Seq<char>,
    resolved_locale: Seq<char>,
    message: MessageView,
) -> DeliveryView {
    DeliveryView {
        template_id,
        version,
        requested_locale,
        resolved_locale,
        fallback_used: requested_locale != resolved_locale,
        renderer_identity: RENDERER_IDENTITY@,
        template_digest: message.template_digest,
        content_digest: message.content_digest,
        subject: message.subject,
        text: message.text,
        html: message.html,
    }
}

/// What is answered when a message has been rendered.
pub fn rendered_value(
    template_id: &str,
    version: &str,
    requested_locale: &str,
    resolved_locale: &str,
    rendered: RenderedMessage,
) -> (res: RenderResponse)
    ensures
        res@ == delivery(
            template_id@,
            version@,
            requested_locale@,
            resolved_locale@,
            rendered@,
        ),
{
    RenderResponse {
        template_id: template_id.to_owned(),
        version: version.to_owned(),
        requested_locale: requested_locale.to_owned(),
        resolved_locale: resolved_locale.to_owned(),
        fallback_used: !text::same_text(requested_locale, resolved_locale),
        renderer_identity: RENDERER_IDENTITY.to_owned(),
        template_digest: rendered.template_digest,
        content_digest: rendered.content_digest,
        subject: rendered.subject,
        text: rendered.text,
        html: rendered.html,
    }
}

/// What a request to store is recognised by: its seven fields, each under its name.
pub proof fn law_requests_to_store_are_recognised(
    request: CreateRequestView,
    members: Map<Seq<char>, Seq<char>>,
)
    requires
        members.dom() == set![
            "html_template"@,
            "idempotency_key"@,
            "locale"@,
            "subject_template"@,
            "template_id"@,
            "text_template"@,
            "version"@
        ],
        members["html_template"@] == request.html_template,
        members["idempotency_key"@] == request.idempotency_key,
        members["locale"@] == request.locale,
        members["subject_template"@] == request.subject_template,
        members["template_id"@] == request.template_id,
        members["text_template"@] == request.text_template,
        members["version"@] == request.version,
    ensures
        request.hash() == outside::sha256(outside::json_object(members)),
{
    lemma_create_names();
    assert(members =~= request.members());
}

/// What a request to activate is recognised by: its four fields, each under its name.
pub proof fn law_requests_to_activate_are_recognised(
    request: ActivateRequestView,
    members: Map<Seq<char>, Seq<char>>,
)
    requires
        members.dom() == set![
            "expected_revision"@,
            "idempotency_key"@,
            "template_id"@,
            "version"@
        ],
        members["expected_revision"@] == request.expected_revision,
        members["idempotency_key"@] == request.idempotency_key,
        members["template_id"@] == request.template_id,
        members["version"@] == request.version,
    ensures
        request.hash() == outside::sha256(outside::json_object(members)),
{
    lemma_activate_names();
    assert(members =~= request.members());
}

/// A moment is written as RFC 3339 has it, if its year has four digits, and else it is a fault.
pub proof fn law_moments_are_written(nanos: int)
    ensures
        outside::four_digit_year(nanos) ==> moment_text(nanos) == Ok::<Seq<char>, RuntimeFailure>(
            outside::rfc3339_text(nanos),
        ),
        !outside::four_digit_year(nanos) ==> moment_text(nanos) == Err::<
            Seq<char>,
            RuntimeFailure,
        >(RuntimeFailure::InvalidTimestamp),
{
}

} // verus!
