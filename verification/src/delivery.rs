//! Rendering messages for callers.
use vstd::prelude::*;

use crate::auth;
use crate::auth::{Call, CallView, PREVIEW_OPERATION};
use crate::config::ConfigView;
use crate::failure;
use crate::failure::{
    DomainError, PluginError, RuntimeFailure, TemplateFailure, TemplateResult,
};
use crate::identifier;
use crate::locale;
use crate::plugin;
use crate::plugin::NotificationTemplatePlugin;
use crate::query::{Found, FoundView, Query, QueryView};
use crate::records;
use crate::records::{
    DeliveryView, PreviewRequest, PreviewRequestView, RecordView, RenderRequest, RenderRequestView,
    RenderResponse, TemplateRecord,
};
use crate::render;
use crate::render::TemplateDefinition;
use crate::store::{Progress, ReleaseKey, ReleaseKeyView};
use crate::syntax::RenderFailure;
use crate::text;

verus! {

/// A message that is being rendered: the version, once it is known, is looked for in a locale, and
/// then in the candidates from `next` on.
#[derive(Debug)]
pub struct RenderQuery {
    pub template_id: String,
    pub version: Option<String>,
    pub requested_locale: String,
    pub locale: String,
    pub candidates: Vec<String>,
    pub next: usize,
    pub variables: Vec<(String, String)>,
}

/// A [`RenderQuery`] by its texts.
pub struct RenderQueryView {
    pub template_id: Seq<char>,
    pub version: Option<Seq<char>>,
    pub requested_locale: Seq<char>,
    pub locale: Seq<char>,
    pub later: Seq<Seq<char>>,
    pub variables: Seq<(String, String)>,
}

impl View for RenderQuery {
    type V = RenderQueryView;

    open spec fn view(&self) -> RenderQueryView {
        RenderQueryView {
            template_id: self.template_id@,
            version: text::optional(self.version),
            requested_locale: self.requested_locale@,
            locale: self.locale@,
            later: if self.next <= self.candidates@.len() {
                text::texts(self.candidates@).skip(self.next as int)
            } else {
                Seq::empty()
            },
            variables: self.variables@,
        }
    }
}

/// The request names a template, and a version if it names one, and a locale.
pub open spec fn well_formed(request: RenderRequestView) -> bool {
    &&& locale::canonical_locale(request.locale) is Some
    &&& identifier::identifier(request.template_id, 160)
    &&& request.version matches Some(version) ==> identifier::identifier(version, 80)
}

/// How an allowed caller's request begins.
pub open spec fn render_begun(
    config: ConfigView,
    prepared: bool,
    request: RenderRequestView,
) -> Progress<RenderQueryView, DeliveryView> {
    if !well_formed(request) {
        plugin::refused(TemplateFailure::InvalidRequest)
    } else if !prepared {
        plugin::failed(RuntimeFailure::NotPrepared)
    } else {
        let requested = locale::canonical_locale(request.locale)->0;
        let candidates = locale::candidates(requested, config.fallback_locales);
        Progress::Ask(
            RenderQueryView {
                template_id: request.template_id,
                version: request.version,
                requested_locale: requested,
                locale: candidates.first(),
                later: candidates.drop_first(),
                variables: request.variables,
            },
        )
    }
}

/// How a call begins.
pub open spec fn render_called(
    config: ConfigView,
    prepared: bool,
    call: CallView,
    request: RenderRequestView,
) -> Progress<RenderQueryView, DeliveryView> {
    if auth::allowed(call.caller, config.render_callers) {
        render_begun(config, prepared, request)
    } else {
        Progress::Done(Err(PluginError::Domain(DomainError::Unauthorized)))
    }
}

/// What the look asks of the storage.
pub open spec fn render_query(look: RenderQueryView) -> QueryView {
    match look.version {
        None => QueryView::ActiveVersion { template_id: look.template_id },
        Some(version) => QueryView::Template {
            release: ReleaseKeyView {
                template_id: look.template_id,
                version,
                locale: look.locale,
            },
        },
    }
}

/// What comes of rendering a stored version.
pub open spec fn delivered(
    record: RecordView,
    requested_locale: Seq<char>,
    variables: Seq<(String, String)>,
) -> TemplateResult<DeliveryView> {
    match render::render_failure(record.definition(), variables) {
        None => Ok(
            Ok(
                records::delivery(
                    record.template_id,
                    record.version,
                    requested_locale,
                    record.locale,
                    render::message_of(record.definition(), variables),
                ),
            ),
        ),
        Some(RenderFailure::InvalidTemplate) => Err(RuntimeFailure::InvalidStoredDefinition),
        Some(reason) => Ok(Err(failure::render_refusal(reason))),
    }
}

/// How the look goes on when the storage has answered.
pub open spec fn render_answered(look: RenderQueryView, found: FoundView) -> Progress<
    RenderQueryView,
    DeliveryView,
> {
    match (look.version, found) {
        (None, FoundView::ActiveVersion(Some(version))) => Progress::Ask(
            RenderQueryView { version: Some(version), ..look },
        ),
        (None, FoundView::ActiveVersion(None)) => plugin::refused(TemplateFailure::NotFound),
        (Some(version), FoundView::Template(Some(record))) => Progress::Done(
            failure::plugin_result(delivered(record, look.requested_locale, look.variables)),
        ),
        (Some(version), FoundView::Template(None)) => if look.later.len() > 0 {
            Progress::Ask(
                RenderQueryView {
                    locale: look.later.first(),
                    later: look.later.drop_first(),
                    ..look
                },
            )
        } else {
            plugin::refused(TemplateFailure::NotFound)
        },
        _ => plugin::failed(RuntimeFailure::Database),
    }
}

/// What comes of rendering sources that are not stored.
pub open spec fn previewed(request: PreviewRequestView) -> Result<DeliveryView, TemplateFailure> {
    if locale::canonical_locale(request.locale) is None || !identifier::identifier(
        request.template_id,
        160,
    ) || !identifier::identifier(request.version, 80) {
        Err(TemplateFailure::InvalidRequest)
    } else {
        let locale = locale::canonical_locale(request.locale)->0;
        match render::render_failure(request.definition(), request.variables) {
            None => Ok(
                records::delivery(
                    request.template_id,
                    request.version,
                    locale,
                    locale,
                    render::message_of(request.definition(), request.variables),
                ),
            ),
            Some(reason) => Err(failure::render_refusal(reason)),
        }
    }
}

/// What a call for a preview is answered.
pub open spec fn preview_called(
    config: ConfigView,
    call: CallView,
    request: PreviewRequestView,
) -> Result<DeliveryView, PluginError> {
    match auth::administrator(config, call, PREVIEW_OPERATION@) {
        Ok(admin) => failure::plugin_result(Ok(previewed(request))),
        Err(failure) => Err(plugin::authorization_error(failure)),
    }
}

/// Renders a stored version.
fn deliver(record: TemplateRecord, requested_locale: &str, variables: Vec<(String, String)>) -> (res:
    TemplateResult<RenderResponse>)
    ensures
        match res {
            Ok(Ok(response)) => delivered(record@, requested_locale@, variables@) == Ok::<
                Result<DeliveryView, TemplateFailure>,
                RuntimeFailure,
            >(Ok(response@)),
            Ok(Err(reason)) => delivered(record@, requested_locale@, variables@) == Ok::<
                Result<DeliveryView, TemplateFailure>,
                RuntimeFailure,
            >(Err(reason)),
            Err(reason) => delivered(record@, requested_locale@, variables@) == Err::<
                Result<DeliveryView, TemplateFailure>,
                RuntimeFailure,
            >(reason),
        },
{
    let definition = record.definition();
    if render::validate_definition(&definition).is_err() {
        return Err(RuntimeFailure::InvalidStoredDefinition);
    }
    match render::render(&definition, variables) {
        Ok(message) => {
            proof {
                render::lemma_message_of(message@, definition@, variables@);
            }
            Ok(
                Ok(
                    records::rendered_value(
                        record.template_id.as_str(),
                        record.version.as_str(),
                        requested_locale,
                        record.locale.as_str(),
                        message,
                    ),
                ),
            )
        },
        Err(RenderFailure::InvalidTemplate) => Err(RuntimeFailure::InvalidStoredDefinition),
        Err(reason) => Ok(Err(failure::map_render_failure(reason))),
    }
}

impl RenderQuery {
    /// What the look asks of the storage.
    pub fn query(&self) -> (res: Query)
        ensures
            res@ == render_query(self@),
    {
        match &self.version {
            None => Query::ActiveVersion { template_id: self.template_id.clone() },
            Some(version) => Query::Template {
                release: ReleaseKey {
                    template_id: self.template_id.clone(),
                    version: version.clone(),
                    locale: self.locale.clone(),
                },
            },
        }
    }

    /// Goes on with the look when the storage has answered.
    pub fn answered(self, found: Found) -> (res: Progress<RenderQuery, RenderResponse>)
        ensures
            res@ == render_answered(self@, found@),
    {
        let RenderQuery {
            template_id,
            version,
            requested_locale,
            locale,
            candidates,
            next,
            variables,
        } = self;
        match (version, found) {
            (None, Found::ActiveVersion(Some(version))) => Progress::Ask(
                RenderQuery {
                    template_id,
                    version: Some(version),
                    requested_locale,
                    locale,
                    candidates,
                    next,
                    variables,
                },
            ),
            (None, Found::ActiveVersion(None)) => plugin::refuse(TemplateFailure::NotFound),
            (Some(_), Found::Template(Some(record))) => Progress::Done(
                failure::into_plugin(deliver(record, requested_locale.as_str(), variables)),
            ),
            (Some(version), Found::Template(None)) => {
                if next < candidates.len() {
                    let locale = candidates[next].clone();
                    assert(text::texts(candidates@).skip(next as int).drop_first()
                        =~= text::texts(candidates@).skip(next + 1));
                    Progress::Ask(
                        RenderQuery {
                            template_id,
                            version: Some(version),
                            requested_locale,
                            locale,
                            candidates,
                            next: next + 1,
                            variables,
                        },
                    )
                } else {
                    plugin::refuse(TemplateFailure::NotFound)
                }
            },
            _ => plugin::fail(RuntimeFailure::Database),
        }
    }
}

impl NotificationTemplatePlugin {
    /// Begins to render a stored version for an allowed caller.
    pub fn render_value(&self, request: RenderRequest) -> (res: Progress<
        RenderQuery,
        RenderResponse,
    >)
        ensures
            res@ == render_begun(self.config@, self.prepared, request@),
    {
        let requested_locale = match locale::normalize_locale(request.locale.as_str()) {
            Some(locale) => locale,
            None => {
                return plugin::refuse(TemplateFailure::InvalidRequest);
            },
        };
        if !identifier::valid_identifier(request.template_id.as_str(), 160) {
            return plugin::refuse(TemplateFailure::InvalidRequest);
        }
        if let Some(version) = &request.version {
            if !identifier::valid_identifier(version.as_str(), 80) {
                return plugin::refuse(TemplateFailure::InvalidRequest);
            }
        }
        if let Err(failure) = self.require_prepared() {
            return plugin::fail(failure);
        }
        let candidates = locale::locale_candidates(
            requested_locale.as_str(),
            &self.config.fallback_locales,
        );
        proof {
            locale::law_candidate_order(requested_locale@, self.config@.fallback_locales);
            assert(text::texts(candidates@).drop_first() =~= text::texts(candidates@).skip(1));
        }
        let locale = candidates[0].clone();
        Progress::Ask(
            RenderQuery {
                template_id: request.template_id,
                version: request.version,
                requested_locale,
                locale,
                candidates,
                next: 1,
                variables: request.variables,
            },
        )
    }

    /// Begins to render a stored version for a caller.
    pub fn render(&self, call: &Call, request: RenderRequest) -> (res: Progress<
        RenderQuery,
        RenderResponse,
    >)
        ensures
            res@ == render_called(self.config@, self.prepared, call@, request@),
    {
        if !auth::caller_allowed(&call.caller, &self.config.render_callers) {
            return Progress::Done(Err(PluginError::Domain(DomainError::Unauthorized)));
        }
        self.render_value(request)
    }

    /// Renders sources that are not stored.
    pub fn preview_value(request: PreviewRequest) -> (res: Result<RenderResponse, TemplateFailure>)
        ensures
            match res {
                Ok(response) => previewed(request@) == Ok::<DeliveryView, TemplateFailure>(
                    response@,
                ),
                Err(reason) => previewed(request@) == Err::<DeliveryView, TemplateFailure>(reason),
            },
    {
        let locale = match locale::normalize_locale(request.locale.as_str()) {
            Some(locale) => locale,
            None => {
                return Err(TemplateFailure::InvalidRequest);
            },
        };
        if !identifier::valid_identifier(request.template_id.as_str(), 160)
            || !identifier::valid_identifier(request.version.as_str(), 80) {
            return Err(TemplateFailure::InvalidRequest);
        }
        let definition = TemplateDefinition {
            subject: request.subject_template,
            text: request.text_template,
            html: request.html_template,
        };
        let ghost variables = request.variables@;
        match render::render(&definition, request.variables) {
            Ok(message) => {
                proof {
                    render::lemma_message_of(message@, definition@, variables);
                }
                Ok(
                    records::rendered_value(
                        request.template_id.as_str(),
                        request.version.as_str(),
                        locale.as_str(),
                        locale.as_str(),
                        message,
                    ),
                )
            },
            Err(reason) => Err(failure::map_render_failure(reason)),
        }
    }

    /// Renders sources that are not stored for a caller.
    pub fn preview(&self, call: &Call, request: PreviewRequest) -> (res: Result<
        RenderResponse,
        PluginError,
    >)
        ensures
            match res {
                Ok(response) => preview_called(self.config@, call@, request@) == Ok::<
                    DeliveryView,
                    PluginError,
                >(response@),
                Err(error) => preview_called(self.config@, call@, request@) == Err::<
                    DeliveryView,
                    PluginError,
                >(error),
            },
            res is Ok ==> auth::bound_to(self.config@, call@, PREVIEW_OPERATION@),
    {
        match self.config.authorize_call(call, PREVIEW_OPERATION) {
            Ok(_) => failure::into_plugin(Ok(NotificationTemplatePlugin::preview_value(request))),
            Err(failure) => Err(plugin::unauthorized(failure)),
        }
    }
}

/// How many questions a look asks at most.
pub open spec fn questions_left(look: RenderQueryView) -> nat {
    if look.version is None {
        look.later.len() + 2
    } else {
        look.later.len() + 1
    }
}

/// A look comes to an end, whatever the storage answers.
pub proof fn law_render_ends(look: RenderQueryView, found: FoundView)
    ensures
        render_answered(look, found) matches Progress::Ask(next) ==> questions_left(next)
            < questions_left(look),
        found is Failed ==> (render_answered(look, found) matches Progress::Done(result)
            && result is Err),
{
}

} // verus!
