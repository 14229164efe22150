//! What the queries come to on the catalog that the storage keeps.
use vstd::prelude::*;

use crate::activate::ActivatePlanView;
use crate::auth;
use crate::auth::CallView;
use crate::catalog;
use crate::catalog::{Catalog, Command};
use crate::config::ConfigView;
use crate::create::CreatePlanView;
use crate::delivery;
use crate::delivery::RenderQueryView;
use crate::failure;
use crate::failure::{DomainError, PluginError, RuntimeFailure, TemplateFailure};
use crate::locale;
use crate::number;
use crate::plugin;
use crate::query;
use crate::query::{FoundView, QueryView};
use crate::records::{
    DeliveryView, ListRequestView, PageView, PreviewRequestView, RecordView, RenderRequestView,
};
use crate::render;
use crate::store::{Progress, ReleaseKeyView};

verus! {

/// What the storage finds under a version's key, with the head of its template.
pub open spec fn record_of(catalog: Catalog, key: ReleaseKeyView) -> RecordView {
    let release = catalog.releases[key];
    let active = catalog.heads.dom().contains(key.template_id);
    let head = catalog.heads[key.template_id];
    RecordView {
        template_id: key.template_id,
        version: key.version,
        locale: key.locale,
        revision: 1,
        subject_template: release.definition.subject,
        text_template: release.definition.text,
        html_template: release.definition.html,
        renderer_identity: release.renderer_identity,
        created_by: release.created_by,
        created_at: release.created_at,
        active_version: if active {
            Some(head.active_version)
        } else {
            None
        },
        head_revision: if active {
            Some(head.revision as int)
        } else {
            None
        },
    }
}

/// What the storage answers to a look at one version.
pub open spec fn found_template(catalog: Catalog, release: ReleaseKeyView) -> FoundView {
    FoundView::Template(
        if catalog.releases.dom().contains(release) {
            Some(record_of(catalog, release))
        } else {
            None
        },
    )
}

/// What the storage answers to the question for the active version.
pub open spec fn found_active(catalog: Catalog, template_id: Seq<char>) -> FoundView {
    FoundView::ActiveVersion(
        if catalog.heads.dom().contains(template_id) {
            Some(catalog.heads[template_id].active_version)
        } else {
            None
        },
    )
}

/// Carries the rendering of a message out, for at most `steps` questions.
pub open spec fn render_run(
    progress: Progress<RenderQueryView, DeliveryView>,
    catalog: Catalog,
    steps: nat,
) -> Result<DeliveryView, PluginError>
    decreases steps,
{
    match progress {
        Progress::Done(result) => result,
        Progress::Ask(look) => if steps == 0 {
            Err(PluginError::Runtime(RuntimeFailure::Database))
        } else {
            let found = match delivery::render_query(look) {
                QueryView::Template { release } => found_template(catalog, release),
                QueryView::ActiveVersion { template_id } => found_active(catalog, template_id),
                _ => FoundView::Failed,
            };
            render_run(delivery::render_answered(look, found), catalog, (steps - 1) as nat)
        },
    }
}

/// The key of the looked-for version in a locale.
pub open spec fn in_locale(look: RenderQueryView, locale: Seq<char>) -> ReleaseKeyView {
    ReleaseKeyView { template_id: look.template_id, version: look.version->0, locale }
}

/// The locales in which a version is looked for, in their order.
pub open spec fn lookup_order(look: RenderQueryView) -> Seq<Seq<char>> {
    seq![look.locale] + look.later
}

/// A version that is known is looked for in one locale after the other: the first in which it is
/// stored is the one that is rendered, and if there is none, the version is not found.
pub proof fn law_first_stored_locale_is_rendered(look: RenderQueryView, catalog: Catalog, n: int)
    requires
        look.version is Some,
        0 <= n <= lookup_order(look).len(),
        forall|i: int|
            0 <= i < n ==> !catalog.releases.dom().contains(
                in_locale(look, #[trigger] lookup_order(look)[i]),
            ),
        n < lookup_order(look).len() ==> catalog.releases.dom().contains(
            in_locale(look, lookup_order(look)[n]),
        ),
    ensures
        render_run(Progress::Ask(look), catalog, lookup_order(look).len()) == (if n
            < lookup_order(look).len() {
            failure::plugin_result(
                delivery::delivered(
                    record_of(catalog, in_locale(look, lookup_order(look)[n])),
                    look.requested_locale,
                    look.variables,
                ),
            )
        } else {
            Err(PluginError::Domain(DomainError::NotFound))
        }),
    decreases look.later.len(),
{
    let order = lookup_order(look);
    assert(order[0] == look.locale);
    reveal_with_fuel(render_run, 2);
    if n > 0 {
        assert(!catalog.releases.dom().contains(in_locale(look, order[0])));
        if look.later.len() > 0 {
            let next = RenderQueryView {
                locale: look.later.first(),
                later: look.later.drop_first(),
                ..look
            };
            assert(lookup_order(next) =~= look.later);
            assert forall|i: int| 0 <= i < n - 1 implies !catalog.releases.dom().contains(
                in_locale(next, #[trigger] lookup_order(next)[i]),
            ) by {
                assert(lookup_order(next)[i] == order[i + 1]);
            }
            if n < order.len() {
                assert(lookup_order(next)[n - 1] == order[n]);
            }
            law_first_stored_locale_is_rendered(next, catalog, n - 1);
        }
    }
}

/// What comes of a version in the first of some locales in which it is stored.
pub open spec fn rendered_from(
    catalog: Catalog,
    template_id: Seq<char>,
    version: Seq<char>,
    locales: Seq<Seq<char>>,
    requested_locale: Seq<char>,
    variables: Seq<(String, String)>,
) -> Result<DeliveryView, PluginError>
    decreases locales.len(),
{
    if locales.len() == 0 {
        Err(PluginError::Domain(DomainError::NotFound))
    } else {
        let release = ReleaseKeyView { template_id, version, locale: locales.first() };
        if catalog.releases.dom().contains(release) {
            failure::plugin_result(
                delivery::delivered(record_of(catalog, release), requested_locale, variables),
            )
        } else {
            rendered_from(
                catalog,
                template_id,
                version,
                locales.drop_first(),
                requested_locale,
                variables,
            )
        }
    }
}

proof fn lemma_render_runs(look: RenderQueryView, catalog: Catalog)
    requires
        look.version is Some,
    ensures
        render_run(Progress::Ask(look), catalog, delivery::questions_left(look)) == rendered_from(
            catalog,
            look.template_id,
            look.version->0,
            lookup_order(look),
            look.requested_locale,
            look.variables,
        ),
    decreases look.later.len(),
{
    reveal_with_fuel(render_run, 2);
    reveal_with_fuel(rendered_from, 2);
    let order = lookup_order(look);
    assert(order.first() == look.locale);
    assert(order.drop_first() =~= look.later);
    if look.later.len() > 0 {
        let next = RenderQueryView {
            locale: look.later.first(),
            later: look.later.drop_first(),
            ..look
        };
        lemma_render_runs(next, catalog);
        assert(lookup_order(next) =~= look.later);
    }
}

/// A call to render, carried out on a catalog: whoever is not allowed and whatever is not well
/// formed is refused; else the named version, or the active one if none is named, is rendered in
/// the first stored of the requested locale, its base language and the configured fallbacks.
pub proof fn law_render_call_comes_to_its_result(
    config: ConfigView,
    call: CallView,
    request: RenderRequestView,
    catalog: Catalog,
)
    ensures
        ({
            let locales = locale::candidates(
                locale::canonical_locale(request.locale)->0,
                config.fallback_locales,
            );
            let version = match request.version {
                Some(version) => Some(version),
                None => if catalog.heads.dom().contains(request.template_id) {
                    Some(catalog.heads[request.template_id].active_version)
                } else {
                    None
                },
            };
            render_run(
                delivery::render_called(config, true, call, request),
                catalog,
                if request.version is None {
                    locales.len() + 1
                } else {
                    locales.len()
                },
            ) == (if !auth::allowed(call.caller, config.render_callers) {
                Err(PluginError::Domain(DomainError::Unauthorized))
            } else if !delivery::well_formed(request) {
                Err(PluginError::Domain(DomainError::InvalidRequest))
            } else {
                match version {
                    Some(version) => rendered_from(
                        catalog,
                        request.template_id,
                        version,
                        locales,
                        locale::canonical_locale(request.locale)->0,
                        request.variables,
                    ),
                    None => Err(PluginError::Domain(DomainError::NotFound)),
                }
            })
        }),
{
    reveal_with_fuel(render_run, 2);
    if auth::allowed(call.caller, config.render_callers) && delivery::well_formed(request) {
        if let Progress::Ask(look) = delivery::render_begun(config, true, request) {
            law_render_looks_in_candidate_order(config, request, look);
            let locales = lookup_order(look);
            assert(locales.len() == look.later.len() + 1);
            if request.version is Some {
                lemma_render_runs(look, catalog);
            } else if catalog.heads.dom().contains(request.template_id) {
                let known = RenderQueryView {
                    version: Some(catalog.heads[request.template_id].active_version),
                    ..look
                };
                lemma_render_runs(known, catalog);
                assert(lookup_order(known) == locales);
            }
        }
    }
}

/// What was stored and then activated is what is rendered, in its locale, for whoever names no
/// version.
pub proof fn law_activated_release_is_rendered(
    catalog: Catalog,
    create_plan: CreatePlanView,
    created_at: int,
    activate_plan: ActivatePlanView,
    activated_at: int,
    locales: Seq<Seq<char>>,
    variables: Seq<(String, String)>,
    record: RecordView,
)
    requires
        catalog::create_result(catalog, create_plan, created_at) is Ok,
        !catalog.receipts.dom().contains(create_plan.receipt),
        ({
            let stored = catalog::create_after(catalog, create_plan, created_at);
            let active = catalog::activate_after(stored, activate_plan, activated_at);
            &&& catalog::activate_result(stored, activate_plan, activated_at) is Ok
            &&& !stored.receipts.dom().contains(activate_plan.receipt)
            &&& record == record_of(active, create_plan.release)
        }),
        activate_plan.template_id == create_plan.release.template_id,
        activate_plan.version == create_plan.release.version,
        locales.len() > 0,
        locales.first() == create_plan.release.locale,
    ensures
        ({
            let stored = catalog::create_after(catalog, create_plan, created_at);
            let active = catalog::activate_after(stored, activate_plan, activated_at);
            let template_id = create_plan.release.template_id;
            &&& active.heads.dom().contains(template_id)
            &&& active.heads[template_id].active_version == create_plan.release.version
            &&& record.definition() == create_plan.definition
            &&& rendered_from(
                active,
                template_id,
                active.heads[template_id].active_version,
                locales,
                locales.first(),
                variables,
            ) == failure::plugin_result(delivery::delivered(record, locales.first(), variables))
        }),
{
    assert(create_plan.release == ReleaseKeyView {
        template_id: create_plan.release.template_id,
        version: create_plan.release.version,
        locale: locales.first(),
    });
}

/// Once a version is stored in the requested locale, a message that names the version is rendered
/// the same, whatever commands are carried out.
pub proof fn law_exact_release_renders_the_same(
    look: RenderQueryView,
    catalog: Catalog,
    commands: Seq<(Command, int)>,
)
    requires
        look.version is Some,
        catalog.releases.dom().contains(in_locale(look, look.locale)),
    ensures
        render_run(
            Progress::Ask(look),
            catalog::after_all(catalog, commands),
            lookup_order(look).len(),
        ) == render_run(Progress::Ask(look), catalog, lookup_order(look).len()),
{
    catalog::law_commands_preserve(catalog, commands);
    assert(lookup_order(look)[0] == look.locale);
    law_first_stored_locale_is_rendered(look, catalog, 0);
    law_first_stored_locale_is_rendered(look, catalog::after_all(catalog, commands), 0);
}

/// A message is looked for in the requested locale, then in its base language, then in the
/// configured fallbacks.
pub proof fn law_render_looks_in_candidate_order(
    config: ConfigView,
    request: RenderRequestView,
    look: RenderQueryView,
)
    requires
        delivery::render_begun(config, true, request) == Progress::<
            RenderQueryView,
            DeliveryView,
        >::Ask(look),
    ensures
        locale::canonical_locale(request.locale) == Some(look.requested_locale),
        lookup_order(look) == locale::candidates(look.requested_locale, config.fallback_locales),
        look.locale == look.requested_locale,
{
    let candidates = locale::candidates(look.requested_locale, config.fallback_locales);
    locale::law_candidate_order(look.requested_locale, config.fallback_locales);
    assert(lookup_order(look) =~= candidates);
}

/// A rendered message says truly whether a fallback was used: one was if and only if the version
/// is not stored in the requested locale. The message is then in the first locale in which the
/// version is stored.
pub proof fn law_fallback_is_reported(
    config: ConfigView,
    request: RenderRequestView,
    look: RenderQueryView,
    catalog: Catalog,
    message: DeliveryView,
)
    requires
        delivery::render_begun(config, true, request) == Progress::<
            RenderQueryView,
            DeliveryView,
        >::Ask(look),
        look.version is Some,
        render_run(Progress::Ask(look), catalog, lookup_order(look).len()) == Ok::<
            DeliveryView,
            PluginError,
        >(message),
    ensures
        message.requested_locale == look.requested_locale,
        message.fallback_used == !catalog.releases.dom().contains(
            in_locale(look, look.requested_locale),
        ),
        catalog.releases.dom().contains(in_locale(look, message.resolved_locale)),
        message.template_id == request.template_id,
        Some(message.version) == request.version,
        message.template_digest == render::definition_digest(
            catalog.releases[in_locale(look, message.resolved_locale)].definition,
        ),
{
    let order = lookup_order(look);
    law_render_looks_in_candidate_order(config, request, look);
    locale::law_candidate_order(look.requested_locale, config.fallback_locales);
    let n = lemma_first_stored(look, catalog, 0);
    law_first_stored_locale_is_rendered(look, catalog, n);
    assert(n < order.len());
    let record = record_of(catalog, in_locale(look, order[n]));
    assert(record.definition() == catalog.releases[in_locale(look, order[n])].definition);
    if n > 0 {
        assert(order[n] != order[0]);
        assert(!catalog.releases.dom().contains(in_locale(look, order[0])));
    }
}

/// The place of the first locale from `from` on in which the version is stored, or the end.
proof fn lemma_first_stored(look: RenderQueryView, catalog: Catalog, from: int) -> (n: int)
    requires
        0 <= from <= lookup_order(look).len(),
        forall|i: int|
            0 <= i < from ==> !catalog.releases.dom().contains(
                in_locale(look, #[trigger] lookup_order(look)[i]),
            ),
    ensures
        0 <= n <= lookup_order(look).len(),
        forall|i: int|
            0 <= i < n ==> !catalog.releases.dom().contains(
                in_locale(look, #[trigger] lookup_order(look)[i]),
            ),
        n < lookup_order(look).len() ==> catalog.releases.dom().contains(
            in_locale(look, lookup_order(look)[n]),
        ),
    decreases lookup_order(look).len() - from,
{
    if from == lookup_order(look).len() || catalog.releases.dom().contains(
        in_locale(look, lookup_order(look)[from]),
    ) {
        from
    } else {
        lemma_first_stored(look, catalog, from + 1)
    }
}

/// A preview shows what will be rendered once its sources are stored.
pub proof fn law_preview_shows_the_stored_message(
    request: PreviewRequestView,
    record: RecordView,
    message: DeliveryView,
)
    requires
        record.definition() == request.definition(),
        record.template_id == request.template_id,
        record.version == request.version,
        locale::canonical_locale(request.locale) == Some(record.locale),
        delivery::previewed(request) == Ok::<DeliveryView, TemplateFailure>(message),
    ensures
        delivery::delivered(record, record.locale, request.variables) == Ok::<
            Result<DeliveryView, TemplateFailure>,
            RuntimeFailure,
        >(Ok(message)),
{
}

/// A version that was stored is shown to administrators as it was asked for, whatever commands are
/// carried out since.
pub proof fn law_created_version_is_read_back(
    catalog: Catalog,
    plan: CreatePlanView,
    now: int,
    commands: Seq<(Command, int)>,
)
    requires
        catalog::create_result(catalog, plan, now) is Ok,
        !catalog.receipts.dom().contains(plan.receipt),
        render::valid_definition(plan.definition),
        plan.required_variables == render::required_names(plan.definition),
    ensures
        ({
            let later = catalog::after_all(catalog::create_after(catalog, plan, now), commands);
            let response = catalog::create_result(catalog, plan, now)->Ok_0;
            match query::get_answered(found_template(later, plan.release)) {
                Progress::Done(Ok(version)) => {
                    &&& version.template_id == response.template_id
                    &&& version.version == response.version
                    &&& version.locale == response.locale
                    &&& version.revision == response.revision
                    &&& version.required_variables == response.required_variables
                    &&& version.renderer_identity == response.renderer_identity
                    &&& version.template_digest == response.template_digest
                    &&& version.created_at == response.created_at
                    &&& version.created_by == plan.receipt.subject
                    &&& version.subject_template == plan.definition.subject
                    &&& version.text_template == plan.definition.text
                    &&& version.html_template == plan.definition.html
                    &&& version.active == (later.heads.dom().contains(plan.release.template_id)
                        && later.heads[plan.release.template_id].active_version
                        == plan.release.version)
                },
                _ => false,
            }
        }),
{
    let stored = catalog::create_after(catalog, plan, now);
    catalog::law_commands_preserve(stored, commands);
    assert(stored.releases.dom().contains(plan.release));
    number::lemma_one();
}

/// The smaller of two numbers.
pub open spec fn least(a: int, b: int) -> int {
    if a < b {
        a
    } else {
        b
    }
}

/// At most `limit` entries of a list, after the first `offset`.
pub open spec fn page_of(list: Seq<RecordView>, limit: int, offset: int) -> Seq<RecordView> {
    let from = least(offset, list.len() as int);
    let to = least(offset + limit, list.len() as int);
    list.subrange(from, to)
}

/// What a storage answers that keeps the asked-for versions in the order of a list.
pub open spec fn found_list(list: Seq<RecordView>, question: QueryView) -> FoundView {
    match question {
        QueryView::Count { .. } => FoundView::Count(list.len() as int),
        QueryView::Templates { limit, offset, .. } => FoundView::Templates(
            page_of(list, limit, offset),
        ),
        _ => FoundView::Failed,
    }
}

/// A request for a page is answered with that page and the length of the whole list, or with the
/// fault of a record that the plugin did not store.
pub proof fn law_list_comes_to_a_page(request: ListRequestView, list: Seq<RecordView>)
    requires
        query::page_request(request),
    ensures
        ({
            let page = page_of(list, request.count, request.start_index - 1);
            match query::list_begun(true, request) {
                Progress::Ask(first) => match query::list_answered(
                    first,
                    found_list(list, query::list_query(first)),
                ) {
                    Progress::Ask(second) => query::list_answered(
                        second,
                        found_list(list, query::list_query(second)),
                    ) == (match query::values(page) {
                        Ok(resources) => Progress::<query::ListQueryView, PageView>::Done(
                            Ok(
                                PageView {
                                    resources,
                                    total_results: list.len() as int,
                                    start_index: request.start_index,
                                    items_per_page: page.len() as int,
                                },
                            ),
                        ),
                        Err(failure) => plugin::failed(failure),
                    }),
                    Progress::Done(_) => false,
                },
                Progress::Done(_) => false,
            }
        }),
        page_of(list, request.count, request.start_index - 1).len() <= query::MAX_COUNT,
{
}

/// Pages that follow one another hold every entry once, in order.
pub proof fn law_pages_are_adjacent(list: Seq<RecordView>, limit: int, offset: int, next: int)
    requires
        0 <= limit,
        0 <= next,
        0 <= offset,
    ensures
        page_of(list, limit, offset) + page_of(list, next, offset + limit) == page_of(
            list,
            limit + next,
            offset,
        ),
        page_of(list, list.len() as int, 0) == list,
{
    assert(page_of(list, limit, offset) + page_of(list, next, offset + limit) =~= page_of(
        list,
        limit + next,
        offset,
    ));
    assert(page_of(list, list.len() as int, 0) =~= list);
}

} // verus!
