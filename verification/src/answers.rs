//! What callers are answered who look at stored versions or have them rendered, told by their
//! requests.
use vstd::prelude::*;

use crate::auth;
use crate::auth::{AdminView, AuthorizationFailure, CallView};
use crate::catalog::Catalog;
use crate::config::ConfigView;
use crate::delivery;
use crate::failure::{DomainError, PluginError, RuntimeFailure};
use crate::grammar;
use crate::identifier;
use crate::locale;
use crate::lookup;
use crate::names;
use crate::number;
use crate::outside;
use crate::query;
use crate::query::{FoundView, QueryView};
use crate::records::{
    DeliveryView, GetRequestView, ListRequestView, PageView, PreviewRequestView, RecordView,
    RenderRequestView, VersionView,
};
use crate::render;
use crate::render::DefinitionView;
use crate::store::{Progress, ReleaseKeyView};
use crate::syntax::RenderFailure;

verus! {

/// The refusal that a caller is told.
pub open spec fn told<T>(error: DomainError) -> Result<T, PluginError> {
    Err(PluginError::Domain(error))
}

/// The fault that a caller is told.
pub open spec fn fault<T>(reason: RuntimeFailure) -> Result<T, PluginError> {
    Err(PluginError::Runtime(reason))
}

/// The sources of a record.
pub open spec fn sources(record: RecordView) -> DefinitionView {
    DefinitionView {
        subject: record.subject_template,
        text: record.text_template,
        html: record.html_template,
    }
}

/// What an administrator sees of a record is what the record holds, with the names and the digest
/// of its sources; the version is active if it is the one that the head selects.
pub proof fn law_record_is_shown_as_it_is(record: RecordView)
    requires
        render::valid_definition(sources(record)),
        record.renderer_identity == "lenso.notification-template.renderer/safe-sections@1"@,
        record.revision == 1,
        outside::four_digit_year(record.created_at),
    ensures
        record.value() is Ok,
        ({
            let version = record.value()->Ok_0;
            &&& version.template_id == record.template_id
            &&& version.version == record.version
            &&& version.locale == record.locale
            &&& version.revision == seq!['1']
            &&& version.subject_template == record.subject_template
            &&& version.text_template == record.text_template
            &&& version.html_template == record.html_template
            &&& version.required_variables == render::required_names(sources(record))
            &&& version.renderer_identity == record.renderer_identity
            &&& version.template_digest == render::digest_text(
                seq![record.subject_template, record.text_template, record.html_template],
            )
            &&& version.created_by == record.created_by
            &&& version.created_at == outside::rfc3339_text(record.created_at)
            &&& version.active <==> record.active_version == Some(record.version)
            &&& record.head_revision is None ==> version.head_revision is None
            &&& record.head_revision matches Some(revision) ==> version.head_revision == Some(
                number::integer_text(revision),
            )
        }),
{
    number::lemma_one();
    reveal_strlit("1");
    assert("1"@ =~= seq!['1']);
}

/// A record that the plugin does not store is a fault: of its sources first, then of its renderer
/// or its revision, then of the moment of its creation.
pub proof fn law_foreign_record_is_a_fault(record: RecordView)
    ensures
        ({
            let valid = render::valid_definition(sources(record));
            let known = record.renderer_identity
                == "lenso.notification-template.renderer/safe-sections@1"@ && record.revision == 1;
            &&& !valid ==> record.value() == Err::<VersionView, RuntimeFailure>(
                RuntimeFailure::InvalidStoredDefinition,
            )
            &&& valid && !known ==> record.value() == Err::<VersionView, RuntimeFailure>(
                RuntimeFailure::InvalidStoredMetadata,
            )
            &&& valid && known && !outside::four_digit_year(record.created_at) ==> record.value()
                == Err::<VersionView, RuntimeFailure>(RuntimeFailure::InvalidTimestamp)
        }),
{
}

/// What a look at one version comes to on a catalog.
pub open spec fn get_outcome(
    config: ConfigView,
    call: CallView,
    request: GetRequestView,
    catalog: Catalog,
) -> Result<VersionView, PluginError> {
    match query::get_called(config, true, call, request) {
        Progress::Done(result) => result,
        Progress::Ask(look) => match query::get_answered(
            lookup::found_template(catalog, look.release),
        ) {
            Progress::Done(result) => result,
            Progress::Ask(_) => fault(RuntimeFailure::Database),
        },
    }
}

/// The request names a template, a version and a locale.
pub open spec fn names_a_release(
    template_id: Seq<char>,
    version: Seq<char>,
    locale: Seq<char>,
) -> bool {
    &&& identifier::identifier(template_id, 160)
    &&& identifier::identifier(version, 80)
    &&& locale::canonical_locale(locale) is Some
}

/// An administrator who asks for a stored version sees its template, version and locale as they
/// were asked for, and its sources as they are stored.
pub proof fn law_stored_version_is_shown(
    config: ConfigView,
    call: CallView,
    request: GetRequestView,
    catalog: Catalog,
    key: ReleaseKeyView,
)
    requires
        auth::administrator(config, call, "get_version"@) is Ok,
        names_a_release(request.template_id, request.version, request.locale),
        key.template_id == request.template_id,
        key.version == request.version,
        locale::canonical_locale(request.locale) == Some(key.locale),
        catalog.releases.dom().contains(key),
        render::valid_definition(catalog.releases[key].definition),
        catalog.releases[key].renderer_identity
            == "lenso.notification-template.renderer/safe-sections@1"@,
        outside::four_digit_year(catalog.releases[key].created_at),
    ensures
        get_outcome(config, call, request, catalog) is Ok,
        ({
            let version = get_outcome(config, call, request, catalog)->Ok_0;
            let release = catalog.releases[key];
            let headed = catalog.heads.dom().contains(request.template_id);
            let head = catalog.heads[request.template_id];
            &&& version.template_id == request.template_id
            &&& version.version == request.version
            &&& version.locale == key.locale
            &&& version.subject_template == release.definition.subject
            &&& version.text_template == release.definition.text
            &&& version.html_template == release.definition.html
            &&& version.created_by == release.created_by
            &&& version.created_at == outside::rfc3339_text(release.created_at)
            &&& version.template_digest == render::digest_text(
                seq![
                    release.definition.subject,
                    release.definition.text,
                    release.definition.html,
                ],
            )
            &&& version.active <==> headed && head.active_version == request.version
            &&& version.head_revision == if headed {
                Some(number::integer_text(head.revision as int))
            } else {
                None
            }
        }),
{
    let record = lookup::record_of(catalog, key);
    assert(sources(record) == catalog.releases[key].definition);
    law_record_is_shown_as_it_is(record);
}

/// Whoever is not an administrator for looking is told so; a request that names no version is
/// invalid; a version that is not stored is not found.
pub proof fn law_look_is_refused(
    config: ConfigView,
    call: CallView,
    request: GetRequestView,
    catalog: Catalog,
)
    ensures
        auth::administrator(config, call, "get_version"@) == Err::<AdminView, AuthorizationFailure>(
            AuthorizationFailure::Unauthorized,
        ) ==> get_outcome(config, call, request, catalog) == told::<VersionView>(
            DomainError::Unauthorized,
        ),
        auth::administrator(config, call, "get_version"@) matches Err(
            AuthorizationFailure::Runtime(reason),
        ) ==> get_outcome(config, call, request, catalog) == fault::<VersionView>(reason),
        auth::administrator(config, call, "get_version"@) is Ok ==> {
            &&& !names_a_release(request.template_id, request.version, request.locale)
                ==> get_outcome(config, call, request, catalog) == told::<VersionView>(
                DomainError::InvalidRequest,
            )
            &&& names_a_release(request.template_id, request.version, request.locale)
                && !catalog.releases.dom().contains(
                ReleaseKeyView {
                    template_id: request.template_id,
                    version: request.version,
                    locale: locale::canonical_locale(request.locale)->0,
                },
            ) ==> get_outcome(config, call, request, catalog) == told::<VersionView>(
                DomainError::NotFound,
            )
            &&& names_a_release(request.template_id, request.version, request.locale)
                ==> query::get_called(config, false, call, request) == Progress::<
                query::GetQueryView,
                VersionView,
            >::Done(fault(RuntimeFailure::NotPrepared))
        },
{
}

/// A stored version that is a fault is told as that fault, whoever asks for it as an administrator.
pub proof fn law_faulty_version_is_a_fault(
    config: ConfigView,
    call: CallView,
    request: GetRequestView,
    catalog: Catalog,
    key: ReleaseKeyView,
)
    requires
        auth::administrator(config, call, "get_version"@) is Ok,
        names_a_release(request.template_id, request.version, request.locale),
        key.template_id == request.template_id,
        key.version == request.version,
        locale::canonical_locale(request.locale) == Some(key.locale),
        catalog.releases.dom().contains(key),
    ensures
        lookup::record_of(catalog, key).value() matches Err(reason) ==> get_outcome(
            config,
            call,
            request,
            catalog,
        ) == fault::<VersionView>(reason),
{
}

/// What is shown of a record is shown under the moment that it is given in words, and a moment that
/// could not be written is told as the fault that it was.
pub proof fn law_moment_of_a_record(
    record: RecordView,
    created_at: Seq<char>,
    reason: RuntimeFailure,
)
    requires
        render::valid_definition(sources(record)),
        record.renderer_identity == "lenso.notification-template.renderer/safe-sections@1"@,
        record.revision == 1,
    ensures
        record.value_at(Ok(created_at)) is Ok,
        record.value_at(Ok(created_at))->Ok_0.created_at == created_at,
        record.value_at(Err(reason)) == Err::<VersionView, RuntimeFailure>(reason),
{
}

/// The records that belong to a template; all, if none is named.
pub open spec fn of_template(all: Seq<RecordView>, template_id: Option<Seq<char>>) -> Seq<
    RecordView,
>
    decreases all.len(),
{
    if all.len() == 0 {
        Seq::empty()
    } else {
        let before = of_template(all.drop_last(), template_id);
        if template_id is None || all.last().template_id == template_id->0 {
            before.push(all.last())
        } else {
            before
        }
    }
}

/// What a storage that keeps these records answers: it counts and lists those of the template that
/// the question names.
pub open spec fn found_among(all: Seq<RecordView>, question: QueryView) -> FoundView {
    match question {
        QueryView::Count { template_id } => FoundView::Count(
            of_template(all, template_id).len() as int,
        ),
        QueryView::Templates { template_id, limit, offset } => FoundView::Templates(
            lookup::page_of(of_template(all, template_id), limit, offset),
        ),
        _ => FoundView::Failed,
    }
}

/// Carries a look at a page out on a storage that keeps these records.
pub open spec fn list_outcome(
    config: ConfigView,
    call: CallView,
    request: ListRequestView,
    all: Seq<RecordView>,
) -> Result<PageView, PluginError> {
    match query::list_called(config, true, call, request) {
        Progress::Done(result) => result,
        Progress::Ask(first) => match query::list_answered(
            first,
            found_among(all, query::list_query(first)),
        ) {
            Progress::Done(result) => result,
            Progress::Ask(second) => match query::list_answered(
                second,
                found_among(all, query::list_query(second)),
            ) {
                Progress::Done(result) => result,
                Progress::Ask(_) => fault(RuntimeFailure::Database),
            },
        },
    }
}

/// The request asks for at most 200 versions from a place in the list on, of a template that can be
/// named or of all.
pub open spec fn asks_for_a_page(request: ListRequestView) -> bool {
    &&& request.start_index >= 1
    &&& 0 <= request.count <= 200
    &&& request.template_id is Some ==> identifier::identifier(request.template_id->0, 160)
}

/// What is shown of some records: each in its place, unless one of them is a fault.
pub proof fn law_records_are_shown_in_order(list: Seq<RecordView>)
    ensures
        query::values(list) matches Ok(versions) ==> {
            &&& versions.len() == list.len()
            &&& forall|i: int|
                0 <= i < list.len() ==> (#[trigger] list[i]).value() == Ok::<
                    VersionView,
                    RuntimeFailure,
                >(versions[i])
        },
        (forall|i: int| 0 <= i < list.len() ==> (#[trigger] list[i]).value() is Ok)
            ==> query::values(list) is Ok,
    decreases list.len(),
{
    if list.len() > 0 {
        let shorter = list.drop_last();
        law_records_are_shown_in_order(shorter);
        if query::values(list) is Ok {
            let versions = query::values(list)->Ok_0;
            assert forall|i: int| 0 <= i < list.len() implies (#[trigger] list[i]).value() == Ok::<
                VersionView,
                RuntimeFailure,
            >(versions[i]) by {
                if i < shorter.len() {
                    assert(shorter[i] == list[i]);
                }
            }
        }
        if forall|i: int| 0 <= i < list.len() ==> (#[trigger] list[i]).value() is Ok {
            assert forall|i: int| 0 <= i < shorter.len() implies (
            #[trigger] shorter[i]).value() is Ok by {
                assert(shorter[i] == list[i]);
            }
            assert(list[list.len() - 1].value() is Ok);
        }
    }
}

/// The first record that is a fault is the fault of the list.
pub proof fn law_first_fault_is_told(list: Seq<RecordView>, n: int)
    requires
        0 <= n < list.len(),
        list[n].value() is Err,
        forall|i: int| 0 <= i < n ==> (#[trigger] list[i]).value() is Ok,
    ensures
        query::values(list) == Err::<Seq<VersionView>, RuntimeFailure>(list[n].value()->Err_0),
    decreases list.len(),
{
    let shorter = list.drop_last();
    if n < shorter.len() {
        assert forall|i: int| 0 <= i < n implies (#[trigger] shorter[i]).value() is Ok by {
            assert(shorter[i] == list[i]);
        }
        assert(shorter[n] == list[n]);
        law_first_fault_is_told(shorter, n);
    } else {
        assert forall|i: int| 0 <= i < shorter.len() implies (
        #[trigger] shorter[i]).value() is Ok by {
            assert(shorter[i] == list[i]);
        }
        law_records_are_shown_in_order(shorter);
    }
}

/// The records of a template are records, and all of them are of the template.
pub proof fn law_records_of_a_template(all: Seq<RecordView>, template_id: Option<Seq<char>>)
    ensures
        of_template(all, template_id).len() <= all.len(),
        forall|i: int|
            0 <= i < of_template(all, template_id).len() ==> {
                &&& all.contains(#[trigger] of_template(all, template_id)[i])
                &&& template_id matches Some(id) ==> of_template(all, template_id)[i].template_id
                    == id
            },
        template_id is None ==> of_template(all, template_id) == all,
    decreases all.len(),
{
    if all.len() > 0 {
        let shorter = all.drop_last();
        law_records_of_a_template(shorter, template_id);
        let kept = of_template(all, template_id);
        let before = of_template(shorter, template_id);
        assert forall|i: int| 0 <= i < kept.len() implies {
            &&& all.contains(#[trigger] kept[i])
            &&& template_id matches Some(id) ==> kept[i].template_id == id
        } by {
            if i < before.len() {
                assert(kept[i] == before[i]);
                assert(shorter.contains(before[i]));
                let k = choose|k: int| 0 <= k < shorter.len() && shorter[k] == before[i];
                assert(all[k] == kept[i]);
            } else {
                assert(all[all.len() - 1] == kept[i]);
            }
        }
        if template_id is None {
            assert(kept =~= all);
        }
    }
}

/// A look at a page comes to what is shown of the records on the page.
proof fn lemma_list_runs(
    config: ConfigView,
    call: CallView,
    request: ListRequestView,
    all: Seq<RecordView>,
)
    requires
        auth::administrator(config, call, "list_versions"@) is Ok,
        asks_for_a_page(request),
    ensures
        ({
            let list = of_template(all, request.template_id);
            let shown = lookup::page_of(list, request.count, request.start_index - 1);
            list_outcome(config, call, request, all) == (match query::values(shown) {
                Ok(resources) => Ok(
                    PageView {
                        resources,
                        total_results: list.len() as int,
                        start_index: request.start_index,
                        items_per_page: shown.len() as int,
                    },
                ),
                Err(reason) => fault(reason),
            })
        }),
{
}

/// An administrator who asks for a page is told how many versions are stored of the very template
/// that they name, and sees those of that template that stand on the page, each as its record is
/// shown.
pub proof fn law_page_is_of_the_template(
    config: ConfigView,
    call: CallView,
    request: ListRequestView,
    all: Seq<RecordView>,
)
    requires
        auth::administrator(config, call, "list_versions"@) is Ok,
        asks_for_a_page(request),
        forall|i: int| 0 <= i < all.len() ==> (#[trigger] all[i]).value() is Ok,
    ensures
        list_outcome(config, call, request, all) is Ok,
        ({
            let page = list_outcome(config, call, request, all)->Ok_0;
            let list = of_template(all, request.template_id);
            let first = request.start_index - 1;
            let left = list.len() - first;
            &&& page.total_results == list.len()
            &&& page.start_index == request.start_index
            &&& page.items_per_page == page.resources.len()
            &&& page.resources.len() == if left <= 0 {
                0
            } else if left < request.count {
                left
            } else {
                request.count
            }
            &&& forall|i: int|
                0 <= i < page.resources.len() ==> list[first + i].value() == Ok::<
                    VersionView,
                    RuntimeFailure,
                >(#[trigger] page.resources[i])
        }),
{
    let list = of_template(all, request.template_id);
    let first = request.start_index - 1;
    let shown = lookup::page_of(list, request.count, first);
    lemma_list_runs(config, call, request, all);
    assert forall|i: int| 0 <= i < shown.len() implies shown[i] == #[trigger] list[first + i] by {}
    assert forall|i: int| 0 <= i < shown.len() implies (#[trigger] shown[i]).value() is Ok by {
        lemma_record_of_a_template(all, request.template_id, first + i);
    }
    law_records_are_shown_in_order(shown);
    let page = list_outcome(config, call, request, all)->Ok_0;
    assert forall|i: int| 0 <= i < page.resources.len() implies list[first + i].value() == Ok::<
        VersionView,
        RuntimeFailure,
    >(#[trigger] page.resources[i]) by {
        assert(shown[i].value() == Ok::<VersionView, RuntimeFailure>(page.resources[i]));
    }
}

proof fn lemma_record_of_a_template(
    all: Seq<RecordView>,
    template_id: Option<Seq<char>>,
    i: int,
)
    requires
        0 <= i < of_template(all, template_id).len(),
        forall|k: int| 0 <= k < all.len() ==> (#[trigger] all[k]).value() is Ok,
    ensures
        of_template(all, template_id)[i].value() is Ok,
{
    law_records_of_a_template(all, template_id);
    let record = of_template(all, template_id)[i];
    assert(all.contains(record));
    let k = choose|k: int| 0 <= k < all.len() && all[k] == record;
    assert(all[k].value() is Ok);
}

/// A page on which a record is a fault is told as the fault of the first such record.
pub proof fn law_faulty_page_is_a_fault(
    config: ConfigView,
    call: CallView,
    request: ListRequestView,
    all: Seq<RecordView>,
    n: int,
)
    requires
        auth::administrator(config, call, "list_versions"@) is Ok,
        asks_for_a_page(request),
        request.start_index - 1 <= n < request.start_index - 1 + request.count,
        n < of_template(all, request.template_id).len(),
        of_template(all, request.template_id)[n].value() is Err,
        forall|i: int|
            request.start_index - 1 <= i < n ==> (#[trigger] of_template(
                all,
                request.template_id,
            )[i]).value() is Ok,
    ensures
        list_outcome(config, call, request, all) == fault::<PageView>(
            of_template(all, request.template_id)[n].value()->Err_0,
        ),
{
    let list = of_template(all, request.template_id);
    let first = request.start_index - 1;
    let shown = lookup::page_of(list, request.count, first);
    lemma_list_runs(config, call, request, all);
    assert forall|i: int| 0 <= i < n - first implies (#[trigger] shown[i]).value() is Ok by {
        assert(shown[i] == list[first + i]);
    }
    assert(shown[n - first] == list[n]);
    law_first_fault_is_told(shown, n - first);
}

/// A list asks first how many versions there are of the template that the request names, and then
/// for those that stand on the page.
pub proof fn law_list_asks_for_the_template(request: ListRequestView, total: int)
    requires
        asks_for_a_page(request),
    ensures
        ({
            let first = query::list_begun(true, request);
            &&& first is Ask
            &&& query::list_query(first->Ask_0) == (QueryView::Count {
                template_id: request.template_id,
            })
            &&& query::list_answered(first->Ask_0, FoundView::Count(total)) is Ask
            &&& query::list_query(
                query::list_answered(first->Ask_0, FoundView::Count(total))->Ask_0,
            ) == (QueryView::Templates {
                template_id: request.template_id,
                limit: request.count,
                offset: request.start_index - 1,
            })
        }),
{
}

/// Whoever is not an administrator for listing is told so, and a request for no page is invalid.
pub proof fn law_list_is_refused(
    config: ConfigView,
    call: CallView,
    request: ListRequestView,
    all: Seq<RecordView>,
)
    ensures
        auth::administrator(config, call, "list_versions"@) == Err::<
            AdminView,
            AuthorizationFailure,
        >(AuthorizationFailure::Unauthorized) ==> list_outcome(config, call, request, all) == told::<
            PageView,
        >(DomainError::Unauthorized),
        auth::administrator(config, call, "list_versions"@) matches Err(
            AuthorizationFailure::Runtime(reason),
        ) ==> list_outcome(config, call, request, all) == fault::<PageView>(reason),
        auth::administrator(config, call, "list_versions"@) is Ok ==> {
            &&& !asks_for_a_page(request) ==> list_outcome(config, call, request, all) == told::<
                PageView,
            >(DomainError::InvalidRequest)
            &&& asks_for_a_page(request) ==> query::list_called(config, false, call, request)
                == Progress::<query::ListQueryView, PageView>::Done(
                fault(RuntimeFailure::NotPrepared),
            )
        },
{
}

/// A storage that fails, or answers something else than it was asked, is a fault of the storage.
pub proof fn law_wrong_findings_are_faults(look: query::ListQueryView, found: FoundView)
    ensures
        !(found is Template) ==> query::get_answered(found) == Progress::<
            query::GetQueryView,
            VersionView,
        >::Done(fault(RuntimeFailure::Database)),
        look.total is None && !(found is Count) ==> query::list_answered(look, found) == Progress::<
            query::ListQueryView,
            PageView,
        >::Done(fault(RuntimeFailure::Database)),
        look.total is Some && !(found is Templates) ==> query::list_answered(look, found)
            == Progress::<query::ListQueryView, PageView>::Done(fault(RuntimeFailure::Database)),
{
}

/// The message that sources come to with some variables.
pub open spec fn is_rendering(
    message: DeliveryView,
    definition: DefinitionView,
    variables: Seq<(String, String)>,
) -> bool {
    let values = names::pairs_map(variables);
    &&& message.subject == render::rendered(grammar::tree(definition.subject)->0, values, false)
    &&& message.text == render::rendered(grammar::tree(definition.text)->0, values, false)
    &&& message.html == render::rendered(grammar::tree(definition.html)->0, values, true)
    &&& message.template_digest == render::digest_text(
        seq![definition.subject, definition.text, definition.html],
    )
    &&& message.content_digest == render::digest_text(
        seq![message.subject, message.text, message.html],
    )
    &&& message.renderer_identity == "lenso.notification-template.renderer/safe-sections@1"@
}

/// The request names a template and a locale, and if it names a version, one that can be.
pub open spec fn names_a_template(request: RenderRequestView) -> bool {
    &&& locale::canonical_locale(request.locale) is Some
    &&& identifier::identifier(request.template_id, 160)
    &&& request.version is Some ==> identifier::identifier(request.version->0, 80)
}

/// The version that is to be rendered: the one that the request names, or else the active one.
pub open spec fn wanted_version(request: RenderRequestView, catalog: Catalog) -> Option<Seq<char>> {
    if request.version is Some {
        request.version
    } else if catalog.heads.dom().contains(request.template_id) {
        Some(catalog.heads[request.template_id].active_version)
    } else {
        None
    }
}

/// The locales in which it is looked for.
pub open spec fn wanted_locales(config: ConfigView, request: RenderRequestView) -> Seq<Seq<char>> {
    locale::candidates(locale::canonical_locale(request.locale)->0, config.fallback_locales)
}

/// What a call to render comes to on a catalog.
pub open spec fn render_outcome(
    config: ConfigView,
    call: CallView,
    request: RenderRequestView,
    catalog: Catalog,
) -> Result<DeliveryView, PluginError> {
    let locales = wanted_locales(config, request);
    lookup::render_run(
        delivery::render_called(config, true, call, request),
        catalog,
        if request.version is None {
            locales.len() + 1
        } else {
            locales.len()
        },
    )
}

/// The caller is one of those who may render.
pub open spec fn may_render(config: ConfigView, call: CallView) -> bool {
    call.caller is Some && config.render_callers.contains(call.caller->0)
}

proof fn lemma_rendered_from(
    catalog: Catalog,
    template_id: Seq<char>,
    version: Seq<char>,
    locales: Seq<Seq<char>>,
    n: int,
    requested_locale: Seq<char>,
    variables: Seq<(String, String)>,
)
    requires
        0 <= n <= locales.len(),
        forall|i: int|
            0 <= i < n ==> !catalog.releases.dom().contains(
                (ReleaseKeyView { template_id, version, locale: #[trigger] locales[i] }),
            ),
        n < locales.len() ==> catalog.releases.dom().contains(
            (ReleaseKeyView { template_id, version, locale: locales[n] }),
        ),
    ensures
        lookup::rendered_from(
            catalog,
            template_id,
            version,
            locales,
            requested_locale,
            variables,
        ) == (if n < locales.len() {
            crate::failure::plugin_result(
                delivery::delivered(
                    lookup::record_of(
                        catalog,
                        ReleaseKeyView { template_id, version, locale: locales[n] },
                    ),
                    requested_locale,
                    variables,
                ),
            )
        } else {
            Err(PluginError::Domain(DomainError::NotFound))
        }),
    decreases locales.len(),
{
    reveal_with_fuel(lookup::rendered_from, 2);
    if n > 0 {
        assert(!catalog.releases.dom().contains(
            ReleaseKeyView { template_id, version, locale: locales[0] },
        ));
        let rest = locales.drop_first();
        assert forall|i: int| 0 <= i < n - 1 implies !catalog.releases.dom().contains(
            (ReleaseKeyView { template_id, version, locale: #[trigger] rest[i] }),
        ) by {
            assert(rest[i] == locales[i + 1]);
        }
        lemma_rendered_from(
            catalog,
            template_id,
            version,
            rest,
            n - 1,
            requested_locale,
            variables,
        );
    }
}

/// A caller who may render gets the wanted version in the first of the wanted locales in which it
/// is stored: the stored sources, rendered with the variables of the request, under the names of
/// the template and the version, with the locale that was asked for and the one that was found.
pub proof fn law_wanted_version_is_rendered(
    config: ConfigView,
    call: CallView,
    request: RenderRequestView,
    catalog: Catalog,
    version: Seq<char>,
    n: int,
)
    requires
        may_render(config, call),
        names_a_template(request),
        wanted_version(request, catalog) == Some(version),
        0 <= n < wanted_locales(config, request).len(),
        forall|i: int|
            0 <= i < n ==> !catalog.releases.dom().contains(
                (ReleaseKeyView {
                    template_id: request.template_id,
                    version,
                    locale: #[trigger] wanted_locales(config, request)[i],
                }),
            ),
        catalog.releases.dom().contains(
            (ReleaseKeyView {
                template_id: request.template_id,
                version,
                locale: wanted_locales(config, request)[n],
            }),
        ),
    ensures
        ({
            let result = render_outcome(config, call, request, catalog);
            let found = wanted_locales(config, request)[n];
            let definition = catalog.releases[ReleaseKeyView {
                template_id: request.template_id,
                version,
                locale: found,
            }].definition;
            match render::render_failure(definition, request.variables) {
                None => {
                    &&& result is Ok
                    &&& is_rendering(result->Ok_0, definition, request.variables)
                    &&& result->Ok_0.template_id == request.template_id
                    &&& result->Ok_0.version == version
                    &&& locale::canonical_locale(request.locale) == Some(
                        result->Ok_0.requested_locale,
                    )
                    &&& result->Ok_0.resolved_locale == found
                    &&& result->Ok_0.fallback_used <==> n > 0
                },
                Some(RenderFailure::InvalidTemplate) => result == fault::<DeliveryView>(
                    RuntimeFailure::InvalidStoredDefinition,
                ),
                Some(RenderFailure::MissingVariable) => result == told::<DeliveryView>(
                    DomainError::MissingVariable,
                ),
                Some(RenderFailure::UnexpectedVariable) => result == told::<DeliveryView>(
                    DomainError::UnexpectedVariable,
                ),
                Some(RenderFailure::UnsafeVariable) => result == told::<DeliveryView>(
                    DomainError::UnsafeVariable,
                ),
            }
        }),
{
    let locales = wanted_locales(config, request);
    let requested = locale::canonical_locale(request.locale)->0;
    lookup::law_render_call_comes_to_its_result(config, call, request, catalog);
    lemma_rendered_from(
        catalog,
        request.template_id,
        version,
        locales,
        n,
        requested,
        request.variables,
    );
    locale::law_candidate_order(requested, config.fallback_locales);
    let key = ReleaseKeyView { template_id: request.template_id, version, locale: locales[n] };
    let record = lookup::record_of(catalog, key);
    assert(record.definition() == catalog.releases[key].definition);
    assert(locales[0] == requested);
    if n > 0 {
        assert(locales[n] != locales[0]);
    }
}

/// Whoever may not render is told so; a request that names no template is invalid; a template
/// without an active version, or a version that is stored in none of the wanted locales, is not
/// found.
pub proof fn law_rendering_is_refused(
    config: ConfigView,
    call: CallView,
    request: RenderRequestView,
    catalog: Catalog,
)
    ensures
        ({
            let result = render_outcome(config, call, request, catalog);
            &&& !may_render(config, call) ==> result == told::<DeliveryView>(
                DomainError::Unauthorized,
            )
            &&& may_render(config, call) && !names_a_template(request) ==> result == told::<
                DeliveryView,
            >(DomainError::InvalidRequest)
            &&& may_render(config, call) && names_a_template(request) && wanted_version(
                request,
                catalog,
            ) is None ==> result == told::<DeliveryView>(DomainError::NotFound)
            &&& may_render(config, call) && names_a_template(request) && (forall|i: int|
                0 <= i < wanted_locales(config, request).len()
                    ==> !catalog.releases.dom().contains(
                    (ReleaseKeyView {
                        template_id: request.template_id,
                        version: wanted_version(request, catalog)->0,
                        locale: #[trigger] wanted_locales(config, request)[i],
                    }),
                )) ==> result == told::<DeliveryView>(DomainError::NotFound)
            &&& may_render(config, call) && names_a_template(request) ==> delivery::render_called(
                config,
                false,
                call,
                request,
            ) == Progress::<delivery::RenderQueryView, DeliveryView>::Done(
                fault(RuntimeFailure::NotPrepared),
            )
        }),
{
    lookup::law_render_call_comes_to_its_result(config, call, request, catalog);
    let locales = wanted_locales(config, request);
    if wanted_version(request, catalog) is Some && (forall|i: int|
        0 <= i < locales.len() ==> !catalog.releases.dom().contains(
            (ReleaseKeyView {
                template_id: request.template_id,
                version: wanted_version(request, catalog)->0,
                locale: #[trigger] locales[i],
            }),
        )) {
        lemma_rendered_from(
            catalog,
            request.template_id,
            wanted_version(request, catalog)->0,
            locales,
            locales.len() as int,
            locale::canonical_locale(request.locale)->0,
            request.variables,
        );
    }
}

/// While a message is looked for, a storage that fails, or answers something else than it was
/// asked, is a fault of the storage.
pub proof fn law_wrong_finding_ends_rendering(look: delivery::RenderQueryView, found: FoundView)
    requires
        look.version is None ==> !(found is ActiveVersion),
        look.version is Some ==> !(found is Template),
    ensures
        delivery::render_answered(look, found) == Progress::<
            delivery::RenderQueryView,
            DeliveryView,
        >::Done(fault(RuntimeFailure::Database)),
{
}

/// A preview is the sources of the request, rendered with its variables, under the names of the
/// request; its locale is no fallback.
pub proof fn law_preview_renders_the_request(
    config: ConfigView,
    call: CallView,
    request: PreviewRequestView,
)
    requires
        auth::administrator(config, call, "preview"@) is Ok,
        names_a_release(request.template_id, request.version, request.locale),
    ensures
        ({
            let result = delivery::preview_called(config, call, request);
            let definition = DefinitionView {
                subject: request.subject_template,
                text: request.text_template,
                html: request.html_template,
            };
            match render::render_failure(definition, request.variables) {
                None => {
                    &&& result is Ok
                    &&& is_rendering(result->Ok_0, definition, request.variables)
                    &&& result->Ok_0.template_id == request.template_id
                    &&& result->Ok_0.version == request.version
                    &&& locale::canonical_locale(request.locale) == Some(
                        result->Ok_0.requested_locale,
                    )
                    &&& result->Ok_0.resolved_locale == result->Ok_0.requested_locale
                    &&& !result->Ok_0.fallback_used
                },
                Some(RenderFailure::InvalidTemplate) => result == told::<DeliveryView>(
                    DomainError::InvalidRequest,
                ),
                Some(RenderFailure::MissingVariable) => result == told::<DeliveryView>(
                    DomainError::MissingVariable,
                ),
                Some(RenderFailure::UnexpectedVariable) => result == told::<DeliveryView>(
                    DomainError::UnexpectedVariable,
                ),
                Some(RenderFailure::UnsafeVariable) => result == told::<DeliveryView>(
                    DomainError::UnsafeVariable,
                ),
            }
        }),
{
}

/// Whoever is not an administrator for previews is told so, and a request that names no version is
/// invalid.
pub proof fn law_preview_is_refused(
    config: ConfigView,
    call: CallView,
    request: PreviewRequestView,
)
    ensures
        auth::administrator(config, call, "preview"@) == Err::<AdminView, AuthorizationFailure>(
            AuthorizationFailure::Unauthorized,
        ) ==> delivery::preview_called(config, call, request) == told::<DeliveryView>(
            DomainError::Unauthorized,
        ),
        auth::administrator(config, call, "preview"@) matches Err(
            AuthorizationFailure::Runtime(reason),
        ) ==> delivery::preview_called(config, call, request) == fault::<DeliveryView>(reason),
        auth::administrator(config, call, "preview"@) is Ok && !names_a_release(
            request.template_id,
            request.version,
            request.locale,
        ) ==> delivery::preview_called(config, call, request) == told::<DeliveryView>(
            DomainError::InvalidRequest,
        ),
{
}

} // verus!
