//! Looking at stored versions.
use vstd::prelude::*;

use crate::auth;
use crate::auth::{Call, CallView, GET_VERSION_OPERATION, LIST_VERSIONS_OPERATION};
use crate::config::ConfigView;
use crate::failure::{RuntimeFailure, TemplateFailure};
use crate::identifier;
use crate::locale;
use crate::plugin;
use crate::plugin::NotificationTemplatePlugin;
use crate::records;
use crate::records::{
    GetRequestView, GetVersionRequest, ListRequestView, ListVersionsRequest, ListVersionsResponse,
    PageView, RecordView, TemplateRecord, TemplateVersion, VersionView,
};
use crate::store::{Progress, ReleaseKey, ReleaseKeyView};
use crate::text;

verus! {

/// How many versions a page holds at most.
pub const MAX_COUNT: i64 = 200;

/// A question to the storage.
#[derive(Debug)]
pub enum Query {
    /// A stored version with its template's head.
    Template { release: ReleaseKey },
    /// The active version of a template.
    ActiveVersion { template_id: String },
    /// How many versions are stored, of a template or of all.
    Count { template_id: Option<String> },
    /// The versions of a template or of all, ordered by template, version and locale: at most
    /// `limit`, after the first `offset`.
    Templates { template_id: Option<String>, limit: i64, offset: i64 },
}

/// A [`Query`] by its texts.
pub enum QueryView {
    Template { release: ReleaseKeyView },
    ActiveVersion { template_id: Seq<char> },
    Count { template_id: Option<Seq<char>> },
    Templates { template_id: Option<Seq<char>>, limit: int, offset: int },
}

impl View for Query {
    type V = QueryView;

    open spec fn view(&self) -> QueryView {
        match self {
            Query::Template { release } => QueryView::Template { release: release@ },
            Query::ActiveVersion { template_id } => QueryView::ActiveVersion {
                template_id: template_id@,
            },
            Query::Count { template_id } => QueryView::Count {
                template_id: text::optional(*template_id),
            },
            Query::Templates { template_id, limit, offset } => QueryView::Templates {
                template_id: text::optional(*template_id),
                limit: *limit as int,
                offset: *offset as int,
            },
        }
    }
}

/// What the storage answers to a [`Query`].
#[derive(Debug)]
pub enum Found {
    Failed,
    Template(Option<TemplateRecord>),
    ActiveVersion(Option<String>),
    Count(i64),
    Templates(Vec<TemplateRecord>),
}

/// A [`Found`] by its texts.
pub enum FoundView {
    Failed,
    Template(Option<RecordView>),
    ActiveVersion(Option<Seq<char>>),
    Count(int),
    Templates(Seq<RecordView>),
}

impl View for Found {
    type V = FoundView;

    open spec fn view(&self) -> FoundView {
        match self {
            Found::Failed => FoundView::Failed,
            Found::Template(Some(record)) => FoundView::Template(Some(record@)),
            Found::Template(None) => FoundView::Template(None),
            Found::ActiveVersion(version) => FoundView::ActiveVersion(text::optional(*version)),
            Found::Count(count) => FoundView::Count(*count as int),
            Found::Templates(list) => FoundView::Templates(records::record_views(list@)),
        }
    }
}

/// A look at one stored version.
#[derive(Debug)]
pub struct GetQuery {
    pub release: ReleaseKey,
}

/// A [`GetQuery`] by its texts.
pub struct GetQueryView {
    pub release: ReleaseKeyView,
}

impl View for GetQuery {
    type V = GetQueryView;

    open spec fn view(&self) -> GetQueryView {
        GetQueryView { release: self.release@ }
    }
}

/// How an administrator's request begins.
pub open spec fn get_begun(prepared: bool, request: GetRequestView) -> Progress<
    GetQueryView,
    VersionView,
> {
    if locale::canonical_locale(request.locale) is None || !identifier::identifier(
        request.template_id,
        160,
    ) || !identifier::identifier(request.version, 80) {
        plugin::refused(TemplateFailure::InvalidRequest)
    } else if !prepared {
        plugin::failed(RuntimeFailure::NotPrepared)
    } else {
        Progress::Ask(
            GetQueryView {
                release: ReleaseKeyView {
                    template_id: request.template_id,
                    version: request.version,
                    locale: locale::canonical_locale(request.locale)->0,
                },
            },
        )
    }
}

/// How a call begins.
pub open spec fn get_called(
    config: ConfigView,
    prepared: bool,
    call: CallView,
    request: GetRequestView,
) -> Progress<GetQueryView, VersionView> {
    match auth::administrator(config, call, GET_VERSION_OPERATION@) {
        Ok(admin) => get_begun(prepared, request),
        Err(failure) => Progress::Done(Err(plugin::authorization_error(failure))),
    }
}

/// How the look ends when the storage has answered.
pub open spec fn get_answered(found: FoundView) -> Progress<GetQueryView, VersionView> {
    match found {
        FoundView::Template(Some(record)) => match record.value() {
            Ok(version) => Progress::Done(Ok(version)),
            Err(failure) => plugin::failed(failure),
        },
        FoundView::Template(None) => plugin::refused(TemplateFailure::NotFound),
        _ => plugin::failed(RuntimeFailure::Database),
    }
}

impl GetQuery {
    /// What the look asks of the storage.
    pub fn query(&self) -> (res: Query)
        ensures
            res@ == (QueryView::Template { release: self@.release }),
    {
        Query::Template { release: self.release.clone() }
    }

    /// Ends the look when the storage has answered.
    pub fn answered(self, found: Found) -> (res: Progress<GetQuery, TemplateVersion>)
        ensures
            res@ == get_answered(found@),
    {
        match found {
            Found::Template(Some(record)) => match record.value() {
                Ok(version) => plugin::reply(version),
                Err(failure) => plugin::fail(failure),
            },
            Found::Template(None) => plugin::refuse(TemplateFailure::NotFound),
            _ => plugin::fail(RuntimeFailure::Database),
        }
    }
}

/// A look at a page of stored versions; the total is asked for first.
#[derive(Debug)]
pub struct ListQuery {
    pub template_id: Option<String>,
    pub count: i64,
    pub start_index: i64,
    pub offset: i64,
    pub total: Option<i64>,
}

/// A [`ListQuery`] by its texts.
pub struct ListQueryView {
    pub template_id: Option<Seq<char>>,
    pub count: int,
    pub start_index: int,
    pub offset: int,
    pub total: Option<int>,
}

impl View for ListQuery {
    type V = ListQueryView;

    open spec fn view(&self) -> ListQueryView {
        ListQueryView {
            template_id: text::optional(self.template_id),
            count: self.count as int,
            start_index: self.start_index as int,
            offset: self.offset as int,
            total: match self.total {
                Some(total) => Some(total as int),
                None => None,
            },
        }
    }
}

/// The request asks for a page that can be had.
pub open spec fn page_request(request: ListRequestView) -> bool {
    &&& 1 <= request.start_index
    &&& 0 <= request.count <= MAX_COUNT
    &&& request.template_id matches Some(template_id) ==> identifier::identifier(template_id, 160)
}

/// How an administrator's request begins.
pub open spec fn list_begun(prepared: bool, request: ListRequestView) -> Progress<
    ListQueryView,
    PageView,
> {
    if !page_request(request) {
        plugin::refused(TemplateFailure::InvalidRequest)
    } else if !prepared {
        plugin::failed(RuntimeFailure::NotPrepared)
    } else {
        Progress::Ask(
            ListQueryView {
                template_id: request.template_id,
                count: request.count,
                start_index: request.start_index,
                offset: request.start_index - 1,
                total: None,
            },
        )
    }
}

/// How a call begins.
pub open spec fn list_called(
    config: ConfigView,
    prepared: bool,
    call: CallView,
    request: ListRequestView,
) -> Progress<ListQueryView, PageView> {
    match auth::administrator(config, call, LIST_VERSIONS_OPERATION@) {
        Ok(admin) => list_begun(prepared, request),
        Err(failure) => Progress::Done(Err(plugin::authorization_error(failure))),
    }
}

/// What the look asks of the storage.
pub open spec fn list_query(look: ListQueryView) -> QueryView {
    match look.total {
        None => QueryView::Count { template_id: look.template_id },
        Some(_) => QueryView::Templates {
            template_id: look.template_id,
            limit: look.count,
            offset: look.offset,
        },
    }
}

/// What an administrator sees of some records, or the failure of the first that is not one that
/// the plugin stores.
pub open spec fn values(list: Seq<RecordView>) -> Result<Seq<VersionView>, RuntimeFailure>
    decreases list.len(),
{
    if list.len() == 0 {
        Ok(Seq::empty())
    } else {
        match values(list.drop_last()) {
            Ok(before) => match list.last().value() {
                Ok(version) => Ok(before.push(version)),
                Err(failure) => Err(failure),
            },
            Err(failure) => Err(failure),
        }
    }
}

/// How the look goes on when the storage has answered.
pub open spec fn list_answered(look: ListQueryView, found: FoundView) -> Progress<
    ListQueryView,
    PageView,
> {
    match (look.total, found) {
        (None, FoundView::Count(total)) => Progress::Ask(
            ListQueryView { total: Some(total), ..look },
        ),
        (Some(total), FoundView::Templates(list)) => match values(list) {
            Ok(resources) => Progress::Done(
                Ok(
                    PageView {
                        resources,
                        total_results: total,
                        start_index: look.start_index,
                        items_per_page: list.len() as int,
                    },
                ),
            ),
            Err(failure) => plugin::failed(failure),
        },
        _ => plugin::failed(RuntimeFailure::Database),
    }
}

/// A record that the plugin did not store fails all lists that begin with it and what comes before
/// it.
proof fn lemma_values_prefix(list: Seq<RecordView>, n: int, failure: RuntimeFailure)
    requires
        0 <= n <= list.len(),
        values(list.take(n)) == Err::<Seq<VersionView>, RuntimeFailure>(failure),
    ensures
        values(list) == Err::<Seq<VersionView>, RuntimeFailure>(failure),
    decreases list.len(),
{
    if n == list.len() {
        assert(list.take(n) =~= list);
    } else {
        assert(list.drop_last().take(n) =~= list.take(n));
        lemma_values_prefix(list.drop_last(), n, failure);
    }
}

/// What an administrator sees of some records.
fn all_values(list: &Vec<TemplateRecord>) -> (res: Result<Vec<TemplateVersion>, RuntimeFailure>)
    ensures
        match res {
            Ok(versions) => values(records::record_views(list@)) == Ok::<
                Seq<VersionView>,
                RuntimeFailure,
            >(records::version_views(versions@)),
            Err(failure) => values(records::record_views(list@)) == Err::<
                Seq<VersionView>,
                RuntimeFailure,
            >(failure),
        },
{
    let ghost views = records::record_views(list@);
    let mut versions: Vec<TemplateVersion> = Vec::new();
    assert(records::version_views(versions@) =~= Seq::<VersionView>::empty());
    assert(views.take(0) =~= Seq::<RecordView>::empty());
    for i in 0..list.len()
        invariant
            views == records::record_views(list@),
            values(views.take(i as int)) == Ok::<Seq<VersionView>, RuntimeFailure>(
                records::version_views(versions@),
            ),
    {
        assert(views.take(i + 1).drop_last() =~= views.take(i as int));
        assert(views.take(i + 1).last() == list@[i as int]@);
        match list[i].value() {
            Ok(version) => {
                let ghost before = versions@;
                versions.push(version);
                assert(records::version_views(versions@) =~= records::version_views(before).push(
                    version@,
                ));
            },
            Err(failure) => {
                proof {
                    lemma_values_prefix(views, i + 1, failure);
                }
                return Err(failure);
            },
        }
    }
    assert(views.take(list@.len() as int) =~= views);
    Ok(versions)
}

impl ListQuery {
    /// What the look asks of the storage.
    pub fn query(&self) -> (res: Query)
        ensures
            res@ == list_query(self@),
    {
        match self.total {
            None => Query::Count { template_id: text::clone_optional(&self.template_id) },
            Some(_) => Query::Templates {
                template_id: text::clone_optional(&self.template_id),
                limit: self.count,
                offset: self.offset,
            },
        }
    }

    /// Goes on with the look when the storage has answered.
    pub fn answered(self, found: Found) -> (res: Progress<ListQuery, ListVersionsResponse>)
        ensures
            res@ == list_answered(self@, found@),
    {
        match (self.total, found) {
            (None, Found::Count(total)) => Progress::Ask(
                ListQuery {
                    template_id: self.template_id,
                    count: self.count,
                    start_index: self.start_index,
                    offset: self.offset,
                    total: Some(total),
                },
            ),
            (Some(total), Found::Templates(list)) => match all_values(&list) {
                Ok(resources) => plugin::reply(
                    ListVersionsResponse {
                        resources,
                        total_results: total,
                        start_index: self.start_index,
                        items_per_page: list.len(),
                    },
                ),
                Err(failure) => plugin::fail(failure),
            },
            _ => plugin::fail(RuntimeFailure::Database),
        }
    }
}

impl NotificationTemplatePlugin {
    /// Begins to look at a version for an administrator.
    pub fn get_version_value(&self, request: GetVersionRequest) -> (res: Progress<
        GetQuery,
        TemplateVersion,
    >)
        ensures
            res@ == get_begun(self.prepared, request@),
    {
        let locale = match locale::normalize_locale(request.locale.as_str()) {
            Some(locale) => locale,
            None => {
                return plugin::refuse(TemplateFailure::InvalidRequest);
            },
        };
        if !identifier::valid_identifier(request.template_id.as_str(), 160)
            || !identifier::valid_identifier(request.version.as_str(), 80) {
            return plugin::refuse(TemplateFailure::InvalidRequest);
        }
        if let Err(failure) = self.require_prepared() {
            return plugin::fail(failure);
        }
        Progress::Ask(
            GetQuery {
                release: ReleaseKey {
                    template_id: request.template_id,
                    version: request.version,
                    locale,
                },
            },
        )
    }

    /// Begins to look at a version for a caller.
    pub fn get_version(&self, call: &Call, request: GetVersionRequest) -> (res: Progress<
        GetQuery,
        TemplateVersion,
    >)
        ensures
            res@ == get_called(self.config@, self.prepared, call@, request@),
            res is Ask ==> auth::bound_to(self.config@, call@, GET_VERSION_OPERATION@),
    {
        match self.config.authorize_call(call, GET_VERSION_OPERATION) {
            Ok(_) => self.get_version_value(request),
            Err(failure) => Progress::Done(Err(plugin::unauthorized(failure))),
        }
    }

    /// Begins to look at a page of versions for an administrator.
    pub fn list_versions_value(&self, request: ListVersionsRequest) -> (res: Progress<
        ListQuery,
        ListVersionsResponse,
    >)
        ensures
            res@ == list_begun(self.prepared, request@),
    {
        if request.start_index < 1 || request.count < 0 || request.count > MAX_COUNT {
            return plugin::refuse(TemplateFailure::InvalidRequest);
        }
        if let Some(template_id) = &request.template_id {
            if !identifier::valid_identifier(template_id.as_str(), 160) {
                return plugin::refuse(TemplateFailure::InvalidRequest);
            }
        }
        if let Err(failure) = self.require_prepared() {
            return plugin::fail(failure);
        }
        Progress::Ask(
            ListQuery {
                template_id: request.template_id,
                count: request.count,
                start_index: request.start_index,
                offset: request.start_index - 1,
                total: None,
            },
        )
    }

    /// Begins to look at a page of versions for a caller.
    pub fn list_versions(&self, call: &Call, request: ListVersionsRequest) -> (res: Progress<
        ListQuery,
        ListVersionsResponse,
    >)
        ensures
            res@ == list_called(self.config@, self.prepared, call@, request@),
            res is Ask ==> auth::bound_to(self.config@, call@, LIST_VERSIONS_OPERATION@),
    {
        match self.config.authorize_call(call, LIST_VERSIONS_OPERATION) {
            Ok(_) => self.list_versions_value(request),
            Err(failure) => Progress::Done(Err(plugin::unauthorized(failure))),
        }
    }
}

} // verus!
