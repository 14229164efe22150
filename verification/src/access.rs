//! Who and what reaches the storage.
use vstd::prelude::*;

use crate::activate;
use crate::auth;
use crate::auth::CallView;
use crate::config::ConfigView;
use crate::create;
use crate::delivery;
use crate::failure::{DomainError, PluginError};
use crate::plugin;
use crate::query;
use crate::records::{
    ActivateRequestView, CreateRequestView, GetRequestView, ListRequestView, PreviewRequestView,
    RenderRequestView,
};
use crate::store::Progress;

verus! {

/// Whoever is not an administrator for the very operation is turned away from it, before the
/// request is looked at or anything is asked of the storage.
pub proof fn law_administration_is_closed(
    config: ConfigView,
    prepared: bool,
    call: CallView,
    create_request: CreateRequestView,
    activate_request: ActivateRequestView,
    get_request: GetRequestView,
    list_request: ListRequestView,
    preview_request: PreviewRequestView,
)
    ensures
        auth::administrator(config, call, auth::CREATE_VERSION_OPERATION@) matches Err(failure)
            ==> create::create_called(config, prepared, call, create_request) == Progress::<
            create::CreateCommandView,
            crate::records::CreatedView,
        >::Done(Err(plugin::authorization_error(failure))),
        auth::administrator(config, call, auth::ACTIVATE_VERSION_OPERATION@) matches Err(failure)
            ==> activate::activate_called(config, prepared, call, activate_request) == Progress::<
            activate::ActivateCommandView,
            crate::records::ActivatedView,
        >::Done(Err(plugin::authorization_error(failure))),
        auth::administrator(config, call, auth::GET_VERSION_OPERATION@) matches Err(failure)
            ==> query::get_called(config, prepared, call, get_request) == Progress::<
            query::GetQueryView,
            crate::records::VersionView,
        >::Done(Err(plugin::authorization_error(failure))),
        auth::administrator(config, call, auth::LIST_VERSIONS_OPERATION@) matches Err(failure)
            ==> query::list_called(config, prepared, call, list_request) == Progress::<
            query::ListQueryView,
            crate::records::PageView,
        >::Done(Err(plugin::authorization_error(failure))),
        auth::administrator(config, call, auth::PREVIEW_OPERATION@) matches Err(failure)
            ==> delivery::preview_called(config, call, preview_request) == Err::<
            crate::records::DeliveryView,
            PluginError,
        >(plugin::authorization_error(failure)),
{
}

/// Whoever may not render is turned away, before the request is looked at or anything is asked of
/// the storage.
pub proof fn law_rendering_is_closed(
    config: ConfigView,
    prepared: bool,
    call: CallView,
    request: RenderRequestView,
)
    requires
        !auth::allowed(call.caller, config.render_callers),
    ensures
        delivery::render_called(config, prepared, call, request) == Progress::<
            delivery::RenderQueryView,
            crate::records::DeliveryView,
        >::Done(Err(PluginError::Domain(DomainError::Unauthorized))),
{
}

/// With a valid configuration, a caller who may render is turned away from every administrative
/// operation, and an administrator from rendering.
pub proof fn law_roles_do_not_mix(
    config: ConfigView,
    call: CallView,
    operation: Seq<char>,
    prepared: bool,
    request: RenderRequestView,
)
    requires
        crate::config::valid_config(config),
    ensures
        auth::allowed(call.caller, config.render_callers) ==> auth::administrator(
            config,
            call,
            operation,
        ) == Err::<auth::AdminView, auth::AuthorizationFailure>(
            auth::AuthorizationFailure::Unauthorized,
        ),
        auth::administrator(config, call, operation) is Ok ==> delivery::render_called(
            config,
            prepared,
            call,
            request,
        ) == Progress::<delivery::RenderQueryView, crate::records::DeliveryView>::Done(
            Err(PluginError::Domain(DomainError::Unauthorized)),
        ),
{
}

/// Nothing is asked of a storage that is not prepared.
pub proof fn law_unprepared_plugin_asks_nothing(
    config: ConfigView,
    call: CallView,
    create_request: CreateRequestView,
    activate_request: ActivateRequestView,
    get_request: GetRequestView,
    list_request: ListRequestView,
    render_request: RenderRequestView,
)
    ensures
        create::create_called(config, false, call, create_request) is Done,
        activate::activate_called(config, false, call, activate_request) is Done,
        query::get_called(config, false, call, get_request) is Done,
        query::list_called(config, false, call, list_request) is Done,
        delivery::render_called(config, false, call, render_request) is Done,
{
}

/// A page never holds more than is allowed, and no page begins before the list does. What the storage
/// is asked for is the page that the request names.
pub proof fn law_pages_are_bounded(prepared: bool, request: ListRequestView, total: int)
    ensures
        query::list_begun(prepared, request) matches Progress::Ask(look) ==> {
            &&& 0 <= look.count <= query::MAX_COUNT
            &&& look.offset == request.start_index - 1
            &&& look.offset >= 0
            &&& query::list_query(
                query::ListQueryView { total: Some(total), ..look },
            ) == (query::QueryView::Templates {
                template_id: request.template_id,
                limit: request.count,
                offset: request.start_index - 1,
            })
        },
{
}

} // verus!
