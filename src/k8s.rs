//! The types of the Kubernetes API crate that the watch client carries, and
//! the two calls it makes into that crate.
use vstd::prelude::*;
use k8s_openapi::apimachinery::pkg::apis::meta::v1::WatchEvent;
use k8s_openapi::{RequestError, ResponseError, WatchResponse};

verus! {

#[verifier::external_type_specification]
#[verifier::external_body]
pub struct ExPod(k8s_openapi::api::core::v1::Pod);

#[verifier::external_type_specification]
#[verifier::external_body]
#[verifier::reject_recursive_types(T)]
pub struct ExWatchEvent<T>(k8s_openapi::apimachinery::pkg::apis::meta::v1::WatchEvent<T>);

#[verifier::external_type_specification]
#[verifier::external_body]
pub struct ExRequestError(k8s_openapi::RequestError);

#[verifier::external_type_specification]
#[verifier::external_body]
pub struct ExResponseError(k8s_openapi::ResponseError);

#[verifier::external_type_specification]
#[verifier::external_body]
#[verifier::reject_recursive_types(T)]
pub struct ExHttpRequest<T>(http::Request<T>);

/// Where the first JSON value of a frame ends, when it deserializes as a
/// watch event.
pub uninterp spec fn watch_event_end(frame: Seq<u8>) -> Option<nat>;

/// Relies on `k8s_openapi::Response::try_from_parts` of `WatchResponse<Pod>`
/// under status 200: it deserializes the first JSON value of the bytes as a
/// watch event, always in the `WatchResponse::Ok` variant, with the offset
/// just past that value, and asks for more data when there is none.
#[verifier::external_body]
pub(crate) fn decode_frame(frame: &[u8]) -> (r: Result<
    Option<(WatchEvent<k8s_openapi::api::core::v1::Pod>, usize)>,
    ResponseError,
>)
    ensures
        r matches Ok(Some(_)) <==> watch_event_end(frame@) is Some,
        r matches Ok(Some((_, n))) ==> watch_event_end(frame@) == Some(n as nat) && n
            <= frame@.len(),
        !(r matches Ok(None)),
        frame@.len() == 0 ==> r is Err,
{
    match <WatchResponse<k8s_openapi::api::core::v1::Pod> as k8s_openapi::Response>::try_from_parts(
        http::StatusCode::OK,
        frame,
    ) {
        Ok((WatchResponse::Ok(event), offset)) => Ok(Some((event, offset))),
        Ok((WatchResponse::Other(_), _)) => Ok(None),
        Err(error) => Err(error),
    }
}

/// The contents of an optional string.
pub open spec fn opt_view(o: Option<String>) -> Option<Seq<char>> {
    match o {
        Some(s) => Some(s@),
        None => None,
    }
}

/// Whether the pod watch request builds from these query parameters
/// (resource version, label selector, field selector, pretty, timeout,
/// bookmarks).
pub uninterp spec fn pod_watch_request_builds(
    params: (Option<Seq<char>>, Option<Seq<char>>, Option<Seq<char>>, Option<Seq<char>>, Option<i64>, Option<bool>),
) -> bool;

/// Relies on `k8s_openapi::api::core::v1::Pod::watch_pod_for_all_namespaces`
/// to build the GET request of a pod watch from its query parameters; whether
/// it builds depends on those parameters alone.
#[verifier::external_body]
pub(crate) fn watch_pods_request(
    resource_version: &Option<String>,
    label_selector: &Option<String>,
    field_selector: &Option<String>,
    pretty: &Option<String>,
    timeout_seconds: Option<i64>,
    allow_watch_bookmarks: Option<bool>,
) -> (r: Result<http::Request<Vec<u8>>, RequestError>)
    ensures
        r is Ok <==> pod_watch_request_builds(
            (
                opt_view(*resource_version),
                opt_view(*label_selector),
                opt_view(*field_selector),
                opt_view(*pretty),
                timeout_seconds,
                allow_watch_bookmarks,
            ),
        ),
{
    let optional = k8s_openapi::WatchOptional {
        allow_watch_bookmarks,
        field_selector: field_selector.as_deref(),
        label_selector: label_selector.as_deref(),
        pretty: pretty.as_deref(),
        resource_version: resource_version.as_deref(),
        timeout_seconds,
    };
    k8s_openapi::api::core::v1::Pod::watch_pod_for_all_namespaces(optional).map(|(request, _)| request)
}

} // verus!
