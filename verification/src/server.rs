//! The service as a whole: the state it starts from and the requests it
//! answers.

use vstd::prelude::*;
use crate::config::{default_root_path, AppState, DEFAULT_ROOT_DIRNAME};
use crate::path::joined;

verus! {

/// The method of a request.
#[derive(Debug, Clone, Copy, PartialEq, Eq, Structural)]
pub enum Method {
    Get,
    Post,
}

/// What a request asks for.
#[derive(Debug, Clone, Copy, PartialEq, Eq, Structural)]
pub enum Endpoint {
    /// Whether the service is up.
    Index,
    /// The current storage root.
    GetRootPath,
    /// A new storage root.
    SetRootPath,
    /// One stored file.
    GetFile,
    /// The upload of files for one client.
    UploadFiles,
    /// Every client.
    ListClients,
    /// One client.
    GetClient,
    /// The names of one client's files.
    ListClientFiles,
    /// The tax returns of all clients or of one.
    ListReturns,
    /// One tax return.
    GetReturn,
}

/// One kind of request that the service answers.
pub struct Route {
    pub method: Method,
    /// The path, with each variable part between angle brackets.
    pub path: &'static str,
    pub endpoint: Endpoint,
}

impl View for Route {
    type V = (Method, Seq<char>, Endpoint);

    open spec fn view(&self) -> (Method, Seq<char>, Endpoint) {
        (self.method, self.path@, self.endpoint)
    }
}

/// The service before its first request.
pub struct Service {
    /// The registry, set to the default root.
    pub state: AppState,
    /// The requests that the service answers.
    pub routes: Vec<Route>,
}

/// The requests that the service answers.
pub open spec fn route_table() -> Seq<(Method, Seq<char>, Endpoint)> {
    seq![
        (Method::Get, "/"@, Endpoint::Index),
        (Method::Get, "/files/<path..>"@, Endpoint::GetFile),
        (Method::Post, "/files/upload/<client_id>"@, Endpoint::UploadFiles),
        (Method::Get, "/config/path"@, Endpoint::GetRootPath),
        (Method::Post, "/config/path"@, Endpoint::SetRootPath),
        (Method::Get, "/clients"@, Endpoint::ListClients),
        (Method::Get, "/clients/<client_id>"@, Endpoint::GetClient),
        (Method::Get, "/clients/<client_id>/files"@, Endpoint::ListClientFiles),
        (Method::Get, "/returns?<client_id>"@, Endpoint::ListReturns),
        (Method::Get, "/returns/<tax_return_id>"@, Endpoint::GetReturn),
    ]
}

/// Sets the service up: the registry holds the default root below
/// `temp_dir`, the system's directory for temporary files, and the routes
/// are those of `route_table`.
pub fn rocket(temp_dir: &str) -> (service: Service)
    ensures
        service.state@ == Some(joined(temp_dir@, DEFAULT_ROOT_DIRNAME@)),
        service.routes@.map_values(|r: Route| r@) == route_table(),
{
    let state = AppState::new(default_root_path(temp_dir));
    let mut routes: Vec<Route> = Vec::new();
    routes.push(Route { method: Method::Get, path: "/", endpoint: Endpoint::Index });
    routes.push(Route { method: Method::Get, path: "/files/<path..>", endpoint: Endpoint::GetFile });
    routes.push(
        Route {
            method: Method::Post,
            path: "/files/upload/<client_id>",
            endpoint: Endpoint::UploadFiles,
        },
    );
    routes.push(Route { method: Method::Get, path: "/config/path", endpoint: Endpoint::GetRootPath });
    routes.push(
        Route { method: Method::Post, path: "/config/path", endpoint: Endpoint::SetRootPath },
    );
    routes.push(Route { method: Method::Get, path: "/clients", endpoint: Endpoint::ListClients });
    routes.push(
        Route { method: Method::Get, path: "/clients/<client_id>", endpoint: Endpoint::GetClient },
    );
    routes.push(
        Route {
            method: Method::Get,
            path: "/clients/<client_id>/files",
            endpoint: Endpoint::ListClientFiles,
        },
    );
    routes.push(
        Route { method: Method::Get, path: "/returns?<client_id>", endpoint: Endpoint::ListReturns },
    );
    routes.push(
        Route {
            method: Method::Get,
            path: "/returns/<tax_return_id>",
            endpoint: Endpoint::GetReturn,
        },
    );
    Service { state, routes }
}

} // verus!
