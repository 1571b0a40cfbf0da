//! The gateway's configuration: what a file may say, and what it comes to.

pub mod acme;
pub mod domain;
pub mod error;
pub mod observability;
pub mod server;
pub mod tls;

use std::sync::Arc;

use vstd::prelude::*;

use crate::grpc::routes as grpc_routes;
use crate::grpc::routes::{GrpcRouteSpec, GrpcRouteSpecModel, GrpcRouteTable, GrpcRouteTableModel};
use crate::routes;
use crate::routes::{RouteSpec, RouteSpecModel, RouteTable, RouteTableModel};

use self::acme::{acme_result, disabled_acme, AcmeConfig, AcmeModel, FileAcmeConfig, FileAcmeModel};
use self::error::{ConfigError, ConfigErrorModel};
use self::observability::{
    observability_off, observability_result, FileObservabilityConfig, FileObservabilityModel,
    ObservabilityConfig, ObservabilityModel,
};
use self::server::{server_result, FileServerConfig, FileServerModel, ServerConfig, ServerModel};
use self::tls::{tls_result, FileTlsConfig, FileTlsModel, TlsConfig, TlsModel};

verus! {

/// A WebSocket route in a configuration file.
pub struct FileRouteConfig {
    pub id: String,
    pub path: String,
    pub backend: String,
    pub enabled: bool,
}

/// A gRPC route in a configuration file.
pub struct FileGrpcRouteConfig {
    pub id: String,
    pub path: String,
    pub backend: String,
    pub enabled: bool,
}

pub fn default_route_enabled() -> (r: bool)
    ensures
        r,
{
    true
}

/// A configuration file.
pub struct FileConfig {
    pub server: FileServerConfig,
    pub tls: FileTlsConfig,
    pub acme: Option<FileAcmeConfig>,
    pub observability: Option<FileObservabilityConfig>,
    pub routes: Vec<FileRouteConfig>,
    pub grpc_routes: Vec<FileGrpcRouteConfig>,
}

pub struct FileConfigModel {
    pub server: FileServerModel,
    pub tls: FileTlsModel,
    pub acme: Option<FileAcmeModel>,
    pub observability: Option<FileObservabilityModel>,
    pub routes: Seq<RouteSpecModel>,
    pub grpc_routes: Seq<GrpcRouteSpecModel>,
}

pub open spec fn file_route(route: FileRouteConfig) -> RouteSpecModel {
    RouteSpecModel {
        id: route.id@,
        path: route.path@,
        backend: route.backend@,
        enabled: route.enabled,
    }
}

pub open spec fn file_grpc_route(route: FileGrpcRouteConfig) -> GrpcRouteSpecModel {
    GrpcRouteSpecModel {
        id: route.id@,
        path: route.path@,
        backend: route.backend@,
        enabled: route.enabled,
    }
}

impl View for FileConfig {
    type V = FileConfigModel;

    open spec fn view(&self) -> FileConfigModel {
        FileConfigModel {
            server: self.server@,
            tls: self.tls@,
            acme: match self.acme {
                Some(acme) => Some(acme@),
                None => None,
            },
            observability: match self.observability {
                Some(observability) => Some(observability@),
                None => None,
            },
            routes: self.routes@.map_values(|route: FileRouteConfig| file_route(route)),
            grpc_routes: self.grpc_routes@.map_values(
                |route: FileGrpcRouteConfig| file_grpc_route(route),
            ),
        }
    }
}

/// A configuration that the gateway can run with.
pub struct Config {
    server: ServerConfig,
    tls: TlsConfig,
    acme: AcmeConfig,
    observability: ObservabilityConfig,
    routes: Arc<RouteTable>,
    grpc_routes: Arc<GrpcRouteTable>,
}

pub struct ConfigModel {
    pub server: ServerModel,
    pub tls: TlsModel,
    pub acme: AcmeModel,
    pub observability: ObservabilityModel,
    pub routes: RouteTableModel,
    pub grpc_routes: GrpcRouteTableModel,
}

impl View for Config {
    type V = ConfigModel;

    closed spec fn view(&self) -> ConfigModel {
        ConfigModel {
            server: self.server@,
            tls: self.tls@,
            acme: self.acme@,
            observability: self.observability@,
            routes: self.routes@,
            grpc_routes: self.grpc_routes@,
        }
    }
}

impl Config {
    pub fn into_parts(self) -> (r: (
        ServerConfig,
        TlsConfig,
        AcmeConfig,
        ObservabilityConfig,
        Arc<RouteTable>,
        Arc<GrpcRouteTable>,
    ))
        ensures
            r.0@ == self@.server,
            r.1@ == self@.tls,
            r.2@ == self@.acme,
            r.3@ == self@.observability,
            r.4@ == self@.routes,
            r.5@ == self@.grpc_routes,
    {
        (self.server, self.tls, self.acme, self.observability, self.routes, self.grpc_routes)
    }
}

/// What the ACME section comes to; without one, nothing is managed.
pub open spec fn acme_section(acme: Option<FileAcmeModel>, directory: Seq<char>) -> Result<
    AcmeModel,
    ConfigErrorModel,
> {
    match acme {
        Some(acme) => acme_result(acme, directory),
        None => Ok(disabled_acme(directory)),
    }
}

/// What the observability section comes to; without one, observability is off.
pub open spec fn observability_section(
    observability: Option<FileObservabilityModel>,
    directory: Seq<char>,
) -> Result<ObservabilityModel, ConfigErrorModel> {
    match observability {
        Some(observability) => observability_result(observability, directory),
        None => Ok(observability_off()),
    }
}

/// What a file in `directory` comes to, or the first thing that is wrong with it.
pub open spec fn config_result(file: FileConfigModel, directory: Seq<char>) -> Result<
    ConfigModel,
    ConfigErrorModel,
> {
    match server_result(file.server) {
        Err(e) => Err(e),
        Ok(server) => match tls_result(file.tls, directory) {
            Err(e) => Err(e),
            Ok(tls) => match acme_section(file.acme, directory) {
                Err(e) => Err(e),
                Ok(acme) => match observability_section(file.observability, directory) {
                    Err(e) => Err(e),
                    Ok(observability) => match routes::table_result(file.routes) {
                        Err(e) => Err(ConfigErrorModel::Route(e)),
                        Ok(routes) => match grpc_routes::table_result(file.grpc_routes) {
                            Err(e) => Err(ConfigErrorModel::GrpcRoute(e)),
                            Ok(grpc_routes) => Ok(
                                ConfigModel {
                                    server,
                                    tls,
                                    acme,
                                    observability,
                                    routes,
                                    grpc_routes,
                                },
                            ),
                        },
                    },
                },
            },
        },
    }
}

fn route_specs(file: &Vec<FileRouteConfig>) -> (r: Vec<RouteSpec>)
    ensures
        routes::spec_models(r@) == file@.map_values(|route: FileRouteConfig| file_route(route)),
{
    let mut specs: Vec<RouteSpec> = Vec::new();
    let mut i: usize = 0;
    while i < file.len()
        invariant
            i <= file@.len(),
            specs@.len() == i,
            forall|j: int| 0 <= j < i ==> (#[trigger] specs@[j])@ == file_route(file@[j]),
        decreases file@.len() - i,
    {
        let route = &file[i];
        specs.push(
            RouteSpec {
                id: route.id.clone(),
                path: route.path.clone(),
                backend: route.backend.clone(),
                enabled: route.enabled,
            },
        );
        i += 1;
    }
    assert(routes::spec_models(specs@) =~= file@.map_values(
        |route: FileRouteConfig| file_route(route),
    ));
    specs
}

fn grpc_route_specs(file: &Vec<FileGrpcRouteConfig>) -> (r: Vec<GrpcRouteSpec>)
    ensures
        grpc_routes::spec_models(r@) == file@.map_values(
            |route: FileGrpcRouteConfig| file_grpc_route(route),
        ),
{
    let mut specs: Vec<GrpcRouteSpec> = Vec::new();
    let mut i: usize = 0;
    while i < file.len()
        invariant
            i <= file@.len(),
            specs@.len() == i,
            forall|j: int| 0 <= j < i ==> (#[trigger] specs@[j])@ == file_grpc_route(file@[j]),
        decreases file@.len() - i,
    {
        let route = &file[i];
        specs.push(
            GrpcRouteSpec {
                id: route.id.clone(),
                path: route.path.clone(),
                backend: route.backend.clone(),
                enabled: route.enabled,
            },
        );
        i += 1;
    }
    assert(grpc_routes::spec_models(specs@) =~= file@.map_values(
        |route: FileGrpcRouteConfig| file_grpc_route(route),
    ));
    specs
}

impl FileConfig {
    /// Checks a file that stands in `config_directory`, in the order of its sections.
    pub fn validate(self, config_directory: &str) -> (r: Result<Config, ConfigError>)
        ensures
            match r {
                Ok(config) => config_result(self@, config_directory@) == Ok::<
                    ConfigModel,
                    ConfigErrorModel,
                >(config@),
                Err(e) => config_result(self@, config_directory@) == Err::<
                    ConfigModel,
                    ConfigErrorModel,
                >(e@),
            },
    {
        let route_list = route_specs(&self.routes);
        let grpc_route_list = grpc_route_specs(&self.grpc_routes);
        let server = match self.server.validate() {
            Ok(server) => server,
            Err(e) => {
                return Err(e);
            },
        };
        let tls = match self.tls.validate(config_directory) {
            Ok(tls) => tls,
            Err(e) => {
                return Err(e);
            },
        };
        let acme = match self.acme {
            Some(acme) => match acme.validate(config_directory) {
                Ok(acme) => acme,
                Err(e) => {
                    return Err(e);
                },
            },
            None => AcmeConfig::disabled(config_directory),
        };
        let observability = match self.observability {
            Some(observability) => match observability.validate(config_directory) {
                Ok(observability) => observability,
                Err(e) => {
                    return Err(e);
                },
            },
            None => ObservabilityConfig::off(),
        };
        let routes = match RouteTable::build(route_list) {
            Ok(routes) => Arc::new(routes),
            Err(e) => {
                return Err(ConfigError::Route(e));
            },
        };
        let grpc_routes = match GrpcRouteTable::build(grpc_route_list) {
            Ok(grpc_routes) => Arc::new(grpc_routes),
            Err(e) => {
                return Err(ConfigError::GrpcRoute(e));
            },
        };
        Ok(Config { server, tls, acme, observability, routes, grpc_routes })
    }
}

/// A file is accepted exactly where every section of it is, and the configuration is made of what
/// the sections come to. A missing ACME section manages nothing, and a missing observability section
/// reports nothing.
pub proof fn law_config_is_made_of_its_sections(file: FileConfigModel, directory: Seq<char>)
    ensures
        ({
            let r = config_result(file, directory);
            let server = server_result(file.server);
            let tls = tls_result(file.tls, directory);
            let routes = routes::table_result(file.routes);
            let grpc = grpc_routes::table_result(file.grpc_routes);
            let managed = file.acme is Some ==> acme_result(file.acme->0, directory) is Ok;
            let reported = file.observability is Some ==> observability_result(
                file.observability->0,
                directory,
            ) is Ok;
            &&& r is Ok <==> server is Ok && tls is Ok && managed && reported && routes is Ok
                && grpc is Ok
            &&& r matches Ok(config) ==> {
                &&& config.server == server->Ok_0
                &&& config.tls == tls->Ok_0
                &&& config.routes == routes->Ok_0
                &&& config.grpc_routes == grpc->Ok_0
                &&& file.acme matches Some(acme) ==> config.acme == acme_result(
                    acme,
                    directory,
                )->Ok_0
                &&& file.acme is None ==> !config.acme.enabled && config.acme.certificates.len()
                    == 0
                &&& file.observability matches Some(observability) ==> config.observability
                    == observability_result(observability, directory)->Ok_0
                &&& file.observability is None ==> config.observability.mode is Off
            }
        }),
{
}

/// The first section that is wrong, in the order server, TLS, ACME, observability, routes and gRPC
/// routes, is the one that is told.
pub proof fn law_first_faulty_section_is_told(file: FileConfigModel, directory: Seq<char>)
    ensures
        ({
            let told = config_result(file, directory)->Err_0;
            let server = server_result(file.server);
            let tls = tls_result(file.tls, directory);
            let acme_fault = file.acme is Some && acme_result(file.acme->0, directory) is Err;
            let observability_fault = file.observability is Some && observability_result(
                file.observability->0,
                directory,
            ) is Err;
            let routes = routes::table_result(file.routes);
            let grpc = grpc_routes::table_result(file.grpc_routes);
            let base = server is Ok && tls is Ok;
            &&& server is Err ==> told == server->Err_0
            &&& server is Ok && tls is Err ==> told == tls->Err_0
            &&& base && acme_fault ==> told == acme_result(file.acme->0, directory)->Err_0
            &&& base && !acme_fault && observability_fault ==> told == observability_result(
                file.observability->0,
                directory,
            )->Err_0
            &&& base && !acme_fault && !observability_fault && routes is Err ==> told
                == ConfigErrorModel::Route(routes->Err_0)
            &&& base && !acme_fault && !observability_fault && routes is Ok && grpc is Err ==> told
                == ConfigErrorModel::GrpcRoute(grpc->Err_0)
        }),
{
}

} // verus!
