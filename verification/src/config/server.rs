//! The section on the listener and its limits.

use vstd::prelude::*;

use crate::net::{SocketAddr, SocketModel};
use crate::time::{seconds, Duration};

use super::error::{
    count_error, seconds_error, size_error, validate_count, validate_seconds, validate_size,
    ConfigError, ConfigErrorModel,
};

verus! {

pub const DEFAULT_TLS_HANDSHAKE_TIMEOUT_SECONDS: u64 = 10;

pub const DEFAULT_WEBSOCKET_UPGRADE_TIMEOUT_SECONDS: u64 = 10;

pub const DEFAULT_BACKEND_CONNECT_TIMEOUT_SECONDS: u64 = 10;

pub const DEFAULT_SHUTDOWN_GRACE_SECONDS: u64 = 30;

pub const DEFAULT_MAX_WEBSOCKET_MESSAGE_SIZE_BYTES: usize = 1024 * 1024;

pub const DEFAULT_MAX_GRPC_CONCURRENT_STREAMS_PER_BACKEND: usize = 256;

pub const MAX_TLS_HANDSHAKE_TIMEOUT_SECONDS: u64 = 300;

pub const MAX_WEBSOCKET_UPGRADE_TIMEOUT_SECONDS: u64 = 300;

pub const MAX_BACKEND_CONNECT_TIMEOUT_SECONDS: u64 = 300;

pub const MAX_SHUTDOWN_GRACE_SECONDS: u64 = 600;

pub const MAX_WEBSOCKET_MESSAGE_SIZE_BYTES: usize = 64 * 1024 * 1024;

pub const MAX_GRPC_CONCURRENT_STREAMS_PER_BACKEND: usize = 4096;

pub fn default_tls_handshake_timeout_seconds() -> (r: u64)
    ensures
        r == DEFAULT_TLS_HANDSHAKE_TIMEOUT_SECONDS,
{
    DEFAULT_TLS_HANDSHAKE_TIMEOUT_SECONDS
}

pub fn default_websocket_upgrade_timeout_seconds() -> (r: u64)
    ensures
        r == DEFAULT_WEBSOCKET_UPGRADE_TIMEOUT_SECONDS,
{
    DEFAULT_WEBSOCKET_UPGRADE_TIMEOUT_SECONDS
}

pub fn default_backend_connect_timeout_seconds() -> (r: u64)
    ensures
        r == DEFAULT_BACKEND_CONNECT_TIMEOUT_SECONDS,
{
    DEFAULT_BACKEND_CONNECT_TIMEOUT_SECONDS
}

pub fn default_shutdown_grace_seconds() -> (r: u64)
    ensures
        r == DEFAULT_SHUTDOWN_GRACE_SECONDS,
{
    DEFAULT_SHUTDOWN_GRACE_SECONDS
}

pub fn default_max_websocket_message_size_bytes() -> (r: usize)
    ensures
        r == DEFAULT_MAX_WEBSOCKET_MESSAGE_SIZE_BYTES,
{
    DEFAULT_MAX_WEBSOCKET_MESSAGE_SIZE_BYTES
}

pub fn default_max_grpc_concurrent_streams_per_backend() -> (r: usize)
    ensures
        r == DEFAULT_MAX_GRPC_CONCURRENT_STREAMS_PER_BACKEND,
{
    DEFAULT_MAX_GRPC_CONCURRENT_STREAMS_PER_BACKEND
}

/// The section as a file has it.
pub struct FileServerConfig {
    pub listen: SocketAddr,
    pub tls_handshake_timeout_seconds: u64,
    pub websocket_upgrade_timeout_seconds: u64,
    pub backend_connect_timeout_seconds: u64,
    pub shutdown_grace_seconds: u64,
    pub max_websocket_message_size_bytes: usize,
    pub max_grpc_concurrent_streams_per_backend: usize,
}

pub struct FileServerModel {
    pub listen: SocketModel,
    pub tls_handshake_timeout_seconds: nat,
    pub websocket_upgrade_timeout_seconds: nat,
    pub backend_connect_timeout_seconds: nat,
    pub shutdown_grace_seconds: nat,
    pub max_websocket_message_size_bytes: nat,
    pub max_grpc_concurrent_streams_per_backend: nat,
}

impl View for FileServerConfig {
    type V = FileServerModel;

    open spec fn view(&self) -> FileServerModel {
        FileServerModel {
            listen: self.listen@,
            tls_handshake_timeout_seconds: self.tls_handshake_timeout_seconds as nat,
            websocket_upgrade_timeout_seconds: self.websocket_upgrade_timeout_seconds as nat,
            backend_connect_timeout_seconds: self.backend_connect_timeout_seconds as nat,
            shutdown_grace_seconds: self.shutdown_grace_seconds as nat,
            max_websocket_message_size_bytes: self.max_websocket_message_size_bytes as nat,
            max_grpc_concurrent_streams_per_backend:
                self.max_grpc_concurrent_streams_per_backend as nat,
        }
    }
}

/// Where the gateway listens, and how long and how much it grants its peers.
pub struct ServerConfig {
    listen: SocketAddr,
    tls_handshake_timeout: Duration,
    websocket_upgrade_timeout: Duration,
    backend_connect_timeout: Duration,
    shutdown_grace: Duration,
    max_websocket_message_size: usize,
    max_grpc_concurrent_streams_per_backend: usize,
}

pub struct ServerModel {
    pub listen: SocketModel,
    pub tls_handshake_timeout: nat,
    pub websocket_upgrade_timeout: nat,
    pub backend_connect_timeout: nat,
    pub shutdown_grace: nat,
    pub max_websocket_message_size: nat,
    pub max_grpc_concurrent_streams_per_backend: nat,
}

impl View for ServerConfig {
    type V = ServerModel;

    closed spec fn view(&self) -> ServerModel {
        ServerModel {
            listen: self.listen@,
            tls_handshake_timeout: self.tls_handshake_timeout@,
            websocket_upgrade_timeout: self.websocket_upgrade_timeout@,
            backend_connect_timeout: self.backend_connect_timeout@,
            shutdown_grace: self.shutdown_grace@,
            max_websocket_message_size: self.max_websocket_message_size as nat,
            max_grpc_concurrent_streams_per_backend:
                self.max_grpc_concurrent_streams_per_backend as nat,
        }
    }
}

/// The first thing that is wrong with the section, if anything.
pub open spec fn server_error(file: FileServerModel) -> Option<ConfigErrorModel> {
    let tls_handshake = seconds_error(
        "server.tls_handshake_timeout_seconds"@,
        file.tls_handshake_timeout_seconds,
        MAX_TLS_HANDSHAKE_TIMEOUT_SECONDS as nat,
    );
    let websocket_upgrade = seconds_error(
        "server.websocket_upgrade_timeout_seconds"@,
        file.websocket_upgrade_timeout_seconds,
        MAX_WEBSOCKET_UPGRADE_TIMEOUT_SECONDS as nat,
    );
    let backend_connect = seconds_error(
        "server.backend_connect_timeout_seconds"@,
        file.backend_connect_timeout_seconds,
        MAX_BACKEND_CONNECT_TIMEOUT_SECONDS as nat,
    );
    let shutdown_grace = seconds_error(
        "server.shutdown_grace_seconds"@,
        file.shutdown_grace_seconds,
        MAX_SHUTDOWN_GRACE_SECONDS as nat,
    );
    let message_size = size_error(
        "server.max_websocket_message_size_bytes"@,
        file.max_websocket_message_size_bytes,
        MAX_WEBSOCKET_MESSAGE_SIZE_BYTES as nat,
    );
    let streams = count_error(
        "server.max_grpc_concurrent_streams_per_backend"@,
        file.max_grpc_concurrent_streams_per_backend,
        MAX_GRPC_CONCURRENT_STREAMS_PER_BACKEND as nat,
    );
    if tls_handshake is Some {
        tls_handshake
    } else if websocket_upgrade is Some {
        websocket_upgrade
    } else if backend_connect is Some {
        backend_connect
    } else if shutdown_grace is Some {
        shutdown_grace
    } else if message_size is Some {
        message_size
    } else {
        streams
    }
}

/// What the section comes to.
pub open spec fn server_result(file: FileServerModel) -> Result<ServerModel, ConfigErrorModel> {
    match server_error(file) {
        Some(e) => Err(e),
        None => Ok(
            ServerModel {
                listen: file.listen,
                tls_handshake_timeout: seconds(file.tls_handshake_timeout_seconds),
                websocket_upgrade_timeout: seconds(file.websocket_upgrade_timeout_seconds),
                backend_connect_timeout: seconds(file.backend_connect_timeout_seconds),
                shutdown_grace: seconds(file.shutdown_grace_seconds),
                max_websocket_message_size: file.max_websocket_message_size_bytes,
                max_grpc_concurrent_streams_per_backend:
                    file.max_grpc_concurrent_streams_per_backend,
            },
        ),
    }
}

impl FileServerConfig {
    pub fn validate(&self) -> (r: Result<ServerConfig, ConfigError>)
        ensures
            match r {
                Ok(server) => server_result(self@) == Ok::<ServerModel, ConfigErrorModel>(server@),
                Err(e) => server_result(self@) == Err::<ServerModel, ConfigErrorModel>(e@),
            },
    {
        let tls_handshake_timeout = match validate_seconds(
            "server.tls_handshake_timeout_seconds",
            self.tls_handshake_timeout_seconds,
            MAX_TLS_HANDSHAKE_TIMEOUT_SECONDS,
        ) {
            Ok(value) => value,
            Err(e) => {
                return Err(e);
            },
        };
        let websocket_upgrade_timeout = match validate_seconds(
            "server.websocket_upgrade_timeout_seconds",
            self.websocket_upgrade_timeout_seconds,
            MAX_WEBSOCKET_UPGRADE_TIMEOUT_SECONDS,
        ) {
            Ok(value) => value,
            Err(e) => {
                return Err(e);
            },
        };
        let backend_connect_timeout = match validate_seconds(
            "server.backend_connect_timeout_seconds",
            self.backend_connect_timeout_seconds,
            MAX_BACKEND_CONNECT_TIMEOUT_SECONDS,
        ) {
            Ok(value) => value,
            Err(e) => {
                return Err(e);
            },
        };
        let shutdown_grace = match validate_seconds(
            "server.shutdown_grace_seconds",
            self.shutdown_grace_seconds,
            MAX_SHUTDOWN_GRACE_SECONDS,
        ) {
            Ok(value) => value,
            Err(e) => {
                return Err(e);
            },
        };
        let max_websocket_message_size: usize = match validate_size(
            "server.max_websocket_message_size_bytes",
            self.max_websocket_message_size_bytes,
            MAX_WEBSOCKET_MESSAGE_SIZE_BYTES,
        ) {
            Ok(value) => value,
            Err(e) => {
                return Err(e);
            },
        };
        let max_grpc_concurrent_streams_per_backend: usize = match validate_count(
            "server.max_grpc_concurrent_streams_per_backend",
            self.max_grpc_concurrent_streams_per_backend,
            MAX_GRPC_CONCURRENT_STREAMS_PER_BACKEND,
        ) {
            Ok(value) => value,
            Err(e) => {
                return Err(e);
            },
        };
        Ok(
            ServerConfig {
                listen: self.listen,
                tls_handshake_timeout,
                websocket_upgrade_timeout,
                backend_connect_timeout,
                shutdown_grace,
                max_websocket_message_size,
                max_grpc_concurrent_streams_per_backend,
            },
        )
    }
}

impl ServerConfig {
    pub fn listen(&self) -> (r: SocketAddr)
        ensures
            r@ == self@.listen,
    {
        self.listen
    }

    pub fn tls_handshake_timeout(&self) -> (r: Duration)
        ensures
            r@ == self@.tls_handshake_timeout,
    {
        self.tls_handshake_timeout
    }

    pub fn websocket_upgrade_timeout(&self) -> (r: Duration)
        ensures
            r@ == self@.websocket_upgrade_timeout,
    {
        self.websocket_upgrade_timeout
    }

    pub fn backend_connect_timeout(&self) -> (r: Duration)
        ensures
            r@ == self@.backend_connect_timeout,
    {
        self.backend_connect_timeout
    }

    pub fn shutdown_grace(&self) -> (r: Duration)
        ensures
            r@ == self@.shutdown_grace,
    {
        self.shutdown_grace
    }

    pub fn max_websocket_message_size(&self) -> (r: usize)
        ensures
            r == self@.max_websocket_message_size,
    {
        self.max_websocket_message_size
    }

    pub fn max_grpc_concurrent_streams_per_backend(&self) -> (r: usize)
        ensures
            r == self@.max_grpc_concurrent_streams_per_backend,
    {
        self.max_grpc_concurrent_streams_per_backend
    }
}

/// Every limit of an accepted section is positive and within its maximum.
pub proof fn law_server_limits(file: FileServerModel)
    requires
        server_result(file) is Ok,
    ensures
        ({
            let server = server_result(file)->Ok_0;
            &&& 0 < server.tls_handshake_timeout <= seconds(MAX_TLS_HANDSHAKE_TIMEOUT_SECONDS as nat)
            &&& 0 < server.websocket_upgrade_timeout <= seconds(
                MAX_WEBSOCKET_UPGRADE_TIMEOUT_SECONDS as nat,
            )
            &&& 0 < server.backend_connect_timeout <= seconds(
                MAX_BACKEND_CONNECT_TIMEOUT_SECONDS as nat,
            )
            &&& 0 < server.shutdown_grace <= seconds(MAX_SHUTDOWN_GRACE_SECONDS as nat)
            &&& 0 < server.max_websocket_message_size <= MAX_WEBSOCKET_MESSAGE_SIZE_BYTES
            &&& 0 < server.max_grpc_concurrent_streams_per_backend
                <= MAX_GRPC_CONCURRENT_STREAMS_PER_BACKEND
        }),
{
}

/// A section is accepted exactly where every number is positive and no larger than its limit: five
/// minutes for the timeouts, ten for the grace at shutdown, 64 MiB for a message and 4096 streams.
/// The gateway then runs with just these numbers.
pub proof fn law_server_is_as_the_file_says(file: FileServerModel)
    ensures
        server_result(file) is Ok <==> {
            &&& 1 <= file.tls_handshake_timeout_seconds <= 300
            &&& 1 <= file.websocket_upgrade_timeout_seconds <= 300
            &&& 1 <= file.backend_connect_timeout_seconds <= 300
            &&& 1 <= file.shutdown_grace_seconds <= 600
            &&& 1 <= file.max_websocket_message_size_bytes <= 67_108_864
            &&& 1 <= file.max_grpc_concurrent_streams_per_backend <= 4096
        },
        server_result(file) matches Ok(server) ==> {
            &&& server.listen == file.listen
            &&& server.tls_handshake_timeout == file.tls_handshake_timeout_seconds * 1_000_000_000
            &&& server.websocket_upgrade_timeout == file.websocket_upgrade_timeout_seconds
                * 1_000_000_000
            &&& server.backend_connect_timeout == file.backend_connect_timeout_seconds
                * 1_000_000_000
            &&& server.shutdown_grace == file.shutdown_grace_seconds * 1_000_000_000
            &&& server.max_websocket_message_size == file.max_websocket_message_size_bytes
            &&& server.max_grpc_concurrent_streams_per_backend
                == file.max_grpc_concurrent_streams_per_backend
        },
{
}

/// The first field that is wrong is the one that is told.
pub proof fn law_first_fault_of_the_server_is_told(file: FileServerModel)
    ensures
        ({
            let handshake = 1 <= file.tls_handshake_timeout_seconds <= 300;
            let upgrade = 1 <= file.websocket_upgrade_timeout_seconds <= 300;
            let connect = 1 <= file.backend_connect_timeout_seconds <= 300;
            let grace = 1 <= file.shutdown_grace_seconds <= 600;
            let message = 1 <= file.max_websocket_message_size_bytes <= 67_108_864;
            let told = server_result(file)->Err_0;
            &&& !handshake ==> Some(told) == seconds_error(
                "server.tls_handshake_timeout_seconds"@,
                file.tls_handshake_timeout_seconds,
                300,
            )
            &&& handshake && !upgrade ==> Some(told) == seconds_error(
                "server.websocket_upgrade_timeout_seconds"@,
                file.websocket_upgrade_timeout_seconds,
                300,
            )
            &&& handshake && upgrade && !connect ==> Some(told) == seconds_error(
                "server.backend_connect_timeout_seconds"@,
                file.backend_connect_timeout_seconds,
                300,
            )
            &&& handshake && upgrade && connect && !grace ==> Some(told) == seconds_error(
                "server.shutdown_grace_seconds"@,
                file.shutdown_grace_seconds,
                600,
            )
            &&& handshake && upgrade && connect && grace && !message ==> Some(told) == size_error(
                "server.max_websocket_message_size_bytes"@,
                file.max_websocket_message_size_bytes,
                67_108_864,
            )
            &&& handshake && upgrade && connect && grace && message && !(1
                <= file.max_grpc_concurrent_streams_per_backend <= 4096) ==> Some(told)
                == count_error(
                "server.max_grpc_concurrent_streams_per_backend"@,
                file.max_grpc_concurrent_streams_per_backend,
                4096,
            )
        }),
{
}

} // verus!
