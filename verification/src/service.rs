//! Service identity, health and version handshake descriptors.

use vstd::prelude::*;
use crate::text::str_to_string;

verus! {

/// The daemon build and run identity reported to clients.
#[derive(Clone, Debug)]
pub struct DaemonIdentity {
    pub product_version: String,
    pub build_identity: String,
    pub startup_nonce: String,
}

/// The name and API version of the service.
#[derive(Clone, Debug)]
pub struct ServiceInfo {
    pub service_name: String,
    pub api_version: String,
}

/// The health report.
#[derive(Clone, Debug)]
pub struct HealthDto {
    pub status: String,
    pub service_name: String,
    pub api_version: String,
    pub runtime_epoch: String,
    pub product_version: String,
    pub build_identity: String,
    pub startup_nonce: String,
}

/// The version handshake offered to host UIs.
#[derive(Clone, Debug)]
pub struct VersionHandshakeDto {
    pub service_name: String,
    pub api_version: String,
    pub min_supported_ui_version: String,
    pub host_scope: Vec<String>,
    pub product_version: String,
    pub build_identity: String,
    pub startup_nonce: String,
}

impl DaemonIdentity {
    /// The identity used when the build does not report one.
    pub fn unknown() -> (id: Self)
        ensures
            id.product_version@ == "unknown"@,
            id.build_identity@ == "unknown"@,
            id.startup_nonce@ == "unknown"@,
    {
        DaemonIdentity {
            product_version: str_to_string("unknown"),
            build_identity: str_to_string("unknown"),
            startup_nonce: str_to_string("unknown"),
        }
    }
}

impl HealthDto {
    /// A healthy (`"ok"`) report carrying the service and identity fields.
    pub fn from_service_info(
        service_info: &ServiceInfo,
        runtime_epoch: &str,
        identity: &DaemonIdentity,
    ) -> (dto: Self)
        ensures
            dto.status@ == "ok"@,
            dto.service_name@ == service_info.service_name@,
            dto.api_version@ == service_info.api_version@,
            dto.runtime_epoch@ == runtime_epoch@,
            dto.product_version@ == identity.product_version@,
            dto.build_identity@ == identity.build_identity@,
            dto.startup_nonce@ == identity.startup_nonce@,
    {
        HealthDto {
            status: str_to_string("ok"),
            service_name: service_info.service_name.clone(),
            api_version: service_info.api_version.clone(),
            runtime_epoch: str_to_string(runtime_epoch),
            product_version: identity.product_version.clone(),
            build_identity: identity.build_identity.clone(),
            startup_nonce: identity.startup_nonce.clone(),
        }
    }
}

impl VersionHandshakeDto {
    /// The handshake: UI versions from `"v0"` on, hosts `vscode` and `idea`.
    pub fn from_service_info(service_info: &ServiceInfo, identity: &DaemonIdentity) -> (dto: Self)
        ensures
            dto.service_name@ == service_info.service_name@,
            dto.api_version@ == service_info.api_version@,
            dto.min_supported_ui_version@ == "v0"@,
            dto.host_scope@.len() == 2,
            dto.host_scope@[0]@ == "vscode"@,
            dto.host_scope@[1]@ == "idea"@,
            dto.product_version@ == identity.product_version@,
            dto.build_identity@ == identity.build_identity@,
            dto.startup_nonce@ == identity.startup_nonce@,
    {
        let mut host_scope: Vec<String> = Vec::new();
        host_scope.push(str_to_string("vscode"));
        host_scope.push(str_to_string("idea"));
        VersionHandshakeDto {
            service_name: service_info.service_name.clone(),
            api_version: service_info.api_version.clone(),
            min_supported_ui_version: str_to_string("v0"),
            host_scope,
            product_version: identity.product_version.clone(),
            build_identity: identity.build_identity.clone(),
            startup_nonce: identity.startup_nonce.clone(),
        }
    }
}

} // verus!
