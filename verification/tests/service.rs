use magi_api::service::{DaemonIdentity, HealthDto, ServiceInfo, VersionHandshakeDto};

fn service_info() -> ServiceInfo {
    ServiceInfo {
        service_name: "magi".to_string(),
        api_version: "v0".to_string(),
    }
}

#[test]
fn health_dto_is_derived_from_service_info() {
    let identity = DaemonIdentity {
        product_version: "3.0.51".to_string(),
        build_identity: "commit-test".to_string(),
        startup_nonce: "nonce-test".to_string(),
    };
    let dto = HealthDto::from_service_info(&service_info(), "runtime-test", &identity);

    assert_eq!(dto.status, "ok");
    assert_eq!(dto.service_name, "magi");
    assert_eq!(dto.api_version, "v0");
    assert_eq!(dto.runtime_epoch, "runtime-test");
    assert_eq!(dto.product_version, "3.0.51");
    assert_eq!(dto.build_identity, "commit-test");
    assert_eq!(dto.startup_nonce, "nonce-test");
}

#[test]
fn version_handshake_uses_service_api_version() {
    let identity = DaemonIdentity {
        product_version: "3.0.51".to_string(),
        build_identity: "commit-test".to_string(),
        startup_nonce: "nonce-test".to_string(),
    };
    let dto = VersionHandshakeDto::from_service_info(&service_info(), &identity);

    assert_eq!(dto.service_name, "magi");
    assert_eq!(dto.api_version, "v0");
    assert_eq!(dto.min_supported_ui_version, "v0");
    assert_eq!(dto.host_scope, vec!["vscode", "idea"]);
    assert_eq!(dto.product_version, "3.0.51");
    assert_eq!(dto.build_identity, "commit-test");
    assert_eq!(dto.startup_nonce, "nonce-test");
}

#[test]
fn unknown_identity_reports_unknown_everywhere() {
    let identity = DaemonIdentity::unknown();
    assert_eq!(identity.product_version, "unknown");
    assert_eq!(identity.build_identity, "unknown");
    assert_eq!(identity.startup_nonce, "unknown");
}
