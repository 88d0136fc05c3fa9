use ssp_backend::access_control::AccessControlService;
use ssp_backend::config::{ConfigRepository, ConfigService};
use ssp_backend::principal::UserPrincipal;

fn principal(tag: u8) -> UserPrincipal {
    UserPrincipal::from_bytes(vec![tag, 1, 2, 3])
}

#[test]
fn test_get_config_not_controller() {
    let access = AccessControlService::new();
    let res = access.assert_principal_is_controller(false).unwrap_err();
    assert!(res.contains("Caller is not a controller"));
}

#[test]
fn test_get_config() {
    let access = AccessControlService::new();
    access.assert_principal_is_controller(true).unwrap();
    let repo = ConfigRepository::new();
    let service = ConfigService::new();
    let config = service.get_config(&repo);
    assert!(config.backend_principal.is_none());
}

#[test]
fn test_set_backend_principal_not_controller() {
    let access = AccessControlService::new();
    let res = access.assert_principal_is_controller(false).unwrap_err();
    assert!(res.contains("Caller is not a controller"));
}

#[test]
fn test_set_backend_principal_anonymous() {
    let mut repo = ConfigRepository::new();
    let service = ConfigService::new();
    let res = service
        .set_backend_principal(&mut repo, UserPrincipal::anonymous())
        .unwrap_err();
    assert!(res.contains("Backend principal cannot be anonymous"));
}

#[test]
fn test_set_backend_principal() {
    let mut repo = ConfigRepository::new();
    let service = ConfigService::new();
    let original = service.get_config(&repo);
    assert!(original.backend_principal.is_none());

    let backend = principal(9);
    service.set_backend_principal(&mut repo, backend.duplicate()).unwrap();
    let updated = service.get_config(&repo);
    assert!(updated.backend_principal.unwrap().equals(&backend));
}

#[test]
fn test_backend_classification() {
    let mut config = ConfigRepository::new();
    let users = ssp_backend::user::UserRepository::new();
    let access = AccessControlService::new();
    let service = ConfigService::new();

    let backend = principal(9);
    let stranger = principal(7);

    // before any set, nobody is the backend
    let res = access.assert_principal_is_backend(&config, &backend).unwrap_err();
    assert!(res.contains("Backend principal not set"));

    service.set_backend_principal(&mut config, backend.duplicate()).unwrap();
    access.assert_principal_is_backend(&config, &backend).unwrap();
    let res = access.assert_principal_is_backend(&config, &stranger).unwrap_err();
    assert!(res.contains("Caller is not the backend"));

    // the backend is unrestricted; a stranger is rejected
    assert!(access
        .assert_principal_is_user_or_backend(&config, &users, &backend)
        .unwrap()
        .is_none());
    let res = access
        .assert_principal_is_user_or_backend(&config, &users, &stranger)
        .unwrap_err();
    assert!(res.contains("Caller is not the backend or a registered user"));
}
