use ssp_backend::principal::UserPrincipal;
use ssp_backend::user::{User, UserRepository, UserService};

const NOW_S: u64 = 1704063600;
const DB_A: &str = "8c8471a5-b91a-4b8b-9e24-219136ea2b76";
const DB_B: &str = "ccb31f93-1a16-4089-bc84-1822ae591da2";

fn principal(tag: u8) -> UserPrincipal {
    UserPrincipal::from_bytes(vec![tag])
}

#[test]
fn test_get_my_user_no_user() {
    let users = UserRepository::new();
    let service = UserService::new();
    assert!(service.get_user(&users, &principal(1)).is_none());
}

#[test]
fn test_get_my_user() {
    let mut users = UserRepository::new();
    let service = UserService::new();
    let me = principal(1);
    users
        .create_user(me.duplicate(), User::new("test_sub".to_string(), DB_A, NOW_S).unwrap())
        .unwrap();
    let user = service.get_user(&users, &me).unwrap();
    assert_eq!(user.jwt_sub, "test_sub");
    assert_eq!(user.db_id.to_string(), DB_A);
    assert_eq!(user.created_at.to_string(), "2023-12-31T23:00:00+00:00");
}

#[test]
fn test_get_my_user_wrong_identity() {
    let mut users = UserRepository::new();
    let service = UserService::new();
    users
        .create_user(principal(1), User::new("test_sub".to_string(), DB_A, NOW_S).unwrap())
        .unwrap();
    assert!(service.get_user(&users, &principal(2)).is_none());
}

#[test]
fn test_get_my_user_anonymous() {
    let mut users = UserRepository::new();
    let service = UserService::new();
    users
        .create_user(principal(1), User::new("test_sub".to_string(), DB_A, NOW_S).unwrap())
        .unwrap();
    assert!(service.get_user(&users, &UserPrincipal::anonymous()).is_none());
}

#[test]
fn create_user_rejects_duplicate_sub() {
    let mut users = UserRepository::new();
    users
        .create_user(principal(1), User::new("sub_x".to_string(), DB_A, NOW_S).unwrap())
        .unwrap();
    let err = users
        .create_user(principal(2), User::new("sub_x".to_string(), DB_B, NOW_S).unwrap())
        .unwrap_err();
    assert_eq!(err, "User with sub sub_x already exists");
    assert_eq!(users.entries.len(), 1);
}

#[test]
fn create_user_rejects_duplicate_db_id() {
    let mut users = UserRepository::new();
    users
        .create_user(principal(1), User::new("sub_x".to_string(), DB_A, NOW_S).unwrap())
        .unwrap();
    let err = users
        .create_user(principal(2), User::new("sub_y".to_string(), DB_A, NOW_S).unwrap())
        .unwrap_err();
    assert_eq!(err, format!("User with database id {} already exists", DB_A));
}

#[test]
fn lookups_agree_on_all_three_identities() {
    let mut users = UserRepository::new();
    let me = principal(7);
    users
        .create_user(me.duplicate(), User::new("sub_z".to_string(), DB_B, NOW_S).unwrap())
        .unwrap();
    let by_principal = users.get_user_by_principal(&me).unwrap();
    let (p_by_sub, by_sub) = users.get_user_by_sub("sub_z").unwrap();
    let (p_by_id, by_id) = users
        .get_user_by_db_id(&ssp_backend::uuid::Uuid::try_from_text(DB_B).unwrap())
        .unwrap();
    assert!(p_by_sub.equals(&me));
    assert!(p_by_id.equals(&me));
    assert_eq!(by_principal.jwt_sub, by_sub.jwt_sub);
    assert_eq!(by_sub.db_id, by_id.db_id);
}

#[test]
fn create_user_rejects_duplicate_principal() {
    let mut users = UserRepository::new();
    let me = principal(3);
    users
        .create_user(me.duplicate(), User::new("sub_a".to_string(), DB_A, NOW_S).unwrap())
        .unwrap();
    let err = users
        .create_user(me.duplicate(), User::new("sub_b".to_string(), DB_B, NOW_S).unwrap())
        .unwrap_err();
    assert!(err.starts_with("User with principal "));
    assert!(err.ends_with(" already exists"));
    assert_eq!(users.entries.len(), 1);
}
