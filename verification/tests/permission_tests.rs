//! Permission and role string construction.

use appwrite::{Permission, Role};

#[test]
fn permission_test_permissions() {
    assert_eq!(Permission::read("user:123"), r#"read("user:123")"#);
    assert_eq!(Permission::write("team:456"), r#"write("team:456")"#);
    assert_eq!(Permission::create("any"), r#"create("any")"#);
    assert_eq!(Permission::update("users"), r#"update("users")"#);
    assert_eq!(Permission::delete("guests"), r#"delete("guests")"#);
}

#[test]
fn permission_test_roles() {
    assert_eq!(Role::any(), "any");
    assert_eq!(Role::user("123"), "user:123");
    assert_eq!(Role::users(), "users");
    assert_eq!(Role::guests(), "guests");
    assert_eq!(Role::team("456"), "team:456");
    assert_eq!(Role::team_with_role("456", "admin"), "team:456:admin");
    assert_eq!(Role::member("789"), "member:789");
    assert_eq!(Role::label("vip"), "label:vip");
}

#[test]
fn integration_test_test_permissions() {
    let read_perm = Permission::read(&Role::any());
    assert_eq!(read_perm, r#"read("any")"#);

    let write_perm = Permission::write(&Role::user("123"));
    assert_eq!(write_perm, r#"write("user:123")"#);

    let team_perm = Permission::update(&Role::team("team-123"));
    assert_eq!(team_perm, r#"update("team:team-123")"#);
}

#[test]
fn integration_test_test_roles() {
    assert_eq!(Role::any(), "any");
    assert_eq!(Role::users(), "users");
    assert_eq!(Role::guests(), "guests");
    assert_eq!(Role::user("123"), "user:123");
    assert_eq!(Role::team("team-123"), "team:team-123");
    assert_eq!(Role::team_with_role("team-123", "admin"), "team:team-123:admin");
}

#[test]
fn permission_with_empty_role() {
    assert_eq!(Permission::read(""), r#"read("")"#);
    assert_eq!(Role::label(""), "label:");
}
