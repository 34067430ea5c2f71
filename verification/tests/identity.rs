use mbc_cms_api::data::entities::user::User;
use mbc_cms_api::data::roles::RoleManager;

fn user(email: &str, role: u128) -> User {
    User {
        id: 7,
        email: email.to_string(),
        role,
        active: true,
        mfa_enabled: false,
        mfa_verified: false,
        mfa_secret: String::new(),
        created_at: 0,
        updated_at: 0,
    }
}

#[test]
fn system_admin_is_the_configured_email() {
    let admin_email = "admin@example.org".to_string();
    assert!(user("admin@example.org", 3).is_system_admin(&admin_email));
    assert!(!user("editor@example.org", 3).is_system_admin(&admin_email));
    assert!(!user("Admin@example.org", 3).is_system_admin(&admin_email));
    assert!(!user("admin@example.org ", 3).is_system_admin(&admin_email));
    assert!(!user("", 3).is_system_admin(&admin_email));
}

#[test]
fn system_admin_does_not_depend_on_role_or_state() {
    let admin_email = "admin@example.org".to_string();
    for role in [0, 1, u128::MAX] {
        assert!(user("admin@example.org", role).is_system_admin(&admin_email));
        assert!(!user("other@example.org", role).is_system_admin(&admin_email));
    }
    let mut inactive = user("admin@example.org", 0);
    inactive.active = false;
    inactive.mfa_enabled = true;
    assert!(inactive.is_system_admin(&admin_email));
}

#[test]
fn system_admin_is_not_granted_by_a_permission_row() {
    let admin_email = "admin@example.org".to_string();
    let mut manager = RoleManager::init();
    manager
        .create_role_with_permissions(
            "Operators".to_string(),
            vec![("system.administrator".to_string(), 9), ("admin@example.org".to_string(), 9)],
            0,
        )
        .unwrap();
    let operator = user("operator@example.org", 0);
    assert_eq!(manager.has_permissions(operator.role, "system.administrator".to_string(), 9), Ok(true));
    assert!(!operator.is_system_admin(&admin_email));
    let admin = user("admin@example.org", 55);
    assert_eq!(manager.has_permissions(admin.role, "system.administrator".to_string(), 9), Ok(false));
    assert!(admin.is_system_admin(&admin_email));
}
