use mbc_cms_api::data::roles::{AuthorizationError, RoleManager, RolePermission};
use mbc_cms_api::data::store::{PermissionStore, StoreError};

const NOW: i64 = 1_700_000_000_000_000;

fn grant(name: &str, level: i64) -> (String, i64) {
    (name.to_string(), level)
}

fn names_and_levels(rows: &[RolePermission]) -> Vec<(String, i64)> {
    rows.iter().map(|row| (row.permission_name.clone(), row.permission_level)).collect()
}

fn editor() -> (RoleManager, u128) {
    let mut manager = RoleManager::init();
    manager
        .create_role_with_permissions(
            "Editor".to_string(),
            vec![grant("articles.publish", 2), grant("articles.edit", 1)],
            NOW,
        )
        .unwrap();
    let roles = manager.store().list_roles();
    let role = roles.iter().find(|role| role.name == "Editor").unwrap();
    (manager, role.id)
}

#[test]
fn editor_scenario_grants_exact_level_only() {
    let (manager, editor) = editor();
    assert_eq!(manager.has_permissions(editor, "articles.edit".to_string(), 1), Ok(true));
    assert_eq!(manager.has_permissions(editor, "articles.edit".to_string(), 2), Ok(false));
    assert_eq!(manager.has_permissions(editor, "comments.delete".to_string(), 0), Ok(false));
}

#[test]
fn editor_scenario_remove_publish() {
    let (mut manager, editor) = editor();
    assert_eq!(manager.has_permissions(editor, "articles.publish".to_string(), 2), Ok(true));
    assert_eq!(manager.remove_role_permissions(editor, vec!["articles.publish".to_string()]), Ok(()));
    assert_eq!(manager.has_permissions(editor, "articles.publish".to_string(), 2), Ok(false));
    let listed = manager.get_role_permissions(editor).unwrap();
    assert_eq!(names_and_levels(&listed), vec![grant("articles.edit", 1)]);
}

#[test]
fn duplicate_name_first_inserted_row_decides() {
    let mut manager = RoleManager::init();
    manager
        .create_role_with_permissions(
            "Moderator".to_string(),
            vec![grant("comments.delete", 1), grant("comments.delete", 2)],
            NOW,
        )
        .unwrap();
    assert_eq!(manager.has_permissions(0, "comments.delete".to_string(), 1), Ok(true));
    assert_eq!(manager.has_permissions(0, "comments.delete".to_string(), 2), Ok(false));
    let listed = manager.get_role_permissions(0).unwrap();
    assert_eq!(
        names_and_levels(&listed),
        vec![grant("comments.delete", 1), grant("comments.delete", 2)]
    );
}

#[test]
fn duplicate_name_added_later_stays_shadowed() {
    let (mut manager, editor) = editor();
    manager.create_role_permissions(editor, vec![grant("articles.edit", 5)], NOW + 1).unwrap();
    assert_eq!(manager.has_permissions(editor, "articles.edit".to_string(), 1), Ok(true));
    assert_eq!(manager.has_permissions(editor, "articles.edit".to_string(), 5), Ok(false));
}

#[test]
fn created_role_lists_exactly_the_inserted_pairs() {
    let mut manager = RoleManager::init();
    manager.create_role_with_permissions("Reader".to_string(), vec![grant("articles.read", 1)], NOW).unwrap();
    let wanted = vec![grant("media.upload", 3), grant("articles.edit", 1), grant("articles.publish", 2)];
    manager.create_role_with_permissions("Author".to_string(), wanted.clone(), NOW + 5).unwrap();
    let roles = manager.store().list_roles();
    assert_eq!(roles.len(), 2);
    assert_eq!(roles[1].name, "Author");
    let author = roles[1].id;
    let listed = manager.get_role_permissions(author).unwrap();
    assert_eq!(names_and_levels(&listed), wanted);
    let reader = manager.get_role_permissions(roles[0].id).unwrap();
    assert_eq!(names_and_levels(&reader), vec![grant("articles.read", 1)]);
}

#[test]
fn created_rows_carry_identifiers_owner_and_time() {
    let (manager, editor) = editor();
    assert_eq!(editor, 0);
    let role = manager.get_role(editor).unwrap().unwrap();
    assert_eq!(role.id, 0);
    assert_eq!(role.name, "Editor");
    assert_eq!(role.created_at, NOW);
    assert_eq!(role.updated_at, NOW);
    let listed = manager.get_role_permissions(editor).unwrap();
    assert_eq!(
        listed,
        vec![
            RolePermission {
                id: 1,
                role_id: 0,
                permission_name: "articles.publish".to_string(),
                permission_level: 2,
                created_at: NOW,
                updated_at: NOW,
            },
            RolePermission {
                id: 2,
                role_id: 0,
                permission_name: "articles.edit".to_string(),
                permission_level: 1,
                created_at: NOW,
                updated_at: NOW,
            },
        ]
    );
}

#[test]
fn role_without_permissions_lists_nothing() {
    let mut manager = RoleManager::init();
    assert_eq!(manager.create_role_with_permissions("Guest".to_string(), vec![], NOW), Ok(()));
    assert_eq!(manager.get_role_permissions(0).unwrap(), vec![]);
    assert_eq!(manager.has_permissions(0, "articles.read".to_string(), 0), Ok(false));
}

#[test]
fn has_permissions_is_true_iff_a_row_with_name_and_level_exists() {
    let (manager, editor) = editor();
    let rows = manager.get_role_permissions(editor).unwrap();
    for name in ["articles.publish", "articles.edit", "comments.delete", ""] {
        for level in -1..4 {
            let exists = rows.iter().any(|row| row.permission_name == name && row.permission_level == level);
            assert_eq!(manager.has_permissions(editor, name.to_string(), level), Ok(exists));
        }
    }
}

#[test]
fn has_permissions_levels_are_not_ranks() {
    let (manager, editor) = editor();
    assert_eq!(manager.has_permissions(editor, "articles.publish".to_string(), 1), Ok(false));
    assert_eq!(manager.has_permissions(editor, "articles.publish".to_string(), 3), Ok(false));
    assert_eq!(manager.has_permissions(editor, "articles.publish".to_string(), 2), Ok(true));
}

#[test]
fn has_permissions_of_unknown_role_is_denied_not_an_error() {
    let (manager, editor) = editor();
    assert_eq!(manager.has_permissions(editor + 40, "articles.edit".to_string(), 1), Ok(false));
    assert_eq!(manager.get_role(editor + 40), Ok(None));
    assert_eq!(manager.get_role_permissions(editor + 40), Ok(vec![]));
}

#[test]
fn has_permissions_does_not_cross_roles() {
    let (mut manager, editor) = editor();
    manager.create_role_with_permissions("Reader".to_string(), vec![grant("articles.read", 1)], NOW).unwrap();
    let reader = manager.store().list_roles()[1].id;
    assert_eq!(manager.has_permissions(reader, "articles.read".to_string(), 1), Ok(true));
    assert_eq!(manager.has_permissions(reader, "articles.edit".to_string(), 1), Ok(false));
    assert_eq!(manager.has_permissions(editor, "articles.read".to_string(), 1), Ok(false));
}

#[test]
fn removing_a_name_never_added_changes_nothing() {
    let (mut manager, editor) = editor();
    let before = manager.get_role_permissions(editor).unwrap();
    assert_eq!(manager.remove_role_permissions(editor, vec!["comments.delete".to_string()]), Ok(()));
    assert_eq!(manager.get_role_permissions(editor).unwrap(), before);
    assert_eq!(manager.remove_role_permissions(editor + 1, vec!["articles.edit".to_string()]), Ok(()));
    assert_eq!(manager.get_role_permissions(editor).unwrap(), before);
    assert_eq!(manager.remove_role_permissions(editor, vec![]), Ok(()));
    assert_eq!(manager.get_role_permissions(editor).unwrap(), before);
}

#[test]
fn removing_twice_is_the_same_as_once() {
    let (mut manager, editor) = editor();
    assert_eq!(manager.remove_role_permissions(editor, vec!["articles.edit".to_string()]), Ok(()));
    let once = manager.get_role_permissions(editor).unwrap();
    assert_eq!(names_and_levels(&once), vec![grant("articles.publish", 2)]);
    assert_eq!(manager.remove_role_permissions(editor, vec!["articles.edit".to_string()]), Ok(()));
    assert_eq!(manager.get_role_permissions(editor).unwrap(), once);
    assert_eq!(manager.has_permissions(editor, "articles.edit".to_string(), 1), Ok(false));
}

#[test]
fn removing_a_name_removes_every_row_of_it() {
    let (mut manager, editor) = editor();
    manager
        .create_role_permissions(editor, vec![grant("articles.edit", 4), grant("media.upload", 1)], NOW)
        .unwrap();
    manager
        .remove_role_permissions(editor, vec!["articles.edit".to_string(), "articles.publish".to_string()])
        .unwrap();
    let listed = manager.get_role_permissions(editor).unwrap();
    assert_eq!(names_and_levels(&listed), vec![grant("media.upload", 1)]);
}

#[test]
fn removing_spares_other_roles() {
    let (mut manager, editor) = editor();
    manager.create_role_with_permissions("Curator".to_string(), vec![grant("articles.edit", 1)], NOW).unwrap();
    let curator = manager.store().list_roles()[1].id;
    manager.remove_role_permissions(editor, vec!["articles.edit".to_string()]).unwrap();
    assert_eq!(manager.has_permissions(curator, "articles.edit".to_string(), 1), Ok(true));
    assert_eq!(manager.has_permissions(editor, "articles.edit".to_string(), 1), Ok(false));
}

#[test]
fn adding_permissions_appends_in_order() {
    let (mut manager, editor) = editor();
    assert_eq!(
        manager.create_role_permissions(editor, vec![grant("media.upload", 1), grant("users.invite", 7)], NOW + 9),
        Ok(())
    );
    let listed = manager.get_role_permissions(editor).unwrap();
    assert_eq!(
        names_and_levels(&listed),
        vec![
            grant("articles.publish", 2),
            grant("articles.edit", 1),
            grant("media.upload", 1),
            grant("users.invite", 7)
        ]
    );
    assert_eq!(listed[2].id, 3);
    assert_eq!(listed[3].id, 4);
    assert_eq!(listed[3].role_id, editor);
    assert_eq!(listed[3].created_at, NOW + 9);
}

#[test]
fn adding_permissions_to_a_missing_role_is_refused() {
    let (mut manager, editor) = editor();
    let outcome = manager.create_role_permissions(editor + 1, vec![grant("media.upload", 1)], NOW);
    assert_eq!(outcome, Err(AuthorizationError { source: StoreError::RoleNotFound }));
    assert_eq!(manager.get_role_permissions(editor + 1), Ok(vec![]));
    assert_eq!(manager.get_role_permissions(editor).unwrap().len(), 2);
}

#[test]
fn adding_no_permissions_to_a_missing_role_writes_nothing_and_succeeds() {
    let mut manager = RoleManager::init();
    assert_eq!(manager.create_role_permissions(12, vec![], NOW), Ok(()));
    assert_eq!(manager.store().list_roles(), vec![]);
}

#[test]
fn creating_a_role_without_identifiers_left_is_refused() {
    let mut manager = RoleManager::over(PermissionStore::starting_at(u128::MAX));
    let outcome = manager.create_role_with_permissions("Editor".to_string(), vec![grant("articles.edit", 1)], NOW);
    assert_eq!(outcome, Err(AuthorizationError { source: StoreError::IdentifiersExhausted }));
    assert_eq!(manager.store().list_roles(), vec![]);
}

#[test]
fn creation_that_would_be_refused_partway_leaves_nothing_behind() {
    let first = u128::MAX - 2;
    let mut manager = RoleManager::over(PermissionStore::starting_at(first));
    let outcome = manager.create_role_with_permissions(
        "Editor".to_string(),
        vec![grant("articles.publish", 2), grant("articles.edit", 1)],
        NOW,
    );
    assert_eq!(outcome, Err(AuthorizationError { source: StoreError::IdentifiersExhausted }));
    assert_eq!(manager.store().list_roles(), vec![]);
    assert_eq!(manager.get_role(first), Ok(None));
    assert_eq!(manager.get_role_permissions(first), Ok(vec![]));
    assert_eq!(manager.store().identifiers_left(), 2);
    assert_eq!(manager.has_permissions(first, "articles.publish".to_string(), 2), Ok(false));
}

#[test]
fn creation_writes_everything_when_it_fits() {
    let first = u128::MAX - 2;
    let mut manager = RoleManager::over(PermissionStore::starting_at(first));
    let outcome = manager.create_role_with_permissions(
        "Editor".to_string(),
        vec![grant("articles.publish", 2)],
        NOW,
    );
    assert_eq!(outcome, Ok(()));
    assert_eq!(manager.get_role(first).unwrap().unwrap().name, "Editor");
    let listed = manager.get_role_permissions(first).unwrap();
    assert_eq!(names_and_levels(&listed), vec![grant("articles.publish", 2)]);
    assert_eq!(listed[0].id, u128::MAX - 1);
    assert_eq!(manager.store().identifiers_left(), 0);
}

#[test]
fn creation_without_permissions_needs_one_identifier() {
    let mut manager = RoleManager::over(PermissionStore::starting_at(u128::MAX));
    let outcome = manager.create_role_with_permissions("Editor".to_string(), vec![], NOW);
    assert_eq!(outcome, Err(AuthorizationError { source: StoreError::IdentifiersExhausted }));
    assert_eq!(manager.store().list_roles(), vec![]);
    let mut manager = RoleManager::over(PermissionStore::starting_at(u128::MAX - 1));
    assert_eq!(manager.create_role_with_permissions("Editor".to_string(), vec![], NOW), Ok(()));
    assert_eq!(manager.store().list_roles().len(), 1);
}

#[test]
fn addition_writes_all_or_nothing() {
    let first = u128::MAX - 3;
    let mut manager = RoleManager::over(PermissionStore::starting_at(first));
    manager.create_role_with_permissions("Editor".to_string(), vec![], NOW).unwrap();
    let too_many = vec![grant("a", 1), grant("b", 2), grant("c", 3)];
    assert_eq!(
        manager.create_role_permissions(first, too_many, NOW),
        Err(AuthorizationError { source: StoreError::IdentifiersExhausted })
    );
    assert_eq!(manager.get_role_permissions(first), Ok(vec![]));
    assert_eq!(manager.store().identifiers_left(), 2);
    assert_eq!(manager.create_role_permissions(first, vec![grant("a", 1), grant("b", 2)], NOW), Ok(()));
    let listed = manager.get_role_permissions(first).unwrap();
    assert_eq!(names_and_levels(&listed), vec![grant("a", 1), grant("b", 2)]);
}

#[test]
fn addition_to_a_missing_role_reports_the_role_before_the_identifiers() {
    let mut manager = RoleManager::over(PermissionStore::starting_at(u128::MAX));
    assert_eq!(
        manager.create_role_permissions(3, vec![grant("media.upload", 1)], NOW),
        Err(AuthorizationError { source: StoreError::RoleNotFound })
    );
}

#[test]
fn init_starts_empty() {
    let manager = RoleManager::init();
    assert_eq!(manager.store().list_roles(), vec![]);
    assert_eq!(manager.get_role(0), Ok(None));
    assert_eq!(manager.get_role_permissions(0), Ok(vec![]));
}


#[test]
fn later_rows_of_a_name_do_not_unsettle_the_first() {
    let mut manager = RoleManager::init();
    manager
        .create_role_with_permissions(
            "Moderator".to_string(),
            vec![grant("comments.delete", 1), grant("comments.delete", 2), grant("comments.delete", 1)],
            NOW,
        )
        .unwrap();
    assert_eq!(manager.has_permissions(0, "comments.delete".to_string(), 1), Ok(true));
    assert_eq!(manager.has_permissions(0, "comments.delete".to_string(), 2), Ok(false));
    assert_eq!(manager.has_permissions(0, "comments.delete".to_string(), 3), Ok(false));
}
