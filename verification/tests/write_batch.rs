use mbc_cms_api::data::roles::{authorization_answer, RoleManager, RolePermission};
use mbc_cms_api::data::store::{PermissionStore, StoreError};
use mbc_cms_api::data::writes::{RoleRef, Step, StoreWrite, WriteBatch};

fn insertion(role: RoleRef, name: &str, level: i64) -> StoreWrite {
    StoreWrite::InsertPermission {
        role,
        permission_name: name.to_string(),
        permission_level: level,
    }
}

fn deletion(role_id: u128, name: &str) -> StoreWrite {
    StoreWrite::DeletePermission { role_id, permission_name: name.to_string() }
}

fn pairs() -> Vec<(String, i64)> {
    vec![("articles.publish".to_string(), 2), ("articles.edit".to_string(), 1)]
}

#[test]
fn attach_batch_writes_between_begin_and_commit() {
    let mut batch: WriteBatch<String> = WriteBatch::attach(9, pairs());
    assert_eq!(batch.step(Ok(())), Step::Begin);
    assert_eq!(batch.step(Ok(())), Step::Write(insertion(RoleRef::Known(9), "articles.publish", 2)));
    assert_eq!(batch.step(Ok(())), Step::Write(insertion(RoleRef::Known(9), "articles.edit", 1)));
    assert_eq!(batch.step(Ok(())), Step::Commit);
    assert_eq!(batch.step(Ok(())), Step::Finished(Ok(())));
}

#[test]
fn create_batch_inserts_the_role_first_and_its_permissions_under_it() {
    let mut batch: WriteBatch<String> = WriteBatch::create("Editor".to_string(), pairs());
    assert_eq!(batch.step(Ok(())), Step::Begin);
    assert_eq!(batch.step(Ok(())), Step::Write(StoreWrite::InsertRole { name: "Editor".to_string() }));
    assert_eq!(batch.step(Ok(())), Step::Write(insertion(RoleRef::Created, "articles.publish", 2)));
    assert_eq!(batch.step(Ok(())), Step::Write(insertion(RoleRef::Created, "articles.edit", 1)));
    assert_eq!(batch.step(Ok(())), Step::Commit);
    assert_eq!(batch.step(Ok(())), Step::Finished(Ok(())));
}

#[test]
fn create_batch_without_permissions_still_commits_the_role() {
    let mut batch: WriteBatch<String> = WriteBatch::create("Guest".to_string(), vec![]);
    assert_eq!(batch.step(Ok(())), Step::Begin);
    assert_eq!(batch.step(Ok(())), Step::Write(StoreWrite::InsertRole { name: "Guest".to_string() }));
    assert_eq!(batch.step(Ok(())), Step::Commit);
    assert_eq!(batch.step(Ok(())), Step::Finished(Ok(())));
}

#[test]
fn refused_write_is_rolled_back_before_the_batch_ends() {
    let mut batch: WriteBatch<String> = WriteBatch::create("Editor".to_string(), pairs());
    assert_eq!(batch.step(Ok(())), Step::Begin);
    assert_eq!(batch.step(Ok(())), Step::Write(StoreWrite::InsertRole { name: "Editor".to_string() }));
    assert_eq!(batch.step(Ok(())), Step::Write(insertion(RoleRef::Created, "articles.publish", 2)));
    assert_eq!(batch.step(Err("foreign key".to_string())), Step::Rollback);
    assert_eq!(batch.step(Ok(())), Step::Finished(Err("foreign key".to_string())));
}

#[test]
fn refusal_is_the_outcome_even_where_the_rollback_fails() {
    let mut batch: WriteBatch<String> = WriteBatch::attach(9, pairs());
    assert_eq!(batch.step(Ok(())), Step::Begin);
    assert_eq!(batch.step(Ok(())), Step::Write(insertion(RoleRef::Known(9), "articles.publish", 2)));
    assert_eq!(batch.step(Err("unique violation".to_string())), Step::Rollback);
    assert_eq!(
        batch.step(Err("connection lost".to_string())),
        Step::Finished(Err("unique violation".to_string()))
    );
}

#[test]
fn refused_role_is_rolled_back() {
    let mut batch: WriteBatch<u8> = WriteBatch::create("Editor".to_string(), pairs());
    assert_eq!(batch.step(Ok(())), Step::Begin);
    assert_eq!(batch.step(Ok(())), Step::Write(StoreWrite::InsertRole { name: "Editor".to_string() }));
    assert_eq!(batch.step(Err(7)), Step::Rollback);
    assert_eq!(batch.step(Ok(())), Step::Finished(Err(7)));
}

#[test]
fn transaction_that_cannot_be_opened_ends_the_batch() {
    let mut batch: WriteBatch<u8> = WriteBatch::attach(9, pairs());
    assert_eq!(batch.step(Ok(())), Step::Begin);
    assert_eq!(batch.step(Err(3)), Step::Finished(Err(3)));
}

#[test]
fn transaction_that_cannot_be_committed_ends_the_batch() {
    let mut batch: WriteBatch<u8> = WriteBatch::attach(9, vec![]);
    assert_eq!(batch.step(Ok(())), Step::Begin);
    assert_eq!(batch.step(Ok(())), Step::Commit);
    assert_eq!(batch.step(Err(5)), Step::Finished(Err(5)));
}

#[test]
fn detach_batch_asks_independent_deletions_in_order() {
    let mut batch: WriteBatch<String> =
        WriteBatch::detach(4, vec!["b".to_string(), "a".to_string(), "b".to_string()]);
    assert_eq!(batch.step(Ok(())), Step::Write(deletion(4, "b")));
    assert_eq!(batch.step(Ok(())), Step::Write(deletion(4, "a")));
    assert_eq!(batch.step(Ok(())), Step::Write(deletion(4, "b")));
    assert_eq!(batch.step(Ok(())), Step::Finished(Ok(())));
}

#[test]
fn failed_deletion_ends_the_batch_without_a_rollback() {
    let mut batch: WriteBatch<String> = WriteBatch::detach(4, vec!["b".to_string(), "a".to_string()]);
    assert_eq!(batch.step(Ok(())), Step::Write(deletion(4, "b")));
    assert_eq!(
        batch.step(Err("connection lost".to_string())),
        Step::Finished(Err("connection lost".to_string()))
    );
}

#[test]
fn empty_detach_batch_is_over_at_once() {
    let mut batch: WriteBatch<String> = WriteBatch::detach(1, vec![]);
    assert_eq!(batch.step(Ok(())), Step::Finished(Ok(())));
}

#[test]
fn store_applies_the_writes_of_a_batch() {
    let mut store = PermissionStore::new();
    let created = store.apply(StoreWrite::InsertRole { name: "Editor".to_string() }, 0, 3);
    assert_eq!(created, Ok(0));
    assert_eq!(store.apply(insertion(RoleRef::Created, "articles.edit", 1), 0, 4), Ok(0));
    assert_eq!(store.apply(insertion(RoleRef::Known(0), "articles.publish", 2), 0, 5), Ok(0));
    assert_eq!(
        store.apply(insertion(RoleRef::Known(1), "articles.edit", 1), 0, 6),
        Err(StoreError::RoleNotFound)
    );
    assert_eq!(
        store.apply(insertion(RoleRef::Created, "articles.edit", 1), 8, 6),
        Err(StoreError::RoleNotFound)
    );
    let listed = store.list_permissions(0);
    assert_eq!(listed.len(), 2);
    assert_eq!(listed[1].permission_name, "articles.publish");
    assert_eq!(listed[1].created_at, 5);
    assert_eq!(store.apply(deletion(0, "articles.edit"), 0, 0), Ok(0));
    assert_eq!(store.apply(deletion(0, "never.there"), 0, 0), Ok(0));
    let listed = store.list_permissions(0);
    assert_eq!(listed.len(), 1);
    assert_eq!(listed[0].permission_name, "articles.publish");
}

#[test]
fn batch_driven_by_hand_does_what_the_manager_does() {
    let mut manager = RoleManager::init();
    manager.create_role_with_permissions("Editor".to_string(), pairs(), 11).unwrap();

    let mut store = PermissionStore::new();
    let mut batch: WriteBatch<StoreError> = WriteBatch::create("Editor".to_string(), pairs());
    let mut created = 0;
    let mut answer = Ok(());
    let outcome = loop {
        answer = match batch.step(answer) {
            Step::Write(write) => store.apply(write, created, 11).map(|role| created = role),
            Step::Finished(outcome) => break outcome,
            _ => Ok(()),
        };
    };
    assert_eq!(outcome, Ok(()));
    assert_eq!(store.list_roles(), manager.store().list_roles());
    assert_eq!(store.list_permissions(0), manager.get_role_permissions(0).unwrap());
}

#[test]
fn authorization_answer_never_turns_a_failure_into_a_denial() {
    let name = "articles.edit".to_string();
    let rows = vec![RolePermission {
        id: 1,
        role_id: 0,
        permission_name: "articles.edit".to_string(),
        permission_level: 1,
        created_at: 0,
        updated_at: 0,
    }];
    assert_eq!(authorization_answer::<String>(Ok(rows), &name, 1), Ok(true));
    assert_eq!(authorization_answer::<String>(Ok(vec![]), &name, 1), Ok(false));
    assert_eq!(
        authorization_answer(Err("connection lost".to_string()), &name, 1),
        Err("connection lost".to_string())
    );
}
