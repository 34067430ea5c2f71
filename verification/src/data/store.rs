//! The permission store held in memory: the tables of roles and of
//! permission rows, with the operations that create, read and delete them.

use crate::data::roles::{Role, RolePermission, RolePermissionView, RoleView};
use crate::data::laws::lemma_filter_keeps_wf;
use crate::data::state::{contains_role, other_than, owned_by, StoreState};
use crate::data::writes::{RoleRef, StoreWrite};
use vstd::prelude::*;

verus! {

/// Why the store refused a write.
#[derive(Debug, Clone, Copy, PartialEq, Eq)]
pub enum StoreError {
    /// The row names a role that the store does not hold.
    RoleNotFound,
    /// Every identifier has been handed out; no further row can be created.
    IdentifiersExhausted,
}

/// The views of a vector of roles, element by element.
pub open spec fn roles_view(roles: Seq<Role>) -> Seq<RoleView> {
    Seq::new(roles.len(), |i: int| roles[i]@)
}

/// The views of a vector of permission rows, element by element.
pub open spec fn rows_view(rows: Seq<RolePermission>) -> Seq<RolePermissionView> {
    Seq::new(rows.len(), |i: int| rows[i]@)
}

/// A permission store held in memory.
pub struct PermissionStore {
    roles: Vec<Role>,
    permissions: Vec<RolePermission>,
    next_id: u128,
}

impl View for PermissionStore {
    type V = StoreState;

    closed spec fn view(&self) -> StoreState {
        StoreState {
            roles: roles_view(self.roles@),
            permissions: rows_view(self.permissions@),
            next_id: self.next_id,
        }
    }
}

impl PermissionStore {
    /// Whether the store's content meets the store invariant.
    pub open spec fn wf(&self) -> bool {
        self@.wf()
    }

    /// An empty store whose first row receives the identifier 0.
    pub fn new() -> (store: PermissionStore)
        ensures
            store@ == StoreState::starting_at(0),
            store.wf(),
    {
        PermissionStore::starting_at(0)
    }

    /// An empty store whose first row receives the identifier `first_id`.
    pub fn starting_at(first_id: u128) -> (store: PermissionStore)
        ensures
            store@ == StoreState::starting_at(first_id),
            store.wf(),
    {
        let store = PermissionStore { roles: Vec::new(), permissions: Vec::new(), next_id: first_id };
        assert(store@.roles =~= Seq::empty());
        assert(store@.permissions =~= Seq::empty());
        store
    }

    /// How many rows the store can still create before its identifiers are
    /// exhausted.
    pub fn identifiers_left(&self) -> (left: u128)
        ensures
            left == u128::MAX - self@.next_id,
    {
        u128::MAX - self.next_id
    }

    /// Whether the store holds a role with this identifier.
    pub fn has_role(&self, role_id: u128) -> (found: bool)
        ensures
            found == self@.has_role(role_id),
    {
        let mut i: usize = 0;
        while i < self.roles.len()
            invariant
                i <= self.roles.len(),
                forall|j: int| 0 <= j < i ==> (#[trigger] self@.roles[j]).id != role_id,
            decreases self.roles.len() - i,
        {
            if self.roles[i].id == role_id {
                assert(self@.roles[i as int].id == role_id);
                return true;
            }
            i += 1;
        }
        false
    }

    /// Creates a role named `name` at time `now` and returns its identifier.
    pub fn insert_role(&mut self, name: String, now: i64) -> (created: Result<u128, StoreError>)
        requires
            old(self).wf(),
        ensures
            final(self).wf(),
            match old(self)@.insert_role(name@, now) {
                Ok(next) => created == Ok::<u128, StoreError>(old(self)@.next_id) && final(self)@
                    == next,
                Err(error) => created == Err::<u128, StoreError>(error) && final(self)@ == old(
                    self,
                )@,
            },
    {
        if self.next_id == u128::MAX {
            return Err(StoreError::IdentifiersExhausted);
        }
        let id = self.next_id;
        self.roles.push(Role { id, name, created_at: now, updated_at: now });
        self.next_id = id + 1;
        proof {
            let before = old(self)@;
            let row = before.new_role(name@, now);
            assert(self@.roles =~= before.roles.push(row));
            assert forall|i: int| 0 <= i < self@.permissions.len() implies contains_role(
                self@.roles,
                (#[trigger] self@.permissions[i]).role_id,
            ) by {
                let role_id = before.permissions[i].role_id;
                let j = choose|j: int| 0 <= j < before.roles.len() && (#[trigger] before.roles[j]).id == role_id;
                assert(self@.roles[j].id == role_id);
            }
        }
        Ok(id)
    }

    /// Appends one permission row under the role `role_id` at time `now`.
    pub fn insert_permission(&mut self, role_id: u128, name: String, level: i64, now: i64) -> (inserted:
        Result<(), StoreError>)
        requires
            old(self).wf(),
        ensures
            final(self).wf(),
            match old(self)@.insert_permission(role_id, name@, level, now) {
                Ok(next) => inserted is Ok && final(self)@ == next,
                Err(error) => inserted == Err::<(), StoreError>(error) && final(self)@ == old(
                    self,
                )@,
            },
    {
        if !self.has_role(role_id) {
            return Err(StoreError::RoleNotFound);
        }
        if self.next_id == u128::MAX {
            return Err(StoreError::IdentifiersExhausted);
        }
        let id = self.next_id;
        self.permissions.push(
            RolePermission {
                id,
                role_id,
                permission_name: name,
                permission_level: level,
                created_at: now,
                updated_at: now,
            },
        );
        self.next_id = id + 1;
        proof {
            let before = old(self)@;
            let row = before.new_permission(role_id, name@, level, now);
            assert(self@.permissions =~= before.permissions.push(row));
            assert(self@.roles == before.roles);
        }
        Ok(())
    }

    /// Deletes every row of the pair (`role_id`, `name`). Deleting a pair
    /// that has no row changes nothing.
    pub fn delete_permission(&mut self, role_id: u128, name: &String)
        requires
            old(self).wf(),
        ensures
            final(self).wf(),
            final(self)@ == old(self)@.delete_permission(role_id, name@),
    {
        let ghost before = self@;
        let ghost keep = other_than(role_id, name@);
        let mut rows: Vec<RolePermission> = Vec::new();
        core::mem::swap(&mut rows, &mut self.permissions);
        assert(rows_view(rows@) == before.permissions);
        assert(rows_view(self.permissions@) =~= before.permissions.take(0).filter(keep)) by {
            reveal(Seq::filter);
        }
        let ghost all = rows@;
        for row in it: rows
            invariant
                it.seq() == all,
                rows_view(all) == before.permissions,
                keep == other_than(role_id, name@),
                self.roles == old(self).roles,
                self.next_id == old(self).next_id,
                rows_view(self.permissions@) == before.permissions.take(it.index() as int).filter(keep),
        {
            proof {
                let i = it.index() as int;
                assert(before.permissions.take(i + 1) =~= before.permissions.take(i).push(row@));
                before.permissions.take(i).lemma_filter_push(row@, keep);
            }
            let ghost kept = self.permissions@;
            if !(row.role_id == role_id && row.permission_name == *name) {
                self.permissions.push(row);
                assert(rows_view(self.permissions@) =~= rows_view(kept).push(row@));
            }
        }
        proof {
            assert(before.permissions.take(before.permissions.len() as int) =~= before.permissions);
            lemma_filter_keeps_wf(before, keep);
        }
    }

    /// Carries out one write of a batch at time `now`. `created` is the
    /// identifier of the role that the batch created before, where it created
    /// one; what comes back is that identifier as it stands after the write.
    pub fn apply(&mut self, write: StoreWrite, created: u128, now: i64) -> (applied: Result<
        u128,
        StoreError,
    >)
        requires
            old(self).wf(),
        ensures
            final(self).wf(),
            match old(self)@.apply(write@, created, now) {
                Ok(next) => {
                    &&& final(self)@ == next
                    &&& applied == Ok::<u128, StoreError>(
                        if write@ is InsertRole {
                            old(self)@.next_id
                        } else {
                            created
                        },
                    )
                },
                Err(error) => applied == Err::<u128, StoreError>(error) && final(self)@ == old(
                    self,
                )@,
            },
    {
        match write {
            StoreWrite::InsertRole { name } => self.insert_role(name, now),
            StoreWrite::InsertPermission { role, permission_name, permission_level } => {
                let role_id = match role {
                    RoleRef::Known(role_id) => role_id,
                    RoleRef::Created => created,
                };
                match self.insert_permission(role_id, permission_name, permission_level, now) {
                    Ok(()) => Ok(created),
                    Err(error) => Err(error),
                }
            },
            StoreWrite::DeletePermission { role_id, permission_name } => {
                self.delete_permission(role_id, &permission_name);
                Ok(created)
            },
        }
    }

    /// The role with the identifier `role_id`, or `None` where the store
    /// holds no such role.
    pub fn get_role(&self, role_id: u128) -> (found: Option<Role>)
        requires
            self.wf(),
        ensures
            match found {
                Some(role) => self@.role(role_id) == Some(role@),
                None => self@.role(role_id) is None,
            },
    {
        let mut i: usize = 0;
        while i < self.roles.len()
            invariant
                self.wf(),
                i <= self.roles.len(),
                forall|j: int| 0 <= j < i ==> (#[trigger] self@.roles[j]).id != role_id,
            decreases self.roles.len() - i,
        {
            if self.roles[i].id == role_id {
                proof {
                    let roles = self@.roles;
                    assert(roles[i as int].id == role_id);
                    let k = choose|k: int| 0 <= k < roles.len() && (#[trigger] roles[k]).id == role_id;
                    assert(k == i) by {
                        if k != i {
                            assert(roles[k].id != roles[i as int].id);
                        }
                    }
                }
                return Some(self.roles[i].clone());
            }
            i += 1;
        }
        None
    }

    /// All roles, in the order of their creation.
    pub fn list_roles(&self) -> (roles: Vec<Role>)
        ensures
            roles_view(roles@) == self@.roles,
    {
        let mut roles: Vec<Role> = Vec::new();
        let mut i: usize = 0;
        while i < self.roles.len()
            invariant
                i <= self.roles.len(),
                roles_view(roles@) == self@.roles.take(i as int),
            decreases self.roles.len() - i,
        {
            let ghost listed = roles@;
            roles.push(self.roles[i].clone());
            assert(roles_view(roles@) =~= roles_view(listed).push(self@.roles[i as int]));
            assert(self@.roles.take(i + 1) =~= self@.roles.take(i as int).push(self@.roles[i as int]));
            i += 1;
        }
        assert(self@.roles.take(self.roles.len() as int) =~= self@.roles);
        roles
    }

    /// All permission rows of the role `role_id`, in insertion order. A role
    /// that the store does not hold has none.
    pub fn list_permissions(&self, role_id: u128) -> (rows: Vec<RolePermission>)
        ensures
            rows_view(rows@) == self@.permissions_of(role_id),
    {
        let ghost all = self@.permissions;
        let ghost owned = owned_by(role_id);
        let mut rows: Vec<RolePermission> = Vec::new();
        assert(rows_view(rows@) =~= all.take(0).filter(owned)) by {
            reveal(Seq::filter);
        }
        let mut i: usize = 0;
        while i < self.permissions.len()
            invariant
                i <= self.permissions.len(),
                all == self@.permissions,
                owned == owned_by(role_id),
                rows_view(rows@) == all.take(i as int).filter(owned),
            decreases self.permissions.len() - i,
        {
            proof {
                assert(all.take(i + 1) =~= all.take(i as int).push(all[i as int]));
                all.take(i as int).lemma_filter_push(all[i as int], owned);
            }
            if self.permissions[i].role_id == role_id {
                let ghost listed = rows@;
                rows.push(self.permissions[i].clone());
                assert(rows_view(rows@) =~= rows_view(listed).push(all[i as int]));
            }
            i += 1;
        }
        assert(all.take(all.len() as int) =~= all);
        rows
    }
}

} // verus!
