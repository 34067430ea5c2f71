//! The mathematical content of a permission store, and what each operation
//! of the store and of the role manager does to it.

use crate::data::roles::{RolePermissionView, RoleView};
use crate::data::store::StoreError;
use crate::data::writes::{RoleRef, StoreWriteView};
use vstd::prelude::*;

verus! {

/// Whether some role in `roles` carries the identifier `role_id`.
pub open spec fn contains_role(roles: Seq<RoleView>, role_id: u128) -> bool {
    exists|i: int| 0 <= i < roles.len() && (#[trigger] roles[i]).id == role_id
}

/// The identifier that a write means by `role`, in a batch that created the
/// role `created`.
pub open spec fn resolved(role: RoleRef, created: u128) -> u128 {
    match role {
        RoleRef::Known(role_id) => role_id,
        RoleRef::Created => created,
    }
}

/// Holds of the rows that belong to the role `role_id`.
pub open spec fn owned_by(role_id: u128) -> spec_fn(RolePermissionView) -> bool {
    |row: RolePermissionView| row.role_id == role_id
}

/// Holds of the rows that a deletion of the pair (`role_id`, `name`) keeps.
pub open spec fn other_than(role_id: u128, name: Seq<char>) -> spec_fn(RolePermissionView) -> bool {
    |row: RolePermissionView| !(row.role_id == role_id && row.permission_name == name)
}

/// The content of a permission store. Rows stand in insertion order.
pub struct StoreState {
    pub roles: Seq<RoleView>,
    pub permissions: Seq<RolePermissionView>,
    /// The identifier that the next created row receives.
    pub next_id: u128,
}

impl StoreState {
    /// The store that holds nothing and hands out identifiers from `first_id`.
    pub open spec fn starting_at(first_id: u128) -> StoreState {
        StoreState { roles: Seq::empty(), permissions: Seq::empty(), next_id: first_id }
    }

    /// The invariant of a store: identifiers are unique within each table and
    /// were handed out before `next_id`, and every permission row belongs to
    /// a role that the store holds.
    pub open spec fn wf(self) -> bool {
        &&& forall|i: int| 0 <= i < self.roles.len() ==> (#[trigger] self.roles[i]).id < self.next_id
        &&& forall|i: int|
            0 <= i < self.permissions.len() ==> (#[trigger] self.permissions[i]).id < self.next_id
        &&& forall|i: int, j: int|
            0 <= i < j < self.roles.len() ==> (#[trigger] self.roles[i]).id != (
            #[trigger] self.roles[j]).id
        &&& forall|i: int, j: int|
            0 <= i < j < self.permissions.len() ==> (#[trigger] self.permissions[i]).id != (
            #[trigger] self.permissions[j]).id
        &&& forall|i: int|
            0 <= i < self.permissions.len() ==> contains_role(
                self.roles,
                (#[trigger] self.permissions[i]).role_id,
            )
    }

    /// Whether the store holds a role with this identifier.
    pub open spec fn has_role(self, role_id: u128) -> bool {
        contains_role(self.roles, role_id)
    }

    /// The role with this identifier, if the store holds one.
    pub open spec fn role(self, role_id: u128) -> Option<RoleView> {
        if self.has_role(role_id) {
            let i = choose|i: int| 0 <= i < self.roles.len() && (#[trigger] self.roles[i]).id == role_id;
            Some(self.roles[i])
        } else {
            None
        }
    }

    /// The permission rows of a role, in insertion order.
    pub open spec fn permissions_of(self, role_id: u128) -> Seq<RolePermissionView> {
        self.permissions.filter(owned_by(role_id))
    }

    /// The row that `insert_role` appends.
    pub open spec fn new_role(self, name: Seq<char>, now: i64) -> RoleView {
        RoleView { id: self.next_id, name, created_at: now, updated_at: now }
    }

    /// The row that `insert_permission` appends.
    pub open spec fn new_permission(
        self,
        role_id: u128,
        name: Seq<char>,
        level: i64,
        now: i64,
    ) -> RolePermissionView {
        RolePermissionView {
            id: self.next_id,
            role_id,
            permission_name: name,
            permission_level: level,
            created_at: now,
            updated_at: now,
        }
    }

    /// Creating a role: it receives the next identifier and both timestamps
    /// are `now`. Refused only when no identifier is left.
    pub open spec fn insert_role(self, name: Seq<char>, now: i64) -> Result<StoreState, StoreError> {
        if self.next_id == u128::MAX {
            Err(StoreError::IdentifiersExhausted)
        } else {
            Ok(
                StoreState {
                    roles: self.roles.push(self.new_role(name, now)),
                    next_id: (self.next_id + 1) as u128,
                    ..self
                },
            )
        }
    }

    /// Appending one permission row under an existing role. Refused when the
    /// role is missing, and otherwise when no identifier is left.
    pub open spec fn insert_permission(
        self,
        role_id: u128,
        name: Seq<char>,
        level: i64,
        now: i64,
    ) -> Result<StoreState, StoreError> {
        if !self.has_role(role_id) {
            Err(StoreError::RoleNotFound)
        } else if self.next_id == u128::MAX {
            Err(StoreError::IdentifiersExhausted)
        } else {
            Ok(
                StoreState {
                    permissions: self.permissions.push(
                        self.new_permission(role_id, name, level, now),
                    ),
                    next_id: (self.next_id + 1) as u128,
                    ..self
                },
            )
        }
    }

    /// Deleting every row of the pair (`role_id`, `name`): zero or more rows
    /// leave, all others stay in their order.
    pub open spec fn delete_permission(self, role_id: u128, name: Seq<char>) -> StoreState {
        StoreState { permissions: self.permissions.filter(other_than(role_id, name)), ..self }
    }

    /// Carrying out one write of a batch; `created` is the identifier of the
    /// role that the batch created before, where it created one.
    pub open spec fn apply(self, write: StoreWriteView, created: u128, now: i64) -> Result<
        StoreState,
        StoreError,
    > {
        match write {
            StoreWriteView::InsertRole { name } => self.insert_role(name, now),
            StoreWriteView::InsertPermission { role, permission_name, permission_level } => {
                self.insert_permission(
                    resolved(role, created),
                    permission_name,
                    permission_level,
                    now,
                )
            },
            StoreWriteView::DeletePermission { role_id, permission_name } => Ok(
                self.delete_permission(role_id, permission_name),
            ),
        }
    }

    /// How many of `count` rows, inserted one after the other under
    /// `role_id`, the store accepts before it refuses one: none where the
    /// role is missing, otherwise as many as identifiers are left.
    pub open spec fn accepted(self, role_id: u128, count: nat) -> nat {
        if !self.has_role(role_id) {
            0
        } else if count <= u128::MAX - self.next_id {
            count
        } else {
            (u128::MAX - self.next_id) as nat
        }
    }

    /// The row that the `i`-th of `permissions`, pairs of a name and a level,
    /// becomes when the pairs are inserted one after the other.
    pub open spec fn batch_row(
        self,
        role_id: u128,
        permissions: Seq<(Seq<char>, i64)>,
        now: i64,
        i: int,
    ) -> RolePermissionView {
        RolePermissionView {
            id: (self.next_id + i) as u128,
            role_id,
            permission_name: permissions[i].0,
            permission_level: permissions[i].1,
            created_at: now,
            updated_at: now,
        }
    }

    /// The first `count` rows of such a batch.
    pub open spec fn batch_rows(
        self,
        role_id: u128,
        permissions: Seq<(Seq<char>, i64)>,
        now: i64,
        count: nat,
    ) -> Seq<RolePermissionView> {
        Seq::new(count, |i: int| self.batch_row(role_id, permissions, now, i))
    }

    /// What insertions of `permissions` under `role_id`, asked one after the
    /// other outside a transaction, leave behind: they stop at the first
    /// refusal, and the rows accepted until then stay. The role manager does
    /// not write so; see `insert_permissions_atomic`.
    pub open spec fn insert_permissions(
        self,
        role_id: u128,
        permissions: Seq<(Seq<char>, i64)>,
        now: i64,
    ) -> StoreState {
        let accepted = self.accepted(role_id, permissions.len());
        StoreState {
            permissions: self.permissions + self.batch_rows(role_id, permissions, now, accepted),
            next_id: (self.next_id + accepted) as u128,
            ..self
        }
    }

    /// How such a batch of `count` rows ends: well where there is nothing to
    /// insert or every row is accepted, else with the refusal of the first
    /// row that is not.
    pub open spec fn insert_permissions_outcome(self, role_id: u128, count: nat) -> Result<
        (),
        StoreError,
    > {
        if count == 0 {
            Ok(())
        } else if !self.has_role(role_id) {
            Err(StoreError::RoleNotFound)
        } else if count > u128::MAX - self.next_id {
            Err(StoreError::IdentifiersExhausted)
        } else {
            Ok(())
        }
    }

    /// What the creation of a role and the insertions of `permissions` under
    /// it, asked one after the other outside a transaction, leave behind: a
    /// refusal partway leaves the role with the rows accepted until then. The
    /// role manager does not write so; see
    /// `create_role_with_permissions_atomic`.
    pub open spec fn create_role_with_permissions(
        self,
        name: Seq<char>,
        permissions: Seq<(Seq<char>, i64)>,
        now: i64,
    ) -> StoreState {
        match self.insert_role(name, now) {
            Ok(with_role) => with_role.insert_permissions(self.next_id, permissions, now),
            Err(_) => self,
        }
    }

    /// How creating a role with `count` permissions ends: well where the
    /// role and every row find an identifier, else with the refusal for want
    /// of one.
    pub open spec fn create_role_with_permissions_outcome(self, count: nat) -> Result<
        (),
        StoreError,
    > {
        if count < u128::MAX - self.next_id {
            Ok(())
        } else {
            Err(StoreError::IdentifiersExhausted)
        }
    }

    /// Inserting `permissions` under `role_id` as one unit: every row where
    /// the batch would end well, no row where one of them would be refused.
    pub open spec fn insert_permissions_atomic(
        self,
        role_id: u128,
        permissions: Seq<(Seq<char>, i64)>,
        now: i64,
    ) -> StoreState {
        if self.insert_permissions_outcome(role_id, permissions.len()) is Ok {
            self.insert_permissions(role_id, permissions, now)
        } else {
            self
        }
    }

    /// Creating a role with its permissions as one unit: the role and every
    /// row, or nothing at all.
    pub open spec fn create_role_with_permissions_atomic(
        self,
        name: Seq<char>,
        permissions: Seq<(Seq<char>, i64)>,
        now: i64,
    ) -> StoreState {
        if self.create_role_with_permissions_outcome(permissions.len()) is Ok {
            self.create_role_with_permissions(name, permissions, now)
        } else {
            self
        }
    }

    /// Deleting, for each of `names`, every row of the pair (`role_id`,
    /// name). The rows of other roles and of other names stay in their order.
    pub open spec fn delete_permissions(self, role_id: u128, names: Seq<Seq<char>>) -> StoreState {
        StoreState { permissions: self.permissions.filter(none_of(role_id, names)), ..self }
    }

    /// The authorization decision: whether the role's first row named `name`
    /// carries exactly the level `level`.
    pub open spec fn has_permission(self, role_id: u128, name: Seq<char>, level: i64) -> bool {
        granted_by(self.permissions_of(role_id), name, level)
    }
}

/// The rows as pairs of a permission name and a level, in their order.
pub open spec fn pairs_of(rows: Seq<RolePermissionView>) -> Seq<(Seq<char>, i64)> {
    Seq::new(rows.len(), |i: int| (rows[i].permission_name, rows[i].permission_level))
}

/// Whether the row belongs to `role_id` and is named `name`.
pub open spec fn is_named(row: RolePermissionView, role_id: u128, name: Seq<char>) -> bool {
    row.role_id == role_id && row.permission_name == name
}

impl StoreState {
    /// Whether the store holds a row that gives `role_id` the permission
    /// `name` at exactly the level `level`.
    pub open spec fn holds_row(self, role_id: u128, name: Seq<char>, level: i64) -> bool {
        exists|i: int|
            0 <= i < self.permissions.len() && is_named(
                #[trigger] self.permissions[i],
                role_id,
                name,
            ) && self.permissions[i].permission_level == level
    }

    /// Whether the store holds a row that gives `role_id` the permission
    /// `name` at `level`, while the first row of that role and name carries
    /// another level. The first row decides, so the row of the asked level
    /// is never seen.
    pub open spec fn shadowed(self, role_id: u128, name: Seq<char>, level: i64) -> bool {
        &&& self.holds_row(role_id, name, level)
        &&& exists|i: int|
            0 <= i < self.permissions.len() && is_named(
                #[trigger] self.permissions[i],
                role_id,
                name,
            ) && self.permissions[i].permission_level != level && forall|k: int|
                0 <= k < i ==> !is_named(#[trigger] self.permissions[k], role_id, name)
    }
}

/// Holds of the rows that a deletion of the pairs (`role_id`, name), one for
/// each of `names`, keeps.
pub open spec fn none_of(role_id: u128, names: Seq<Seq<char>>) -> spec_fn(RolePermissionView) -> bool {
    |row: RolePermissionView| !(row.role_id == role_id && names.contains(row.permission_name))
}

/// Whether the first of `rows` that is named `name` carries exactly the level
/// `level`. Rows further on with the same name have no say, and where no row
/// has the name nothing is granted. Levels are tags that must match, not
/// ranks of which a higher one would include a lower.
pub open spec fn granted_by(rows: Seq<RolePermissionView>, name: Seq<char>, level: i64) -> bool {
    exists|i: int|
        0 <= i < rows.len() && (#[trigger] rows[i]).permission_name == name && rows[i].permission_level
            == level && forall|j: int| 0 <= j < i ==> (#[trigger] rows[j]).permission_name != name
}

} // verus!
