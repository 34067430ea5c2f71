//! Roles, the permissions attached to them, and the role manager that
//! answers authorization queries.

use crate::data::laws::{
    law_batch_is_writes_in_sequence, law_removal_is_deletions_in_sequence,
    lemma_insert_role_keeps_wf,
};
use crate::data::state::{granted_by, StoreState};
use crate::data::store::{rows_view, PermissionStore, StoreError};
use crate::data::writes::{
    attachments, creation, detachments, names_view, pairs_view, Phase, RoleRef, Step, WriteBatch,
};
use vstd::prelude::*;

verus! {

/// A named role. Timestamps count microseconds since the Unix epoch.
#[derive(Debug, PartialEq, Eq)]
pub struct Role {
    pub id: u128,
    pub name: String,
    pub created_at: i64,
    pub updated_at: i64,
}

/// What a [`Role`] is to a contract: its fields, with the name as a
/// sequence of characters.
pub struct RoleView {
    pub id: u128,
    pub name: Seq<char>,
    pub created_at: i64,
    pub updated_at: i64,
}

impl View for Role {
    type V = RoleView;

    open spec fn view(&self) -> RoleView {
        RoleView {
            id: self.id,
            name: self.name@,
            created_at: self.created_at,
            updated_at: self.updated_at,
        }
    }
}

impl Clone for Role {
    fn clone(&self) -> (copy: Self)
        ensures
            copy == *self,
    {
        Role {
            id: self.id,
            name: self.name.clone(),
            created_at: self.created_at,
            updated_at: self.updated_at,
        }
    }
}

/// One permission row: a named capability at a level, owned by a role.
/// Timestamps count microseconds since the Unix epoch.
#[derive(Debug, PartialEq, Eq)]
pub struct RolePermission {
    pub id: u128,
    pub role_id: u128,
    pub permission_name: String,
    pub permission_level: i64,
    pub created_at: i64,
    pub updated_at: i64,
}

/// What a [`RolePermission`] is to a contract.
pub struct RolePermissionView {
    pub id: u128,
    pub role_id: u128,
    pub permission_name: Seq<char>,
    pub permission_level: i64,
    pub created_at: i64,
    pub updated_at: i64,
}

impl View for RolePermission {
    type V = RolePermissionView;

    open spec fn view(&self) -> RolePermissionView {
        RolePermissionView {
            id: self.id,
            role_id: self.role_id,
            permission_name: self.permission_name@,
            permission_level: self.permission_level,
            created_at: self.created_at,
            updated_at: self.updated_at,
        }
    }
}

impl Clone for RolePermission {
    fn clone(&self) -> (copy: Self)
        ensures
            copy == *self,
    {
        RolePermission {
            id: self.id,
            role_id: self.role_id,
            permission_name: self.permission_name.clone(),
            permission_level: self.permission_level,
            created_at: self.created_at,
            updated_at: self.updated_at,
        }
    }
}

/// A failure of the store, met while the role manager did its work. It is
/// never folded into a denial: a caller can tell "the store refused" from
/// "access denied".
#[derive(Debug, Clone, Copy, PartialEq, Eq)]
pub struct AuthorizationError {
    pub source: StoreError,
}

/// The outcome of a store operation as the role manager reports it.
pub open spec fn reported(outcome: Result<(), StoreError>) -> Result<(), AuthorizationError> {
    match outcome {
        Ok(()) => Ok(()),
        Err(source) => Err(AuthorizationError { source }),
    }
}

/// Decides an authorization query on the permission rows of one role: finds
/// the first row named `permission_name` and grants iff its level equals
/// `permission_level`. No such row, no grant.
pub fn permission_granted(
    permissions: &Vec<RolePermission>,
    permission_name: &String,
    permission_level: i64,
) -> (granted: bool)
    ensures
        granted == granted_by(rows_view(permissions@), permission_name@, permission_level),
{
    let mut i: usize = 0;
    while i < permissions.len()
        invariant
            i <= permissions.len(),
            forall|j: int|
                0 <= j < i ==> (#[trigger] rows_view(permissions@)[j]).permission_name
                    != permission_name@,
        decreases permissions.len() - i,
    {
        if permissions[i].permission_name == *permission_name {
            let granted = permissions[i].permission_level == permission_level;
            proof {
                let rows = rows_view(permissions@);
                assert(rows[i as int].permission_name == permission_name@);
                if !granted && granted_by(rows, permission_name@, permission_level) {
                    let k = choose|k: int|
                        0 <= k < rows.len() && (#[trigger] rows[k]).permission_name
                            == permission_name@ && rows[k].permission_level == permission_level
                            && forall|j: int|
                            0 <= j < k ==> (#[trigger] rows[j]).permission_name != permission_name@;
                    assert(k == i);
                }
            }
            return granted;
        }
        i += 1;
    }
    false
}

/// Answers an authorization query from what the store gave when it was asked
/// for the role's permission rows. A failure of the store is handed on as it
/// is and is never turned into a denial; on rows, the answer is that of
/// [`permission_granted`].
pub fn authorization_answer<E>(
    listed: Result<Vec<RolePermission>, E>,
    permission_name: &String,
    permission_level: i64,
) -> (answer: Result<bool, E>)
    ensures
        match listed {
            Ok(rows) => answer == Ok::<bool, E>(
                granted_by(rows_view(rows@), permission_name@, permission_level),
            ),
            Err(error) => answer == Err::<bool, E>(error),
        },
{
    match listed {
        Ok(rows) => Ok(permission_granted(&rows, permission_name, permission_level)),
        Err(error) => Err(error),
    }
}

/// The role manager: creates roles, attaches and detaches permissions, and
/// answers authorization queries against its permission store.
pub struct RoleManager {
    store: PermissionStore,
}

impl View for RoleManager {
    type V = StoreState;

    closed spec fn view(&self) -> StoreState {
        self.store@
    }
}

impl RoleManager {
    /// Whether the manager's store meets the store invariant.
    pub open spec fn wf(&self) -> bool {
        self@.wf()
    }

    /// A role manager over an empty store.
    pub fn init() -> (manager: RoleManager)
        ensures
            manager@ == StoreState::starting_at(0),
            manager.wf(),
    {
        RoleManager { store: PermissionStore::new() }
    }

    /// A role manager over the given store.
    pub fn over(store: PermissionStore) -> (manager: RoleManager)
        ensures
            manager@ == store@,
    {
        RoleManager { store }
    }

    /// The store that the manager works on.
    pub fn store(&self) -> (store: &PermissionStore)
        ensures
            store@ == self@,
    {
        &self.store
    }

    /// Creates a role named `name` at time `now` and attaches `permissions`,
    /// pairs of a name and a level, in the given order, as one unit: either
    /// the role and every row are written, or, where the store would refuse
    /// one of the writes, nothing is written and that refusal is reported.
    /// No role is left behind with a part of its permissions.
    pub fn create_role_with_permissions(
        &mut self,
        name: String,
        permissions: Vec<(String, i64)>,
        now: i64,
    ) -> (outcome: Result<(), AuthorizationError>)
        requires
            old(self).wf(),
        ensures
            final(self).wf(),
            final(self)@ == old(self)@.create_role_with_permissions_atomic(
                name@,
                pairs_view(permissions@),
                now,
            ),
            outcome == reported(
                old(self)@.create_role_with_permissions_outcome(permissions@.len()),
            ),
    {
        if permissions.len() as u128 >= self.store.identifiers_left() {
            return Err(AuthorizationError { source: StoreError::IdentifiersExhausted });
        }
        let ghost before = self@;
        let ghost wanted = pairs_view(permissions@);
        let ghost role_id = before.next_id;
        let ghost with_role = before.insert_role(name@, now)->Ok_0;
        let mut batch: WriteBatch<StoreError> = WriteBatch::create(name, permissions);
        let mut answer: Result<(), StoreError> = Ok(());
        let mut created: u128 = 0;
        proof {
            assert(with_role.roles[before.roles.len() as int].id == role_id);
            lemma_insert_role_keeps_wf(before, name@, now);
        }
        loop
            invariant
                self.wf(),
                before == old(self)@,
                before.wf(),
                wanted == pairs_view(permissions@),
                role_id == before.next_id,
                wanted.len() < u128::MAX - before.next_id,
                before.insert_role(name@, now) == Ok::<StoreState, StoreError>(with_role),
                with_role.has_role(role_id),
                batch.planned() == creation(name@, wanted),
                batch.transactional(),
                batch.asked() <= wanted.len() + 1,
                answer is Ok,
                match batch.phase() {
                    Phase::Fresh | Phase::Opening => batch.asked() == 0 && self@ == before,
                    Phase::Writing | Phase::Committing => {
                        &&& batch.asked() >= 1
                        &&& batch.phase() is Committing ==> batch.asked() == wanted.len() + 1
                        &&& created == role_id
                        &&& self@ == with_role.insert_permissions(
                            role_id,
                            wanted.take(batch.asked() - 1),
                            now,
                        )
                        &&& with_role.insert_permissions_outcome(
                            role_id,
                            (batch.asked() - 1) as nat,
                        ) is Ok
                    },
                    _ => false,
                },
            decreases wanted.len() + 1 - batch.asked(), batch.rank(),
        {
            let ghost asked = batch.asked() as int;
            match batch.step(answer) {
                Step::Write(write) => {
                    proof {
                        if asked == 0 {
                            law_batch_is_writes_in_sequence(
                                with_role,
                                role_id,
                                Seq::empty(),
                                Seq::empty(),
                                0,
                                now,
                            );
                            assert(wanted.take(0) =~= Seq::empty());
                        } else {
                            law_batch_is_writes_in_sequence(
                                with_role,
                                role_id,
                                wanted.take(asked - 1),
                                wanted[asked - 1].0,
                                wanted[asked - 1].1,
                                now,
                            );
                            assert(wanted.take(asked) =~= wanted.take(asked - 1).push(
                                wanted[asked - 1],
                            ));
                        }
                    }
                    match self.store.apply(write, created, now) {
                        Ok(role) => {
                            created = role;
                            answer = Ok(());
                        },
                        Err(refusal) => {
                            answer = Err(refusal);
                        },
                    }
                },
                Step::Finished(ended) => {
                    assert(wanted.take(wanted.len() as int) =~= wanted);
                    return match ended {
                        Ok(()) => Ok(()),
                        Err(source) => Err(AuthorizationError { source }),
                    };
                },
                // In memory nothing is to be opened or committed, and the
                // test above has shown that the store accepts every write:
                // a rollback is never asked for.
                Step::Begin | Step::Commit => {
                    answer = Ok(());
                },
                Step::Rollback => {
                    proof {
                        assert(false);
                    }
                },
            }
        }
    }

    /// Attaches `permissions`, pairs of a name and a level, to the role
    /// `role_id` at time `now`, in the given order, as one unit: either every
    /// row is written, or, where the store would refuse one of them, nothing
    /// is written and that refusal is reported.
    pub fn create_role_permissions(
        &mut self,
        role_id: u128,
        permissions: Vec<(String, i64)>,
        now: i64,
    ) -> (outcome: Result<(), AuthorizationError>)
        requires
            old(self).wf(),
        ensures
            final(self).wf(),
            final(self)@ == old(self)@.insert_permissions_atomic(
                role_id,
                pairs_view(permissions@),
                now,
            ),
            outcome == reported(
                old(self)@.insert_permissions_outcome(role_id, permissions@.len()),
            ),
    {
        if permissions.len() > 0 {
            if !self.store.has_role(role_id) {
                return Err(AuthorizationError { source: StoreError::RoleNotFound });
            }
            if permissions.len() as u128 > self.store.identifiers_left() {
                return Err(AuthorizationError { source: StoreError::IdentifiersExhausted });
            }
        }
        let ghost before = self@;
        let ghost wanted = pairs_view(permissions@);
        let mut batch: WriteBatch<StoreError> = WriteBatch::attach(role_id, permissions);
        let mut answer: Result<(), StoreError> = Ok(());
        proof {
            law_batch_is_writes_in_sequence(before, role_id, Seq::empty(), Seq::empty(), 0, now);
            assert(wanted.take(0) =~= Seq::empty());
        }
        loop
            invariant
                self.wf(),
                before == old(self)@,
                wanted == pairs_view(permissions@),
                before.insert_permissions_outcome(role_id, wanted.len()) is Ok,
                batch.planned() == attachments(RoleRef::Known(role_id), wanted),
                batch.transactional(),
                batch.asked() <= wanted.len(),
                answer is Ok,
                self@ == before.insert_permissions(role_id, wanted.take(batch.asked() as int), now),
                match batch.phase() {
                    Phase::Fresh | Phase::Opening => batch.asked() == 0,
                    Phase::Writing => true,
                    Phase::Committing => batch.asked() == wanted.len(),
                    _ => false,
                },
            decreases wanted.len() - batch.asked(), batch.rank(),
        {
            let ghost asked = batch.asked() as int;
            match batch.step(answer) {
                Step::Write(write) => {
                    proof {
                        law_batch_is_writes_in_sequence(
                            before,
                            role_id,
                            wanted.take(asked),
                            wanted[asked].0,
                            wanted[asked].1,
                            now,
                        );
                        assert(wanted.take(asked + 1) =~= wanted.take(asked).push(wanted[asked]));
                    }
                    match self.store.apply(write, role_id, now) {
                        Ok(_) => {
                            answer = Ok(());
                        },
                        Err(refusal) => {
                            answer = Err(refusal);
                        },
                    }
                },
                Step::Finished(ended) => {
                    assert(wanted.take(wanted.len() as int) =~= wanted);
                    return match ended {
                        Ok(()) => Ok(()),
                        Err(source) => Err(AuthorizationError { source }),
                    };
                },
                // In memory nothing is to be opened or committed, and the
                // test above has shown that the store accepts every write:
                // a rollback is never asked for.
                Step::Begin | Step::Commit => {
                    answer = Ok(());
                },
                Step::Rollback => {
                    proof {
                        assert(false);
                    }
                },
            }
        }
    }

    /// Detaches from the role `role_id` every permission named by one of
    /// `permissions`. Each name is deleted on its own; a name that the role
    /// does not hold is passed over in silence.
    pub fn remove_role_permissions(&mut self, role_id: u128, permissions: Vec<String>) -> (outcome:
        Result<(), AuthorizationError>)
        requires
            old(self).wf(),
        ensures
            final(self).wf(),
            final(self)@ == old(self)@.delete_permissions(role_id, names_view(permissions@)),
            outcome is Ok,
    {
        let ghost before = self@;
        let ghost names = names_view(permissions@);
        let mut batch: WriteBatch<StoreError> = WriteBatch::detach(role_id, permissions);
        let mut answer: Result<(), StoreError> = Ok(());
        proof {
            law_removal_is_deletions_in_sequence(before, role_id, Seq::empty(), Seq::empty());
            assert(names.take(0) =~= Seq::<Seq<char>>::empty());
        }
        loop
            invariant
                self.wf(),
                before == old(self)@,
                names == names_view(permissions@),
                batch.planned() == detachments(role_id, names),
                !batch.transactional(),
                batch.asked() <= names.len(),
                answer is Ok,
                self@ == before.delete_permissions(role_id, names.take(batch.asked() as int)),
                match batch.phase() {
                    Phase::Fresh => batch.asked() == 0,
                    Phase::Writing => true,
                    _ => false,
                },
            decreases names.len() - batch.asked(), batch.rank(),
        {
            let ghost asked = batch.asked() as int;
            match batch.step(answer) {
                Step::Write(write) => {
                    proof {
                        law_removal_is_deletions_in_sequence(
                            before,
                            role_id,
                            names.take(asked),
                            names[asked],
                        );
                        assert(names.take(asked + 1) =~= names.take(asked).push(names[asked]));
                    }
                    // A deletion stamps no row: the time is of no account.
                    match self.store.apply(write, role_id, 0) {
                        Ok(_) => {
                            answer = Ok(());
                        },
                        Err(refusal) => {
                            answer = Err(refusal);
                        },
                    }
                },
                Step::Finished(ended) => {
                    assert(names.take(names.len() as int) =~= names);
                    return match ended {
                        Ok(()) => Ok(()),
                        Err(source) => Err(AuthorizationError { source }),
                    };
                },
                // Deletions stand on their own: no transaction is asked for.
                Step::Begin | Step::Commit | Step::Rollback => {
                    proof {
                        assert(false);
                    }
                },
            }
        }
    }

    /// The role with the identifier `role_id`; `None`, and no error, where
    /// there is no such role.
    pub fn get_role(&self, role_id: u128) -> (found: Result<Option<Role>, AuthorizationError>)
        requires
            self.wf(),
        ensures
            match found {
                Ok(Some(role)) => self@.role(role_id) == Some(role@),
                Ok(None) => self@.role(role_id) is None,
                Err(_) => false,
            },
    {
        Ok(self.store.get_role(role_id))
    }

    /// All permission rows of the role `role_id`, in insertion order; none,
    /// and no error, where there is no such role.
    pub fn get_role_permissions(&self, role_id: u128) -> (listed: Result<
        Vec<RolePermission>,
        AuthorizationError,
    >)
        ensures
            match listed {
                Ok(rows) => rows_view(rows@) == self@.permissions_of(role_id),
                Err(_) => false,
            },
    {
        Ok(self.store.list_permissions(role_id))
    }

    /// Answers an authorization query: whether the first permission row of
    /// the role `role_id` that is named `permission_name` carries exactly the
    /// level `permission_level`. A role without such a row, or no such role,
    /// is denied; that is an answer, not an error.
    pub fn has_permissions(&self, role_id: u128, permission_name: String, permission_level: i64) -> (granted:
        Result<bool, AuthorizationError>)
        ensures
            granted == Ok::<bool, AuthorizationError>(
                self@.has_permission(role_id, permission_name@, permission_level),
            ),
    {
        authorization_answer(
            self.get_role_permissions(role_id),
            &permission_name,
            permission_level,
        )
    }
}

} // verus!
