//! The writes that the role manager asks of a permission store, and the
//! order in which it asks them. The manager decides what is asked next and
//! when the work is over; a store carries it out: the store in memory of
//! this library, or a database behind a connection.
//!
//! An operation that creates rows is one unit: its writes stand between the
//! opening of a transaction and its commit, and a refusal is followed by a
//! rollback, so that either every row is written or none. A removal is a row
//! of independent deletions.

use vstd::prelude::*;

verus! {

/// The role that a permission row is inserted under.
#[derive(Debug, PartialEq, Eq)]
pub enum RoleRef {
    /// The role with this identifier.
    Known(u128),
    /// The role that the same batch created with its first write, under the
    /// identifier that the store gave it.
    Created,
}

/// One write that the role manager asks of a permission store.
#[derive(Debug, PartialEq, Eq)]
pub enum StoreWrite {
    /// Create a role with this name.
    InsertRole { name: String },
    /// Append one permission row under a role.
    InsertPermission { role: RoleRef, permission_name: String, permission_level: i64 },
    /// Delete every row of a role that carries this permission name.
    DeletePermission { role_id: u128, permission_name: String },
}

/// What a [`StoreWrite`] is to a contract.
pub enum StoreWriteView {
    InsertRole { name: Seq<char> },
    InsertPermission { role: RoleRef, permission_name: Seq<char>, permission_level: i64 },
    DeletePermission { role_id: u128, permission_name: Seq<char> },
}

impl View for StoreWrite {
    type V = StoreWriteView;

    open spec fn view(&self) -> StoreWriteView {
        match *self {
            StoreWrite::InsertRole { name } => StoreWriteView::InsertRole { name: name@ },
            StoreWrite::InsertPermission { role, permission_name, permission_level } => {
                StoreWriteView::InsertPermission {
                    role,
                    permission_name: permission_name@,
                    permission_level,
                }
            },
            StoreWrite::DeletePermission { role_id, permission_name } => {
                StoreWriteView::DeletePermission { role_id, permission_name: permission_name@ }
            },
        }
    }
}

/// What the role manager asks of the store next.
#[derive(Debug, PartialEq, Eq)]
pub enum Step<E> {
    /// Open a transaction, and come back with the answer.
    Begin,
    /// Carry out this write, and come back with the answer.
    Write(StoreWrite),
    /// Commit the transaction, and come back with the answer.
    Commit,
    /// Roll the transaction back, and come back with the answer.
    Rollback,
    /// The operation is over, with this outcome.
    Finished(Result<(), E>),
}

/// How far a batch has come.
pub enum Phase<E> {
    /// Nothing was asked yet.
    Fresh,
    /// The opening of the transaction was asked.
    Opening,
    /// A write was asked.
    Writing,
    /// The commit was asked.
    Committing,
    /// A write was refused with this failure, and the rollback was asked.
    RollingBack(E),
    /// The outcome was handed out.
    Over,
}

/// The pairs of a permission name and a level, as contracts see them.
pub open spec fn pairs_view(permissions: Seq<(String, i64)>) -> Seq<(Seq<char>, i64)> {
    Seq::new(permissions.len(), |i: int| (permissions[i].0@, permissions[i].1))
}

/// Permission names, as contracts see them.
pub open spec fn names_view(names: Seq<String>) -> Seq<Seq<char>> {
    Seq::new(names.len(), |i: int| names[i]@)
}

/// The writes that attach `permissions`, pairs of a name and a level, to
/// `role`: one insertion for each pair, in the order of the pairs.
pub open spec fn attachments(role: RoleRef, permissions: Seq<(Seq<char>, i64)>) -> Seq<
    StoreWriteView,
> {
    Seq::new(
        permissions.len(),
        |i: int|
            StoreWriteView::InsertPermission {
                role,
                permission_name: permissions[i].0,
                permission_level: permissions[i].1,
            },
    )
}

/// The writes that create a role named `name` with `permissions`: the role
/// first, then its permissions under the identifier that the store gave it.
pub open spec fn creation(name: Seq<char>, permissions: Seq<(Seq<char>, i64)>) -> Seq<
    StoreWriteView,
> {
    seq![StoreWriteView::InsertRole { name }] + attachments(RoleRef::Created, permissions)
}

/// The writes that detach the permissions `names` from the role `role_id`:
/// one deletion for each name, in the order of the names.
pub open spec fn detachments(role_id: u128, names: Seq<Seq<char>>) -> Seq<StoreWriteView> {
    Seq::new(
        names.len(),
        |i: int| StoreWriteView::DeletePermission { role_id, permission_name: names[i] },
    )
}

/// What a batch is to write.
enum Work {
    Create { name: String, permissions: Vec<(String, i64)> },
    Attach { role_id: u128, permissions: Vec<(String, i64)> },
    Detach { role_id: u128, names: Vec<String> },
}

/// The writes of one operation of the role manager, and how far they have
/// come. `E` is the failure with which the store answers.
pub struct WriteBatch<E> {
    work: Work,
    /// Whether the role of a creation has been asked.
    role_asked: bool,
    /// How many of the pairs or names have been asked.
    asked: usize,
    phase: Phase<E>,
}

impl<E> WriteBatch<E> {
    /// All writes of the batch, in the order in which they are asked.
    pub closed spec fn planned(&self) -> Seq<StoreWriteView> {
        match self.work {
            Work::Create { name, permissions } => creation(name@, pairs_view(permissions@)),
            Work::Attach { role_id, permissions } => attachments(
                RoleRef::Known(role_id),
                pairs_view(permissions@),
            ),
            Work::Detach { role_id, names } => detachments(role_id, names_view(names@)),
        }
    }

    /// Whether the writes are one unit, to be written all or not at all.
    pub closed spec fn transactional(&self) -> bool {
        !(self.work is Detach)
    }

    /// How many writes of the batch have been asked of the store.
    pub closed spec fn asked(&self) -> nat {
        match self.work {
            Work::Create { .. } => if self.role_asked {
                (self.asked + 1) as nat
            } else {
                0
            },
            _ => self.asked as nat,
        }
    }

    /// How far the batch has come.
    pub closed spec fn phase(&self) -> Phase<E> {
        self.phase
    }

    /// How many steps the batch can still take at the number of writes that
    /// it has asked: a measure that falls with every step but the last.
    pub open spec fn rank(&self) -> nat {
        match self.phase() {
            Phase::Fresh => 2,
            Phase::Opening | Phase::Writing => 1,
            _ => 0,
        }
    }

    /// The batch that creates a role named `name` with `permissions`, as one
    /// unit.
    pub fn create(name: String, permissions: Vec<(String, i64)>) -> (batch: WriteBatch<E>)
        ensures
            batch.planned() == creation(name@, pairs_view(permissions@)),
            batch.transactional(),
            batch.asked() == 0,
            batch.phase() is Fresh,
    {
        WriteBatch {
            work: Work::Create { name, permissions },
            role_asked: false,
            asked: 0,
            phase: Phase::Fresh,
        }
    }

    /// The batch that attaches `permissions` to the role `role_id`, as one
    /// unit.
    pub fn attach(role_id: u128, permissions: Vec<(String, i64)>) -> (batch: WriteBatch<E>)
        ensures
            batch.planned() == attachments(RoleRef::Known(role_id), pairs_view(permissions@)),
            batch.transactional(),
            batch.asked() == 0,
            batch.phase() is Fresh,
    {
        WriteBatch {
            work: Work::Attach { role_id, permissions },
            role_asked: false,
            asked: 0,
            phase: Phase::Fresh,
        }
    }

    /// The batch that detaches the permissions `names` from the role
    /// `role_id`, each deletion on its own.
    pub fn detach(role_id: u128, names: Vec<String>) -> (batch: WriteBatch<E>)
        ensures
            batch.planned() == detachments(role_id, names_view(names@)),
            !batch.transactional(),
            batch.asked() == 0,
            batch.phase() is Fresh,
    {
        WriteBatch {
            work: Work::Detach { role_id, names },
            role_asked: false,
            asked: 0,
            phase: Phase::Fresh,
        }
    }

    /// What the batch asks for once the store has accepted all that was
    /// asked so far: the next write of the plan; after the last one the
    /// commit, where the batch is one unit, and else the good end.
    pub open spec fn goes_on(&self, after: &WriteBatch<E>, step: Step<E>) -> bool {
        if self.asked() < self.planned().len() {
            &&& after.asked() == self.asked() + 1
            &&& after.phase() is Writing
            &&& step matches Step::Write(write)
            &&& write@ == self.planned()[self.asked() as int]
        } else if self.transactional() {
            &&& after.asked() == self.asked()
            &&& after.phase() is Committing
            &&& step is Commit
        } else {
            after.asked() == self.asked() && after.ends(Ok(()), step)
        }
    }

    /// The batch ends with `outcome`.
    pub open spec fn ends(&self, outcome: Result<(), E>, step: Step<E>) -> bool {
        self.phase() is Over && step == Step::<E>::Finished(outcome)
    }

    /// What follows the store's `answer` to what was asked last; before
    /// anything was asked, the answer is `Ok`.
    ///
    /// A batch that is one unit opens a transaction first and commits it
    /// after the last write. A write that the store refuses is followed by a
    /// rollback, and only then does the batch end, with that refusal as its
    /// outcome whatever the rollback answered. A transaction that cannot be
    /// opened or committed ends the batch with that failure.
    ///
    /// A batch of independent writes ends with the first refusal; what was
    /// written before stays.
    pub open spec fn follows(&self, answer: Result<(), E>, after: &WriteBatch<E>, step: Step<E>) -> bool {
        &&& after.planned() == self.planned()
        &&& after.transactional() == self.transactional()
        &&& match self.phase() {
            Phase::Fresh => match answer {
                Ok(()) => if self.transactional() {
                    after.asked() == self.asked() && after.phase() is Opening && step is Begin
                } else {
                    self.goes_on(after, step)
                },
                Err(_) => after.asked() == self.asked() && after.ends(answer, step),
            },
            Phase::Opening => match answer {
                Ok(()) => self.goes_on(after, step),
                Err(_) => after.asked() == self.asked() && after.ends(answer, step),
            },
            Phase::Writing => match answer {
                Ok(()) => self.goes_on(after, step),
                Err(refusal) => if self.transactional() {
                    &&& after.asked() == self.asked()
                    &&& after.phase() == Phase::RollingBack(refusal)
                    &&& step is Rollback
                } else {
                    after.asked() == self.asked() && after.ends(answer, step)
                },
            },
            Phase::Committing => after.asked() == self.asked() && after.ends(answer, step),
            Phase::RollingBack(refusal) => after.asked() == self.asked() && after.ends(
                Err(refusal),
                step,
            ),
            Phase::Over => after.asked() == self.asked() && after.ends(answer, step),
        }
    }

    /// Decides what is asked of the store next, from how far the batch has
    /// come and from the store's answer to what was asked last.
    pub fn step(&mut self, answer: Result<(), E>) -> (step: Step<E>)
        ensures
            old(self).follows(answer, final(self), step),
    {
        let mut phase = Phase::Over;
        core::mem::swap(&mut phase, &mut self.phase);
        match phase {
            Phase::Fresh => match answer {
                Ok(()) => {
                    if self.is_one_unit() {
                        self.phase = Phase::Opening;
                        Step::Begin
                    } else {
                        self.go_on()
                    }
                },
                Err(failure) => Step::Finished(Err(failure)),
            },
            Phase::Opening => match answer {
                Ok(()) => self.go_on(),
                Err(failure) => Step::Finished(Err(failure)),
            },
            Phase::Writing => match answer {
                Ok(()) => self.go_on(),
                Err(refusal) => {
                    if self.is_one_unit() {
                        self.phase = Phase::RollingBack(refusal);
                        Step::Rollback
                    } else {
                        Step::Finished(Err(refusal))
                    }
                },
            },
            Phase::Committing => Step::Finished(answer),
            Phase::RollingBack(refusal) => Step::Finished(Err(refusal)),
            Phase::Over => Step::Finished(answer),
        }
    }

    /// Whether the writes are one unit.
    fn is_one_unit(&self) -> (one_unit: bool)
        ensures
            one_unit == self.transactional(),
    {
        match &self.work {
            Work::Detach { .. } => false,
            _ => true,
        }
    }

    /// Asks for the next write of the plan, or for what follows the last.
    fn go_on(&mut self) -> (step: Step<E>)
        requires
            old(self).phase() is Over,
        ensures
            final(self).planned() == old(self).planned(),
            final(self).transactional() == old(self).transactional(),
            old(self).goes_on(final(self), step),
    {
        let asked = self.asked;
        let write = match &self.work {
            Work::Create { name, permissions } => {
                if !self.role_asked {
                    Some((StoreWrite::InsertRole { name: name.clone() }, true))
                } else if asked < permissions.len() {
                    Some(
                        (
                            StoreWrite::InsertPermission {
                                role: RoleRef::Created,
                                permission_name: permissions[asked].0.clone(),
                                permission_level: permissions[asked].1,
                            },
                            false,
                        ),
                    )
                } else {
                    None
                }
            },
            Work::Attach { role_id, permissions } => {
                if asked < permissions.len() {
                    Some(
                        (
                            StoreWrite::InsertPermission {
                                role: RoleRef::Known(*role_id),
                                permission_name: permissions[asked].0.clone(),
                                permission_level: permissions[asked].1,
                            },
                            false,
                        ),
                    )
                } else {
                    None
                }
            },
            Work::Detach { role_id, names } => {
                if asked < names.len() {
                    Some(
                        (
                            StoreWrite::DeletePermission {
                                role_id: *role_id,
                                permission_name: names[asked].clone(),
                            },
                            false,
                        ),
                    )
                } else {
                    None
                }
            },
        };
        match write {
            Some((write, is_role)) => {
                if is_role {
                    self.role_asked = true;
                    self.asked = 0;
                } else {
                    self.asked = asked + 1;
                }
                self.phase = Phase::Writing;
                Step::Write(write)
            },
            None => {
                if self.is_one_unit() {
                    self.phase = Phase::Committing;
                    Step::Commit
                } else {
                    Step::Finished(Ok(()))
                }
            },
        }
    }
}

} // verus!
