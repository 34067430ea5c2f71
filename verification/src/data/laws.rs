//! What holds of every store: the invariant that each operation keeps, and
//! the laws that relate creating, listing, removing and deciding.

use crate::data::filters::{
    lemma_filter_drops_all, lemma_filter_keeps_all, lemma_filter_selects, lemma_filter_twice,
};
use crate::data::roles::RolePermissionView;
use crate::data::store::StoreError;
use crate::data::state::{
    contains_role, is_named, none_of, other_than, owned_by, pairs_of, StoreState,
};
use vstd::prelude::*;

verus! {

/// Filtering the permission rows keeps the store invariant: what stays was
/// there before.
pub proof fn lemma_filter_keeps_wf(state: StoreState, keep: spec_fn(RolePermissionView) -> bool)
    requires
        state.wf(),
    ensures
        (StoreState { permissions: state.permissions.filter(keep), ..state }).wf(),
{
    let kept = state.permissions.filter(keep);
    let at = lemma_filter_selects(state.permissions, keep);
    assert forall|i: int| 0 <= i < kept.len() implies (#[trigger] kept[i]).id < state.next_id
        && contains_role(state.roles, kept[i].role_id) by {
        assert(kept[i] == state.permissions[at[i]]);
    }
    assert forall|i: int, j: int| 0 <= i < j < kept.len() implies (#[trigger] kept[i]).id != (
    #[trigger] kept[j]).id by {
        assert(at[i] < at[j]);
    }
}

/// The store invariant holds of an empty store and is kept by every
/// operation, whether the operation succeeds, is refused, or ends partway.
pub proof fn law_operations_keep_invariant(
    state: StoreState,
    role_id: u128,
    name: Seq<char>,
    level: i64,
    permissions: Seq<(Seq<char>, i64)>,
    names: Seq<Seq<char>>,
    now: i64,
)
    requires
        state.wf(),
    ensures
        forall|first_id: u128| (#[trigger] StoreState::starting_at(first_id)).wf(),
        state.insert_role(name, now) matches Ok(next) ==> next.wf(),
        state.insert_permission(role_id, name, level, now) matches Ok(next) ==> next.wf(),
        state.delete_permission(role_id, name).wf(),
        state.insert_permissions(role_id, permissions, now).wf(),
        state.insert_permissions_atomic(role_id, permissions, now).wf(),
        state.create_role_with_permissions(name, permissions, now).wf(),
        state.create_role_with_permissions_atomic(name, permissions, now).wf(),
        state.delete_permissions(role_id, names).wf(),
{
    lemma_insert_role_keeps_wf(state, name, now);
    if state.insert_permission(role_id, name, level, now) is Ok {
        let single = seq![(name, level)];
        lemma_insert_permissions_keeps_wf(state, role_id, single, now);
        assert(state.insert_permissions(role_id, single, now).permissions
            =~= state.permissions.push(state.new_permission(role_id, name, level, now)));
    }
    lemma_filter_keeps_wf(state, other_than(role_id, name));
    lemma_insert_permissions_keeps_wf(state, role_id, permissions, now);
    if let Ok(with_role) = state.insert_role(name, now) {
        lemma_insert_permissions_keeps_wf(with_role, state.next_id, permissions, now);
    }
    lemma_filter_keeps_wf(state, none_of(role_id, names));
}

/// Creating a role keeps the store invariant, and the new role is the one
/// that its identifier finds.
pub proof fn lemma_insert_role_keeps_wf(state: StoreState, name: Seq<char>, now: i64)
    requires
        state.wf(),
    ensures
        state.insert_role(name, now) matches Ok(next) ==> next.wf() && next.role(state.next_id)
            == Some(state.new_role(name, now)),
{
    if let Ok(next) = state.insert_role(name, now) {
        let last = state.roles.len() as int;
        assert(next.roles[last].id == state.next_id);
        assert forall|i: int| 0 <= i < next.permissions.len() implies contains_role(
            next.roles,
            (#[trigger] next.permissions[i]).role_id,
        ) by {
            let owner = state.permissions[i].role_id;
            let j = choose|j: int| 0 <= j < state.roles.len() && (#[trigger] state.roles[j]).id == owner;
            assert(next.roles[j].id == owner);
        }
        let found = choose|i: int|
            0 <= i < next.roles.len() && (#[trigger] next.roles[i]).id == state.next_id;
        assert(found == last);
    }
}

/// Inserting a batch keeps the store invariant, wherever the batch ends.
pub proof fn lemma_insert_permissions_keeps_wf(
    state: StoreState,
    role_id: u128,
    permissions: Seq<(Seq<char>, i64)>,
    now: i64,
)
    requires
        state.wf(),
    ensures
        state.insert_permissions(role_id, permissions, now).wf(),
{
    let after = state.insert_permissions(role_id, permissions, now);
    assert forall|i: int| 0 <= i < after.permissions.len() implies (#[trigger] after.permissions[i]).id
        < after.next_id && contains_role(after.roles, after.permissions[i].role_id) by {}
    assert forall|i: int, j: int| 0 <= i < j < after.permissions.len() implies (
    #[trigger] after.permissions[i]).id != (#[trigger] after.permissions[j]).id by {}
}

/// A role created together with its permissions, where the creation ended
/// well, is found under the identifier that the store handed out, and
/// listing its permissions gives exactly the inserted pairs of a name and a
/// level, in the order of insertion. The rows of every other role are as
/// they were.
pub proof fn law_created_role_lists_its_permissions(
    state: StoreState,
    name: Seq<char>,
    permissions: Seq<(Seq<char>, i64)>,
    now: i64,
)
    requires
        state.wf(),
        state.create_role_with_permissions_outcome(permissions.len()) is Ok,
    ensures
        ({
            let after = state.create_role_with_permissions_atomic(name, permissions, now);
            &&& after.role(state.next_id) == Some(state.new_role(name, now))
            &&& pairs_of(after.permissions_of(state.next_id)) == permissions
            &&& pairs_of(after.permissions_of(state.next_id)).to_set() == permissions.to_set()
            &&& forall|other: u128|
                other != state.next_id ==> #[trigger] after.permissions_of(other)
                    == state.permissions_of(other)
        }),
{
    let role_id = state.next_id;
    let with_role = state.insert_role(name, now)->Ok_0;
    let after = state.create_role_with_permissions(name, permissions, now);
    lemma_insert_role_keeps_wf(state, name, now);
    let rows = with_role.batch_rows(role_id, permissions, now, permissions.len());

    assert forall|i: int| 0 <= i < state.permissions.len() implies !owned_by(role_id)(
        #[trigger] state.permissions[i],
    ) by {
        let owner = state.permissions[i].role_id;
        let j = choose|j: int| 0 <= j < state.roles.len() && (#[trigger] state.roles[j]).id == owner;
        assert(state.roles[j].id < state.next_id);
    }
    lemma_filter_drops_all(state.permissions, owned_by(role_id));
    lemma_filter_keeps_all(rows, owned_by(role_id));
    Seq::filter_distributes_over_add(state.permissions, rows, owned_by(role_id));
    assert(pairs_of(rows) =~= permissions);

    assert forall|other: u128| other != role_id implies #[trigger] after.permissions_of(other)
        == state.permissions_of(other) by {
        lemma_filter_drops_all(rows, owned_by(other));
        Seq::filter_distributes_over_add(state.permissions, rows, owned_by(other));
        assert(state.permissions_of(other) + Seq::<RolePermissionView>::empty()
            =~= state.permissions_of(other));
    }
}

/// A granted permission always rests on a row: where the decision is yes,
/// the store holds a row of that role with that name and that level.
pub proof fn law_granted_rests_on_a_row(state: StoreState, role_id: u128, name: Seq<char>, level: i64)
    requires
        state.has_permission(role_id, name, level),
    ensures
        state.holds_row(role_id, name, level),
{
    let keep = owned_by(role_id);
    let listed = state.permissions_of(role_id);
    let at = lemma_filter_selects(state.permissions, keep);
    let i = choose|i: int|
        0 <= i < listed.len() && (#[trigger] listed[i]).permission_name == name
            && listed[i].permission_level == level && forall|j: int|
            0 <= j < i ==> (#[trigger] listed[j]).permission_name != name;
    assert(is_named(state.permissions[at[i]], role_id, name));
}

/// The decision is yes iff the store holds a row of that role with that name
/// and that level; where the role has no row of that name at all, it is no.
/// This is stated of every query but the shadowed ones: where a row of the
/// asked level exists and the first row of the name carries another level,
/// the decision is no although the row exists.
pub proof fn law_granted_iff_row_exists(state: StoreState, role_id: u128, name: Seq<char>, level: i64)
    requires
        !state.shadowed(role_id, name, level),
    ensures
        state.has_permission(role_id, name, level) <==> state.holds_row(role_id, name, level),
        (forall|i: int|
            0 <= i < state.permissions.len() ==> !is_named(
                #[trigger] state.permissions[i],
                role_id,
                name,
            )) ==> !state.has_permission(role_id, name, level),
{
    if state.has_permission(role_id, name, level) {
        law_granted_rests_on_a_row(state, role_id, name, level);
    }
    if state.holds_row(role_id, name, level) {
        let keep = owned_by(role_id);
        let listed = state.permissions_of(role_id);
        let at = lemma_filter_selects(state.permissions, keep);
        let p = choose|p: int|
            0 <= p < state.permissions.len() && is_named(
                #[trigger] state.permissions[p],
                role_id,
                name,
            ) && state.permissions[p].permission_level == level;
        let i = choose|i: int| 0 <= i < at.len() && at[i] == p;
        let first = lemma_first_named(listed, name, i);
        assert(is_named(state.permissions[at[first]], role_id, name));
        assert forall|k: int| 0 <= k < at[first] implies !is_named(
            #[trigger] state.permissions[k],
            role_id,
            name,
        ) by {
            if is_named(state.permissions[k], role_id, name) {
                assert(keep(state.permissions[k]));
                let m = choose|m: int| 0 <= m < at.len() && at[m] == k;
                assert(m < first) by {
                    if m > first {
                        assert(at[first] < at[m]);
                    }
                }
                assert(listed[m].permission_name == name);
            }
        }
    }
}

/// The law above is stated of more than the stores in which a role holds a
/// name once: there no query is shadowed.
pub proof fn law_single_rows_are_never_shadowed(
    state: StoreState,
    role_id: u128,
    name: Seq<char>,
    level: i64,
)
    requires
        forall|i: int, j: int|
            0 <= i < j < state.permissions.len() && is_named(
                #[trigger] state.permissions[i],
                role_id,
                name,
            ) ==> !is_named(#[trigger] state.permissions[j], role_id, name),
    ensures
        !state.shadowed(role_id, name, level),
{
}

/// Where the row at `upto` is named `name`, some row at or before it is the
/// first of that name.
pub proof fn lemma_first_named(rows: Seq<RolePermissionView>, name: Seq<char>, upto: int) -> (first:
    int)
    requires
        0 <= upto < rows.len(),
        rows[upto].permission_name == name,
    ensures
        0 <= first <= upto,
        rows[first].permission_name == name,
        forall|j: int| 0 <= j < first ==> (#[trigger] rows[j]).permission_name != name,
    decreases upto,
{
    if exists|j: int| 0 <= j < upto && (#[trigger] rows[j]).permission_name == name {
        let j = choose|j: int| 0 <= j < upto && (#[trigger] rows[j]).permission_name == name;
        lemma_first_named(rows, name, j)
    } else {
        upto
    }
}

/// Removing names that the role does not hold is a no-op: the store is left
/// exactly as it was.
pub proof fn law_removing_absent_names_changes_nothing(
    state: StoreState,
    role_id: u128,
    names: Seq<Seq<char>>,
)
    requires
        forall|i: int|
            0 <= i < state.permissions.len() ==> !((#[trigger] state.permissions[i]).role_id
                == role_id && names.contains(state.permissions[i].permission_name)),
    ensures
        state.delete_permissions(role_id, names) == state,
{
    lemma_filter_keeps_all(state.permissions, none_of(role_id, names));
}

/// Removal is idempotent: removing the same names a second time leaves the
/// store as the first removal left it, and after a removal the role holds no
/// row of any removed name, so that no level of such a name is granted.
pub proof fn law_removal_is_idempotent(state: StoreState, role_id: u128, names: Seq<Seq<char>>)
    ensures
        ({
            let once = state.delete_permissions(role_id, names);
            &&& once.delete_permissions(role_id, names) == once
            &&& forall|i: int|
                0 <= i < once.permissions.len() ==> !((#[trigger] once.permissions[i]).role_id
                    == role_id && names.contains(once.permissions[i].permission_name))
            &&& forall|name: Seq<char>, level: i64|
                names.contains(name) ==> !#[trigger] once.has_permission(role_id, name, level)
        }),
{
    let keep = none_of(role_id, names);
    let once = state.delete_permissions(role_id, names);
    lemma_filter_twice(state.permissions, keep, keep, keep);
    let at = lemma_filter_selects(state.permissions, keep);
    assert forall|i: int| 0 <= i < once.permissions.len() implies !((
    #[trigger] once.permissions[i]).role_id == role_id && names.contains(
        once.permissions[i].permission_name,
    )) by {
        assert(keep(state.permissions[at[i]]));
    }
    assert forall|name: Seq<char>, level: i64| names.contains(name) implies !#[trigger] once.has_permission(
        role_id,
        name,
        level,
    ) by {
        if once.has_permission(role_id, name, level) {
            law_granted_rests_on_a_row(once, role_id, name, level);
            let p = choose|p: int|
                0 <= p < once.permissions.len() && is_named(
                    #[trigger] once.permissions[p],
                    role_id,
                    name,
                ) && once.permissions[p].permission_level == level;
            assert(!keep(once.permissions[p]));
        }
    }
}

/// Removing names from a role leaves every role, the rows of every other
/// role, and the rows of the same role under other names as they were, in
/// their order.
pub proof fn law_removal_spares_the_rest(
    state: StoreState,
    role_id: u128,
    names: Seq<Seq<char>>,
    other: u128,
)
    requires
        other != role_id,
    ensures
        state.delete_permissions(role_id, names).roles == state.roles,
        state.delete_permissions(role_id, names).permissions_of(other) == state.permissions_of(
            other,
        ),
        state.delete_permissions(role_id, names).permissions_of(role_id) == state.permissions_of(
            role_id,
        ).filter(none_of(role_id, names)),
{
    let keep = none_of(role_id, names);
    lemma_filter_twice(state.permissions, keep, owned_by(other), owned_by(other));
    let kept_of_role = |row: RolePermissionView| keep(row) && owned_by(role_id)(row);
    lemma_filter_twice(state.permissions, keep, owned_by(role_id), kept_of_role);
    lemma_filter_twice(state.permissions, owned_by(role_id), keep, kept_of_role);
}

/// A batch of insertions is its writes one after the other: no write where
/// there is no pair, and one pair more is one `insert_permission` more,
/// unless a write before it was refused, after which nothing is written.
pub proof fn law_batch_is_writes_in_sequence(
    state: StoreState,
    role_id: u128,
    permissions: Seq<(Seq<char>, i64)>,
    name: Seq<char>,
    level: i64,
    now: i64,
)
    ensures
        state.insert_permissions(role_id, Seq::empty(), now) == state,
        state.insert_permissions_outcome(role_id, 0) is Ok,
        ({
            let so_far = state.insert_permissions(role_id, permissions, now);
            let outcome = state.insert_permissions_outcome(role_id, permissions.len());
            let longer = permissions.push((name, level));
            let after = state.insert_permissions(role_id, longer, now);
            let ended = state.insert_permissions_outcome(role_id, longer.len());
            match outcome {
                Ok(()) => match so_far.insert_permission(role_id, name, level, now) {
                    Ok(next) => after == next && ended is Ok,
                    Err(error) => after == so_far && ended == Err::<(), StoreError>(error),
                },
                Err(error) => after == so_far && ended == Err::<(), StoreError>(error),
            }
        }),
{
    let so_far = state.insert_permissions(role_id, permissions, now);
    let longer = permissions.push((name, level));
    let after = state.insert_permissions(role_id, longer, now);
    let count = state.accepted(role_id, permissions.len());
    assert(state.batch_rows(role_id, longer, now, count) =~= state.batch_rows(
        role_id,
        permissions,
        now,
        count,
    ));
    if state.insert_permissions_outcome(role_id, permissions.len()) is Ok {
        if let Ok(next) = so_far.insert_permission(role_id, name, level, now) {
            assert(after.permissions =~= next.permissions);
        }
    }
}

/// Once a write of a batch is refused, the batch writes no more: however
/// many pairs follow, the store and the outcome are those of the batch cut
/// off behind the refused write.
pub proof fn law_refused_batch_writes_no_more(
    state: StoreState,
    role_id: u128,
    permissions: Seq<(Seq<char>, i64)>,
    upto: int,
    now: i64,
)
    requires
        0 <= upto <= permissions.len(),
        state.insert_permissions_outcome(role_id, upto as nat) is Err,
    ensures
        state.insert_permissions(role_id, permissions, now) == state.insert_permissions(
            role_id,
            permissions.take(upto),
            now,
        ),
        state.insert_permissions_outcome(role_id, permissions.len())
            == state.insert_permissions_outcome(role_id, upto as nat),
{
    let count = state.accepted(role_id, permissions.len());
    assert(state.batch_rows(role_id, permissions, now, count) =~= state.batch_rows(
        role_id,
        permissions.take(upto),
        now,
        count,
    ));
}

/// A removal of several names is the removals of each name one after the
/// other: nothing is removed where there is no name, and one name more is one
/// `delete_permission` more.
pub proof fn law_removal_is_deletions_in_sequence(
    state: StoreState,
    role_id: u128,
    names: Seq<Seq<char>>,
    name: Seq<char>,
)
    ensures
        state.delete_permissions(role_id, Seq::empty()) == state,
        state.delete_permissions(role_id, names.push(name)) == state.delete_permissions(
            role_id,
            names,
        ).delete_permission(role_id, name),
{
    lemma_filter_keeps_all(state.permissions, none_of(role_id, Seq::empty()));
    let longer = names.push(name);
    assert forall|row: RolePermissionView| #[trigger]
        none_of(role_id, longer)(row) == (none_of(role_id, names)(row) && other_than(role_id, name)(
            row,
        )) by {
        if longer.contains(row.permission_name) {
            let k = choose|k: int| 0 <= k < longer.len() && longer[k] == row.permission_name;
            if k < names.len() {
                assert(names[k] == row.permission_name);
            }
        }
        if names.contains(row.permission_name) {
            let k = choose|k: int| 0 <= k < names.len() && names[k] == row.permission_name;
            assert(longer[k] == row.permission_name);
        }
        if name == row.permission_name {
            assert(longer[names.len() as int] == row.permission_name);
        }
    }
    lemma_filter_twice(
        state.permissions,
        none_of(role_id, names),
        other_than(role_id, name),
        none_of(role_id, longer),
    );
}

} // verus!
