//! What holds of the permissions whatever the grants are: the statements
//! that relate the decisions of [`crate::auth`] to each other.

use vstd::prelude::*;

use crate::app::{AppError, RefId};
use crate::auth::{
    admission, authorization, authorized, built_view, entry_of, first_for_subject, grant_for,
    grants_for, introduces, max_opt, others, others_among, replaced, resolved_level, view_of,
    PermissionLevel, PermissionToSetView, PermissionsView, UserPermissionsView,
};
use crate::db::{granted, level_among, survives, DatabaseView, GrantView};

verus! {

/// The levels are totally ordered: any two compare, a level is at most
/// itself, two levels that are at most each other are the same, and what is
/// at most a level is at most every level above it.
pub proof fn levels_are_totally_ordered(a: PermissionLevel, b: PermissionLevel, c: PermissionLevel)
    ensures
        a.at_most(b) || b.at_most(a),
        a.at_most(a),
        a.at_most(b) && b.at_most(a) ==> a == b,
        a.at_most(b) && b.at_most(c) ==> a.at_most(c),
        PermissionLevel::Read.at_most(a) && a.at_most(PermissionLevel::Own),
{
}

/// The higher of two levels is one of them and at least both; an absent level
/// changes nothing, and the order of the two does not matter.
pub proof fn higher_is_the_least_upper_bound(
    left: Option<PermissionLevel>,
    right: Option<PermissionLevel>,
)
    ensures
        max_opt(left, right) == left || max_opt(left, right) == right,
        max_opt(left, right) == max_opt(right, left),
        max_opt(left, None) == left,
        max_opt(None, right) == right,
        left matches Some(level) ==> max_opt(left, right) is Some && level.at_most(
            max_opt(left, right)->0,
        ),
{
}

/// Whoever is authorized at a level is authorized at every lower level.
pub proof fn authorization_is_monotone(
    db: DatabaseView,
    object: RefId,
    requester: Option<Seq<char>>,
    lower: PermissionLevel,
    upper: PermissionLevel,
)
    requires
        lower.at_most(upper),
        authorization(db, object, requester, upper) == Ok::<bool, AppError>(true),
    ensures
        authorization(db, object, requester, lower) == Ok::<bool, AppError>(true),
        admission(db, object, requester, lower) is Ok,
{
}

/// Whether a ref is found does not depend on the level that is asked for, and
/// a request is forbidden only where the ref is found.
pub proof fn not_found_comes_before_forbidden(
    db: DatabaseView,
    object: RefId,
    requester: Option<Seq<char>>,
    wanted: PermissionLevel,
)
    ensures
        admission(db, object, requester, wanted) == Err::<(), AppError>(AppError::NotFound(object))
            <==> resolved_level(db, object, requester) is Err,
        admission(db, object, requester, wanted) == Err::<(), AppError>(
            AppError::Forbidden(object),
        ) <==> resolved_level(db, object, requester) is Ok && !authorized(
            db,
            object,
            requester,
            wanted,
        ),
{
}

/// The view of an object is refused as not found exactly when nothing at all
/// is granted on the object and the ref does not exist; no other error comes.
pub proof fn view_is_not_found_only_without_grants_and_ref(
    db: DatabaseView,
    object: RefId,
    requester: Option<Seq<char>>,
)
    ensures
        built_view(db, object, requester) is Err <==> !db.has_grants(object) && !db.has_ref(
            object,
        ),
        built_view(db, object, requester) matches Err(error) ==> error == AppError::NotFound(
            object,
        ),
{
}

/// The highest level on an object is refused as not found exactly when
/// nothing at all is granted on the object and the ref does not exist, and no
/// other error comes; but for a ref that does not exist and has grants, of
/// which none is to anyone or to the requester: to that requester it is not
/// found.
pub proof fn level_is_not_found_only_without_grants_and_ref(
    db: DatabaseView,
    object: RefId,
    requester: Option<Seq<char>>,
)
    requires
        db.has_ref(object) || !db.has_grants(object) || db.max_level(object, requester) is Some,
    ensures
        resolved_level(db, object, requester) is Err <==> !db.has_grants(object) && !db.has_ref(
            object,
        ),
        resolved_level(db, object, requester) matches Err(error) ==> error == AppError::NotFound(
            object,
        ),
{
    if !db.has_grants(object) {
        assert forall|subject: Option<Seq<char>>, level: PermissionLevel|
            !granted(db.permissions, object, subject, level) by {
            if granted(db.permissions, object, subject, level) {
                let i = choose|i: int|
                    0 <= i < db.permissions.len() && db.permissions[i] == (GrantView {
                        subject,
                        object,
                        level,
                    });
                assert(db.permissions[i].object == object);
            }
        }
    }
}

/// A ref that does not exist is not found by a requester to whom nothing is
/// granted on it, whatever is granted on it to others.
pub proof fn missing_ref_is_not_found_without_a_grant(
    db: DatabaseView,
    object: RefId,
    requester: Option<Seq<char>>,
)
    requires
        !db.has_ref(object),
        db.max_level(object, requester) is None,
    ensures
        resolved_level(db, object, requester) == Err::<Option<PermissionLevel>, AppError>(
            AppError::NotFound(object),
        ),
{
}

/// A ref that exists is never reported as not found: neither its highest
/// level nor its view, whatever is granted on it and whoever asks.
pub proof fn existing_ref_is_found(db: DatabaseView, object: RefId, requester: Option<Seq<char>>)
    requires
        db.has_ref(object),
    ensures
        resolved_level(db, object, requester) == Ok::<Option<PermissionLevel>, AppError>(
            db.max_level(object, requester),
        ),
        built_view(db, object, requester) == Ok::<PermissionsView, AppError>(
            view_of(db, object, requester),
        ),
{
}

/// The list of the other users is in the view of an owner, and in no other
/// view, however many grants there are.
pub proof fn others_are_disclosed_to_owners_only(
    db: DatabaseView,
    object: RefId,
    requester: Option<Seq<char>>,
)
    ensures
        view_of(db, object, requester).user != Some(PermissionLevel::Own) ==> view_of(
            db,
            object,
            requester,
        ).users is None,
        view_of(db, object, requester).user == Some(PermissionLevel::Own) ==> view_of(
            db,
            object,
            requester,
        ).users is Some,
{
}

/// The highest level in the view of an object is the highest level that the
/// requester has on the object.
pub proof fn view_shows_the_highest_level(
    db: DatabaseView,
    object: RefId,
    requester: Option<Seq<char>>,
)
    ensures
        max_opt(view_of(db, object, requester).anyone, view_of(db, object, requester).user)
            == db.max_level(object, requester),
{
}

/// Setting the permissions of an object keeps every grant of `Own` on the
/// object, removes every grant on the object below `Own` that the entries do
/// not ask for again, makes every grant that the entries ask for, and leaves
/// the grants on other objects as they are.
pub proof fn setting_permissions_keeps_owners_and_replaces_the_rest(
    rows: Seq<GrantView>,
    object: RefId,
    entries: Seq<PermissionToSetView>,
)
    ensures
        forall|row: GrantView|
            rows.contains(row) && row.object == object && row.level == PermissionLevel::Own
                ==> #[trigger] replaced(rows, object, entries).contains(row),
        forall|row: GrantView|
            rows.contains(row) && row.object == object && row.level != PermissionLevel::Own
                && !grants_for(object, entries).contains(row) ==> !(#[trigger] replaced(
                rows,
                object,
                entries,
            ).contains(row)),
        forall|i: int|
            0 <= i < entries.len() ==> replaced(rows, object, entries).contains(
                grant_for(object, #[trigger] entries[i]),
            ),
        forall|row: GrantView|
            row.object != object ==> (#[trigger] replaced(rows, object, entries).contains(row)
                <==> rows.contains(row)),
{
    let stays = |row: GrantView| survives(row, object, PermissionLevel::Own);
    let kept = rows.filter(stays);
    let added = grants_for(object, entries);
    let after = replaced(rows, object, entries);
    assert(after == kept + added);
    assert forall|row: GrantView| #[trigger] after.contains(row) <==> kept.contains(row)
        || added.contains(row) by {
        if after.contains(row) {
            let i = choose|i: int| 0 <= i < after.len() && after[i] == row;
            if i < kept.len() {
                assert(kept[i] == row);
            } else {
                assert(added[i - kept.len()] == row);
            }
        }
        if kept.contains(row) {
            let i = choose|i: int| 0 <= i < kept.len() && kept[i] == row;
            assert(after[i] == row);
        }
        if added.contains(row) {
            let i = choose|i: int| 0 <= i < added.len() && added[i] == row;
            assert(after[kept.len() + i] == row);
        }
    }
    assert forall|row: GrantView| #[trigger] kept.contains(row) <==> rows.contains(row) && stays(
        row,
    ) by {
        if kept.contains(row) {
            rows.lemma_filter_contains_rev(stays, row);
            let i = choose|i: int| 0 <= i < kept.len() && kept[i] == row;
            assert(stays(kept[i]));
        }
        if rows.contains(row) && stays(row) {
            let i = choose|i: int| 0 <= i < rows.len() && rows[i] == row;
            rows.lemma_filter_contains(stays, i);
        }
    }
    assert forall|row: GrantView| #[trigger] added.contains(row) implies row.object == object by {
        let i = choose|i: int| 0 <= i < added.len() && added[i] == row;
        assert(added[i] == grant_for(object, entries[i]));
    }
    assert forall|i: int| 0 <= i < entries.len() implies after.contains(
        grant_for(object, #[trigger] entries[i]),
    ) by {
        assert(added[i] == grant_for(object, entries[i]));
        assert(added.contains(grant_for(object, entries[i])));
    }
}

/// Whoever has `Own` on an object has it after the permissions of the object
/// were set, whatever the entries: no owner is locked out.
pub proof fn owners_remain_owners(
    rows: Seq<GrantView>,
    object: RefId,
    entries: Seq<PermissionToSetView>,
    subject: Option<Seq<char>>,
)
    requires
        level_among(rows, object, subject) == Some(PermissionLevel::Own),
    ensures
        level_among(replaced(rows, object, entries), object, subject) == Some(
            PermissionLevel::Own,
        ),
{
    let held = GrantView { subject, object, level: PermissionLevel::Own };
    assert(granted(rows, object, subject, PermissionLevel::Own));
    assert(rows.contains(held));
    setting_permissions_keeps_owners_and_replaces_the_rest(rows, object, entries);
    assert(replaced(rows, object, entries).contains(held));
}

/// Whether the entry of the list stands for a user of the object other than
/// the requester: it carries what is known of the user and the user's level
/// on the object.
pub open spec fn is_other_user(
    db: DatabaseView,
    object: RefId,
    requester: Option<Seq<char>>,
    entry: UserPermissionsView,
) -> bool {
    &&& Some(entry.user.id) != requester
    &&& db.user(entry.user.id) == Some(entry.user)
    &&& db.level_of(object, Some(entry.user.id)) == Some(entry.level)
}

/// Among the rows up to row `i` that are about the same object and subject as
/// row `i`, one is the first.
proof fn lemma_first_row(rows: Seq<GrantView>, i: int) -> (first: int)
    requires
        0 <= i < rows.len(),
    ensures
        0 <= first <= i,
        rows[first].object == rows[i].object,
        rows[first].subject == rows[i].subject,
        first_for_subject(rows, first),
    decreases i,
{
    if first_for_subject(rows, i) {
        i
    } else {
        let j = choose|j: int|
            0 <= j < i && rows[j].object == rows[i].object && rows[j].subject == rows[i].subject;
        lemma_first_row(rows, j)
    }
}

/// What is known of a user is known under the user's identifier.
proof fn lemma_user_has_id(db: DatabaseView, id: Seq<char>)
    requires
        db.user(id) is Some,
    ensures
        db.user(id)->0.id == id,
{
}

/// A subject to whom a row grants a level on an object has a level on it.
proof fn lemma_granted_has_level(rows: Seq<GrantView>, i: int)
    requires
        0 <= i < rows.len(),
    ensures
        level_among(rows, rows[i].object, rows[i].subject) is Some,
{
    let row = rows[i];
    assert(rows[i] == GrantView { subject: row.subject, object: row.object, level: row.level });
    assert(granted(rows, row.object, row.subject, row.level));
}

/// Whether one of the first `n` rows brings the entry into the list.
spec fn brought_in(
    db: DatabaseView,
    object: RefId,
    requester: Option<Seq<char>>,
    n: nat,
    entry: UserPermissionsView,
) -> bool {
    exists|i: int|
        0 <= i < n && #[trigger] introduces(db, object, requester, i) && db.permissions[i].subject
            == Some(entry.user.id) && entry == entry_of(db, object, entry.user.id)
}

/// Whether the list has an entry for the user with the identifier.
spec fn lists(list: Seq<UserPermissionsView>, id: Seq<char>) -> bool {
    exists|k: int| 0 <= k < list.len() && (#[trigger] list[k]).user.id == id
}

/// Whether no user has two entries in the list.
spec fn lists_nobody_twice(list: Seq<UserPermissionsView>) -> bool {
    forall|j: int, k: int|
        0 <= j < k < list.len() ==> (#[trigger] list[j]).user.id != (#[trigger] list[k]).user.id
}

/// The users that the first `n` grants bring into the list: each entry comes
/// from a row that introduces its user, each such row has its entry, and no
/// user has two.
proof fn lemma_others_among(
    db: DatabaseView,
    object: RefId,
    requester: Option<Seq<char>>,
    n: nat,
)
    requires
        n <= db.permissions.len(),
    ensures
        forall|k: int|
            0 <= k < others_among(db, object, requester, n).len() ==> brought_in(
                db,
                object,
                requester,
                n,
                #[trigger] others_among(db, object, requester, n)[k],
            ),
        forall|i: int|
            0 <= i < n && #[trigger] introduces(db, object, requester, i) ==> lists(
                others_among(db, object, requester, n),
                db.permissions[i].subject->0,
            ),
        lists_nobody_twice(others_among(db, object, requester, n)),
    decreases n,
{
    if n > 0 {
        let before = others_among(db, object, requester, (n - 1) as nat);
        let list = others_among(db, object, requester, n);
        lemma_others_among(db, object, requester, (n - 1) as nat);
        assert forall|k: int| 0 <= k < before.len() implies brought_in(
            db,
            object,
            requester,
            n,
            #[trigger] before[k],
        ) by {
            assert(brought_in(db, object, requester, (n - 1) as nat, before[k]));
        }
        if introduces(db, object, requester, n - 1) {
            let id = db.permissions[n - 1].subject->0;
            let entry = entry_of(db, object, id);
            lemma_user_has_id(db, id);
            assert(list == before.push(entry));
            assert(brought_in(db, object, requester, n, entry));
            assert forall|i: int|
                0 <= i < n && #[trigger] introduces(db, object, requester, i) implies lists(
                list,
                db.permissions[i].subject->0,
            ) by {
                if i < n - 1 {
                    let wanted = db.permissions[i].subject->0;
                    assert(lists(before, wanted));
                    let k = choose|k: int|
                        0 <= k < before.len() && (#[trigger] before[k]).user.id == wanted;
                    assert(list[k] == before[k]);
                } else {
                    assert(list[before.len() as int] == entry);
                }
            }
            assert forall|k: int| 0 <= k < before.len() implies (#[trigger] before[k]).user.id
                != id by {
                assert(brought_in(db, object, requester, (n - 1) as nat, before[k]));
                let i = choose|i: int|
                    0 <= i < n - 1 && #[trigger] introduces(db, object, requester, i)
                        && db.permissions[i].subject == Some(before[k].user.id);
                if before[k].user.id == id {
                    assert(db.permissions[i].object == db.permissions[n - 1].object);
                    assert(db.permissions[i].subject == db.permissions[n - 1].subject);
                    assert(first_for_subject(db.permissions, n - 1));
                }
            }
            assert forall|j: int, k: int| 0 <= j < k < list.len() implies (#[trigger] list[j]).user.id
                != (#[trigger] list[k]).user.id by {
                assert(list[j] == before[j]);
                if k < before.len() {
                    assert(list[k] == before[k]);
                }
            }
        } else {
            assert(list == before);
            assert forall|i: int|
                0 <= i < n && #[trigger] introduces(db, object, requester, i) implies lists(
                list,
                db.permissions[i].subject->0,
            ) by {
                assert(i < n - 1);
            }
        }
    }
}

/// The list of the other users names every known user other than the
/// requester to whom a level is granted on the object, names nobody else and
/// nobody twice, and gives for each what is known of the user and the user's
/// level on the object.
pub proof fn others_lists_each_other_user_once(
    db: DatabaseView,
    object: RefId,
    requester: Option<Seq<char>>,
)
    ensures
        forall|k: int|
            0 <= k < others(db, object, requester).len() ==> is_other_user(
                db,
                object,
                requester,
                #[trigger] others(db, object, requester)[k],
            ),
        forall|id: Seq<char>|
            Some(id) != requester && db.user(id) is Some && #[trigger] db.level_of(
                object,
                Some(id),
            ) is Some ==> exists|k: int|
                0 <= k < others(db, object, requester).len() && (#[trigger] others(
                    db,
                    object,
                    requester,
                )[k]).user.id == id,
        forall|j: int, k: int|
            0 <= j < k < others(db, object, requester).len() ==> (#[trigger] others(
                db,
                object,
                requester,
            )[j]).user.id != (#[trigger] others(db, object, requester)[k]).user.id,
{
    let rows = db.permissions;
    let list = others(db, object, requester);
    lemma_others_among(db, object, requester, rows.len());
    assert forall|k: int| 0 <= k < list.len() implies is_other_user(
        db,
        object,
        requester,
        #[trigger] list[k],
    ) by {
        assert(brought_in(db, object, requester, rows.len(), list[k]));
        let i = choose|i: int|
            0 <= i < rows.len() && #[trigger] introduces(db, object, requester, i)
                && rows[i].subject == Some(list[k].user.id) && list[k] == entry_of(
                db,
                object,
                list[k].user.id,
            );
        lemma_user_has_id(db, list[k].user.id);
        lemma_granted_has_level(rows, i);
    }
    assert forall|id: Seq<char>|
        Some(id) != requester && db.user(id) is Some && #[trigger] db.level_of(
            object,
            Some(id),
        ) is Some implies exists|k: int|
        0 <= k < list.len() && (#[trigger] list[k]).user.id == id by {
        let level = db.level_of(object, Some(id))->0;
        assert(granted(rows, object, Some(id), level));
        let i = choose|i: int|
            0 <= i < rows.len() && rows[i] == (GrantView { subject: Some(id), object, level });
        let first = lemma_first_row(rows, i);
        assert(introduces(db, object, requester, first));
        assert(lists(list, id));
    }
    assert(lists_nobody_twice(list));
}

} // verus!
