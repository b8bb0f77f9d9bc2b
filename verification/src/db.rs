//! The tables that permissions are decided from, and the queries on them.

use vstd::prelude::*;

use crate::app::RefId;
use crate::auth::{higher, highest, max_opt, PermissionLevel};
use crate::text::{copy_text, same_text};
use crate::user::{UserSummary, UserSummaryView};

verus! {

/// A row of the table of permissions: a level granted on an object, to one
/// user or, where there is no subject, to anyone.
#[derive(Debug, PartialEq, Eq)]
pub struct Grant {
    pub subject: Option<String>,
    pub object: RefId,
    pub level: PermissionLevel,
}

/// A grant as a mathematical value.
pub struct GrantView {
    pub subject: Option<Seq<char>>,
    pub object: RefId,
    pub level: PermissionLevel,
}

impl View for Grant {
    type V = GrantView;

    open spec fn view(&self) -> GrantView {
        GrantView { subject: self.subject.deep_view(), object: self.object, level: self.level }
    }
}

impl DeepView for Grant {
    type V = GrantView;

    open spec fn deep_view(&self) -> GrantView {
        self@
    }
}

impl Clone for Grant {
    fn clone(&self) -> (copy: Grant)
        ensures
            copy@ == self@,
    {
        Grant { subject: copy_text(&self.subject), object: self.object, level: self.level }
    }
}

/// Whether one of the rows grants `level` on the object to the subject, where
/// no subject stands for anyone.
pub open spec fn granted(
    rows: Seq<GrantView>,
    object: RefId,
    subject: Option<Seq<char>>,
    level: PermissionLevel,
) -> bool {
    rows.contains(GrantView { subject, object, level })
}

/// The level that the rows give the subject on the object: the highest that
/// is granted, should there be more than one row.
pub open spec fn level_among(rows: Seq<GrantView>, object: RefId, subject: Option<Seq<char>>) -> Option<
    PermissionLevel,
> {
    highest(|level: PermissionLevel| granted(rows, object, subject, level))
}

/// Whether one of the rows is about the object.
pub open spec fn mentioned(rows: Seq<GrantView>, object: RefId) -> bool {
    exists|i: int| 0 <= i < rows.len() && (#[trigger] rows[i]).object == object
}

/// One more row raises the level of its own subject on its own object to at
/// least its level, and changes nothing else.
proof fn lemma_level_among_push(
    rows: Seq<GrantView>,
    row: GrantView,
    object: RefId,
    subject: Option<Seq<char>>,
)
    ensures
        level_among(rows.push(row), object, subject) == if row.object == object && row.subject
            == subject {
            max_opt(level_among(rows, object, subject), Some(row.level))
        } else {
            level_among(rows, object, subject)
        },
{
    let more = rows.push(row);
    assert forall|level: PermissionLevel|
        granted(more, object, subject, level) == (granted(rows, object, subject, level) || row
            == (GrantView { subject, object, level })) by {
        let wanted = GrantView { subject, object, level };
        if granted(rows, object, subject, level) {
            let i = choose|i: int| 0 <= i < rows.len() && rows[i] == wanted;
            assert(more[i] == wanted);
        }
        if row == wanted {
            assert(more[rows.len() as int] == wanted);
        }
        if granted(more, object, subject, level) {
            let i = choose|i: int| 0 <= i < more.len() && more[i] == wanted;
            if i < rows.len() {
                assert(rows[i] == wanted);
            }
        }
    }
}

/// Whether row `i` is the first of the users with the identifier.
pub open spec fn first_with_id(users: Seq<UserSummaryView>, id: Seq<char>, i: int) -> bool {
    &&& 0 <= i < users.len()
    &&& users[i].id == id
    &&& forall|j: int| 0 <= j < i ==> (#[trigger] users[j]).id != id
}

/// Whether a grant stays when the grants on `object` below `level` are
/// deleted.
pub open spec fn survives(row: GrantView, object: RefId, level: PermissionLevel) -> bool {
    !(row.object == object && row.level.rank() < level.rank())
}

/// The tables that permissions are decided from.
#[derive(Debug, PartialEq, Eq)]
pub struct Database {
    /// The refs that exist.
    pub refs: Vec<RefId>,
    /// The users that are known.
    pub users: Vec<UserSummary>,
    /// The permissions that have been granted.
    pub permissions: Vec<Grant>,
}

/// The tables as mathematical values.
pub struct DatabaseView {
    pub refs: Seq<RefId>,
    pub users: Seq<UserSummaryView>,
    pub permissions: Seq<GrantView>,
}

impl View for Database {
    type V = DatabaseView;

    open spec fn view(&self) -> DatabaseView {
        DatabaseView {
            refs: self.refs@,
            users: self.users.deep_view(),
            permissions: self.permissions.deep_view(),
        }
    }
}

impl DatabaseView {
    /// Whether the ref exists.
    pub open spec fn has_ref(self, object: RefId) -> bool {
        self.refs.contains(object)
    }

    /// Whether any permission at all has been granted on the object.
    pub open spec fn has_grants(self, object: RefId) -> bool {
        mentioned(self.permissions, object)
    }

    /// The level that the subject has on the object, where no subject stands
    /// for anyone: the highest that was granted, should there be more than one
    /// grant.
    pub open spec fn level_of(self, object: RefId, subject: Option<Seq<char>>) -> Option<
        PermissionLevel,
    > {
        level_among(self.permissions, object, subject)
    }

    /// What is known of the user with the identifier, if the user is known.
    pub open spec fn user(self, id: Seq<char>) -> Option<UserSummaryView> {
        if exists|i: int| first_with_id(self.users, id, i) {
            Some(self.users[choose|i: int| first_with_id(self.users, id, i)])
        } else {
            None
        }
    }

    /// The highest level granted on the object to anyone or to the requester.
    pub open spec fn max_level(self, object: RefId, requester: Option<Seq<char>>) -> Option<
        PermissionLevel,
    > {
        max_opt(self.level_of(object, None), self.level_of(object, requester))
    }
}

impl Clone for Database {
    fn clone(&self) -> (copy: Database)
        ensures
            copy@ == self@,
    {
        let mut refs: Vec<RefId> = Vec::new();
        let mut i: usize = 0;
        while i < self.refs.len()
            invariant
                i <= self.refs.len(),
                refs@ == self.refs@.take(i as int),
            decreases self.refs.len() - i,
        {
            refs.push(self.refs[i]);
            i += 1;
        }
        let mut users: Vec<UserSummary> = Vec::new();
        let mut i: usize = 0;
        while i < self.users.len()
            invariant
                i <= self.users.len(),
                users.deep_view() == self.users.deep_view().take(i as int),
            decreases self.users.len() - i,
        {
            let ghost before = users.deep_view();
            users.push(self.users[i].clone());
            assert(users.deep_view() == before.push(self.users.deep_view()[i as int]));
            i += 1;
        }
        let mut permissions: Vec<Grant> = Vec::new();
        let mut i: usize = 0;
        while i < self.permissions.len()
            invariant
                i <= self.permissions.len(),
                permissions.deep_view() == self.permissions.deep_view().take(i as int),
            decreases self.permissions.len() - i,
        {
            let ghost before = permissions.deep_view();
            permissions.push(self.permissions[i].clone());
            assert(permissions.deep_view() == before.push(self.permissions.deep_view()[i as int]));
            i += 1;
        }
        assert(refs@ == self.refs@);
        assert(users.deep_view() == self.users.deep_view());
        assert(permissions.deep_view() == self.permissions.deep_view());
        Database { refs, users, permissions }
    }
}

impl Database {
    /// Tables without a row.
    pub fn new() -> (db: Database)
        ensures
            db@.refs.len() == 0,
            db@.users.len() == 0,
            db@.permissions.len() == 0,
    {
        Database { refs: Vec::new(), users: Vec::new(), permissions: Vec::new() }
    }

    /// Whether the ref exists.
    pub fn ref_exists(&self, object: RefId) -> (found: bool)
        ensures
            found == self@.has_ref(object),
    {
        let mut i: usize = 0;
        while i < self.refs.len()
            invariant
                i <= self.refs.len(),
                forall|j: int| 0 <= j < i ==> self.refs@[j] != object,
            decreases self.refs.len() - i,
        {
            if self.refs[i] == object {
                return true;
            }
            i += 1;
        }
        false
    }

    /// Whether any permission at all has been granted on the object.
    pub fn has_grants(&self, object: RefId) -> (found: bool)
        ensures
            found == self@.has_grants(object),
    {
        let mut i: usize = 0;
        while i < self.permissions.len()
            invariant
                i <= self.permissions.len(),
                forall|j: int| 0 <= j < i ==> (#[trigger] self@.permissions[j]).object != object,
            decreases self.permissions.len() - i,
        {
            if self.permissions[i].object == object {
                assert(self@.permissions[i as int].object == object);
                return true;
            }
            i += 1;
        }
        false
    }

    /// The level that the subject has on the object, where no subject stands
    /// for anyone.
    pub fn level_of(&self, object: RefId, subject: &Option<String>) -> (level: Option<
        PermissionLevel,
    >)
        ensures
            level == self@.level_of(object, subject.deep_view()),
    {
        let ghost rows = self@.permissions;
        let mut best: Option<PermissionLevel> = None;
        let mut i: usize = 0;
        while i < self.permissions.len()
            invariant
                i <= self.permissions.len(),
                rows == self@.permissions,
                best == level_among(rows.take(i as int), object, subject.deep_view()),
            decreases self.permissions.len() - i,
        {
            let row = &self.permissions[i];
            proof {
                assert(rows.take(i as int + 1) == rows.take(i as int).push(rows[i as int]));
                lemma_level_among_push(
                    rows.take(i as int),
                    rows[i as int],
                    object,
                    subject.deep_view(),
                );
            }
            if row.object == object && same_text(&row.subject, subject) {
                best = higher(best, Some(row.level));
            }
            i += 1;
        }
        assert(rows.take(i as int) == rows);
        best
    }

    /// The highest level granted on the object to anyone or to the subject.
    pub fn select_max_level(&self, object: RefId, subject: &Option<String>) -> (level: Option<
        PermissionLevel,
    >)
        ensures
            level == self@.max_level(object, subject.deep_view()),
    {
        higher(self.level_of(object, &None), self.level_of(object, subject))
    }

    /// What is known of the user with the identifier, if the user is known.
    pub fn find_user(&self, id: &String) -> (found: Option<&UserSummary>)
        ensures
            found.deep_view() == self@.user(id@),
    {
        let mut i: usize = 0;
        while i < self.users.len()
            invariant
                i <= self.users.len(),
                forall|j: int| 0 <= j < i ==> (#[trigger] self@.users[j]).id != id@,
            decreases self.users.len() - i,
        {
            if self.users[i].id == *id {
                assert(first_with_id(self@.users, id@, i as int));
                return Some(&self.users[i]);
            }
            i += 1;
        }
        None
    }

    /// Deletes the grants on the object that are below the level, and leaves
    /// every other grant where it is.
    pub fn delete_grants_below(&mut self, object: RefId, level: PermissionLevel)
        ensures
            final(self)@.refs == old(self)@.refs,
            final(self)@.users == old(self)@.users,
            final(self)@.permissions == old(self)@.permissions.filter(
                |row: GrantView| survives(row, object, level),
            ),
    {
        let ghost rows = self@.permissions;
        let ghost keep = |row: GrantView| survives(row, object, level);
        let mut kept: Vec<Grant> = Vec::new();
        let mut i: usize = 0;
        while i < self.permissions.len()
            invariant
                i <= self.permissions.len(),
                rows == self@.permissions,
                keep == |row: GrantView| survives(row, object, level),
                kept.deep_view() == rows.take(i as int).filter(keep),
            decreases self.permissions.len() - i,
        {
            let row = &self.permissions[i];
            proof {
                assert(rows.take(i as int + 1) == rows.take(i as int).push(rows[i as int]));
                rows.take(i as int).lemma_filter_push(rows[i as int], keep);
            }
            if !(row.object == object && row.level < level) {
                let ghost before = kept.deep_view();
                kept.push(row.clone());
                assert(kept.deep_view() == before.push(rows[i as int]));
            }
            i += 1;
        }
        assert(rows.take(i as int) == rows);
        self.permissions = kept;
    }

    /// Adds the rows to the grants, after those that are there.
    pub fn insert_grants(&mut self, rows: Vec<Grant>)
        ensures
            final(self)@.refs == old(self)@.refs,
            final(self)@.users == old(self)@.users,
            final(self)@.permissions == old(self)@.permissions + rows.deep_view(),
    {
        let ghost before = self@.permissions;
        let mut rows = rows;
        let ghost added = rows.deep_view();
        self.permissions.append(&mut rows);
        assert(self@.permissions == before + added);
    }
}

} // verus!
