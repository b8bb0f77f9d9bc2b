//! Permission levels, the views built from them, and the decisions taken
//! over the grants held in the database.

use std::cmp::Ordering;

use http::{HeaderMap, HeaderValue};

use vstd::prelude::*;
use vstd::std_specs::cmp::PartialOrdSpecImpl;
use vstd::string::*;

use crate::app::{AppCtx, AppError, AppState, RefId};
use crate::db::{granted, survives, Database, DatabaseView, Grant, GrantView};
use crate::text::{copy_text, same_text, strip_prefix};
use crate::user::{UserSummary, UserSummaryView};

verus! {

/// Levels of permission that a user can have on a document.
///
/// The levels are totally ordered: `Read < Write < Maintain < Own`, and a
/// level includes everything that the levels below it allow.
#[derive(Clone, Copy, Debug, PartialEq, Eq, Structural, Ord, Hash)]
pub enum PermissionLevel {
    Read,
    Write,
    Maintain,
    Own,
}

impl PermissionLevel {
    /// Position of the level in the total order, counted from `Read`.
    pub open spec fn rank(self) -> nat {
        match self {
            PermissionLevel::Read => 0,
            PermissionLevel::Write => 1,
            PermissionLevel::Maintain => 2,
            PermissionLevel::Own => 3,
        }
    }

    /// Whether this level allows at most what `other` allows.
    pub open spec fn at_most(self, other: PermissionLevel) -> bool {
        self.rank() <= other.rank()
    }

    /// Position of the level in the total order, counted from `Read`.
    pub fn ordinal(self) -> (n: u8)
        ensures
            n == self.rank(),
    {
        match self {
            PermissionLevel::Read => 0,
            PermissionLevel::Write => 1,
            PermissionLevel::Maintain => 2,
            PermissionLevel::Own => 3,
        }
    }
}

impl PartialOrd for PermissionLevel {
    fn partial_cmp(&self, other: &Self) -> (r: Option<Ordering>) {
        let left: u8 = self.ordinal();
        let right: u8 = other.ordinal();
        if left < right {
            Some(Ordering::Less)
        } else if left == right {
            Some(Ordering::Equal)
        } else {
            Some(Ordering::Greater)
        }
    }
}

impl PartialOrdSpecImpl for PermissionLevel {
    open spec fn obeys_partial_cmp_spec() -> bool {
        true
    }

    open spec fn partial_cmp_spec(&self, other: &Self) -> Option<Ordering> {
        if self.rank() < other.rank() {
            Some(Ordering::Less)
        } else if self.rank() == other.rank() {
            Some(Ordering::Equal)
        } else {
            Some(Ordering::Greater)
        }
    }
}

/// The higher of two levels, each of which may be absent: an absent level is
/// below every level.
pub open spec fn max_opt(
    left: Option<PermissionLevel>,
    right: Option<PermissionLevel>,
) -> Option<PermissionLevel> {
    match (left, right) {
        (Some(l), Some(r)) => if l.at_most(r) {
            Some(r)
        } else {
            Some(l)
        },
        (Some(l), None) => Some(l),
        (None, r) => r,
    }
}

/// The higher of two levels, each of which may be absent.
pub fn higher(left: Option<PermissionLevel>, right: Option<PermissionLevel>) -> (top: Option<
    PermissionLevel,
>)
    ensures
        top == max_opt(left, right),
{
    match (left, right) {
        (Some(l), Some(r)) => if l <= r {
            Some(r)
        } else {
            Some(l)
        },
        (Some(l), None) => Some(l),
        (None, r) => r,
    }
}

/// The highest level for which `held` is true, if there is one.
pub open spec fn highest(held: spec_fn(PermissionLevel) -> bool) -> Option<PermissionLevel> {
    if held(PermissionLevel::Own) {
        Some(PermissionLevel::Own)
    } else if held(PermissionLevel::Maintain) {
        Some(PermissionLevel::Maintain)
    } else if held(PermissionLevel::Write) {
        Some(PermissionLevel::Write)
    } else if held(PermissionLevel::Read) {
        Some(PermissionLevel::Read)
    } else {
        None
    }
}

/// The highest of the levels, of which any may be absent; none where every
/// level is absent or there is no level at all.
pub fn max_of(levels: &Vec<Option<PermissionLevel>>) -> (top: Option<PermissionLevel>)
    ensures
        top == highest(|level: PermissionLevel| levels@.contains(Some(level))),
{
    let mut top: Option<PermissionLevel> = None;
    let mut i: usize = 0;
    while i < levels.len()
        invariant
            i <= levels.len(),
            top == highest(|level: PermissionLevel| levels@.take(i as int).contains(Some(level))),
        decreases levels.len() - i,
    {
        proof {
            let before = levels@.take(i as int);
            let after = levels@.take(i as int + 1);
            assert(after == before.push(levels@[i as int]));
            assert forall|level: PermissionLevel|
                after.contains(Some(level)) == (before.contains(Some(level)) || levels@[i as int]
                    == Some(level)) by {
                if before.contains(Some(level)) {
                    let j = choose|j: int| 0 <= j < before.len() && before[j] == Some(level);
                    assert(after[j] == Some(level));
                }
                if levels@[i as int] == Some(level) {
                    assert(after[i as int] == Some(level));
                }
                if after.contains(Some(level)) {
                    let j = choose|j: int| 0 <= j < after.len() && after[j] == Some(level);
                    if j < i {
                        assert(before[j] == Some(level));
                    }
                }
            }
        }
        top = higher(top, levels[i]);
        i += 1;
    }
    assert(levels@.take(i as int) == levels@);
    top
}

/// Permissions of a user on a document.
#[derive(Debug, PartialEq, Eq)]
pub struct UserPermissions {
    pub user: UserSummary,
    pub level: PermissionLevel,
}

/// Permissions of a user on a document, as a mathematical value.
pub struct UserPermissionsView {
    pub user: UserSummaryView,
    pub level: PermissionLevel,
}

impl View for UserPermissions {
    type V = UserPermissionsView;

    open spec fn view(&self) -> UserPermissionsView {
        UserPermissionsView { user: self.user@, level: self.level }
    }
}

impl DeepView for UserPermissions {
    type V = UserPermissionsView;

    open spec fn deep_view(&self) -> UserPermissionsView {
        self@
    }
}

impl Clone for UserPermissions {
    fn clone(&self) -> (copy: UserPermissions)
        ensures
            copy@ == self@,
    {
        UserPermissions { user: self.user.clone(), level: self.level }
    }
}

/// Permissions set on a document.
#[derive(Debug, PartialEq, Eq)]
pub struct Permissions {
    /// Base permission level for any person, logged in or not.
    pub anyone: Option<PermissionLevel>,
    /// Permission level for the current user.
    pub user: Option<PermissionLevel>,
    /// Permission levels for all other users.
    ///
    /// Only owners of the document have access to this information.
    pub users: Option<Vec<UserPermissions>>,
}

/// Permissions set on a document, as a mathematical value.
pub struct PermissionsView {
    pub anyone: Option<PermissionLevel>,
    pub user: Option<PermissionLevel>,
    pub users: Option<Seq<UserPermissionsView>>,
}

impl View for Permissions {
    type V = PermissionsView;

    open spec fn view(&self) -> PermissionsView {
        PermissionsView { anyone: self.anyone, user: self.user, users: self.users.deep_view() }
    }
}

impl Clone for Permissions {
    fn clone(&self) -> (copy: Permissions)
        ensures
            copy@ == self@,
    {
        let users = match &self.users {
            Some(users) => {
                let mut copies: Vec<UserPermissions> = Vec::new();
                let mut i: usize = 0;
                while i < users.len()
                    invariant
                        i <= users.len(),
                        copies.deep_view() == users.deep_view().take(i as int),
                    decreases users.len() - i,
                {
                    let ghost before = copies.deep_view();
                    copies.push(users[i].clone());
                    assert(copies.deep_view() == before.push(users.deep_view()[i as int]));
                    i += 1;
                }
                assert(users.deep_view().take(i as int) == users.deep_view());
                Some(copies)
            },
            None => None,
        };
        Permissions { anyone: self.anyone, user: self.user, users }
    }
}

impl Default for Permissions {
    fn default() -> (none: Permissions)
        ensures
            none.anyone is None,
            none.user is None,
            none.users is None,
    {
        Permissions { anyone: None, user: None, users: None }
    }
}

impl Permissions {
    /// Gets the highest level of permissions allowed.
    pub fn max_level(&self) -> (top: Option<PermissionLevel>)
        ensures
            top == max_opt(self.anyone, self.user),
    {
        higher(self.anyone, self.user)
    }
}

/// Whether the grants allow the requester to act on the object at the wanted
/// level: whether the wanted level is at most the highest level granted on
/// the object to anyone or to the requester.
pub open spec fn authorized(
    db: DatabaseView,
    object: RefId,
    requester: Option<Seq<char>>,
    wanted: PermissionLevel,
) -> bool {
    match db.max_level(object, requester) {
        Some(top) => wanted.at_most(top),
        None => false,
    }
}

/// The highest level that the requester has on the object, or the error that
/// the ref is not found: the error comes when nothing is granted on the
/// object to anyone or to the requester and the ref does not exist.
pub open spec fn resolved_level(
    db: DatabaseView,
    object: RefId,
    requester: Option<Seq<char>>,
) -> Result<Option<PermissionLevel>, AppError> {
    let level = db.max_level(object, requester);
    if level is None && !db.has_ref(object) {
        Err(AppError::NotFound(object))
    } else {
        Ok(level)
    }
}

/// Whether the requester is authorized to act on the object at the wanted
/// level, or the error that the ref is not found.
pub open spec fn authorization(
    db: DatabaseView,
    object: RefId,
    requester: Option<Seq<char>>,
    wanted: PermissionLevel,
) -> Result<bool, AppError> {
    match resolved_level(db, object, requester) {
        Ok(_) => Ok(authorized(db, object, requester, wanted)),
        Err(error) => Err(error),
    }
}

/// Nothing, where the requester is authorized to act on the object at the
/// wanted level; else the error that the ref is not found, or, where it is
/// found, that the action is forbidden.
pub open spec fn admission(
    db: DatabaseView,
    object: RefId,
    requester: Option<Seq<char>>,
    wanted: PermissionLevel,
) -> Result<(), AppError> {
    match authorization(db, object, requester, wanted) {
        Ok(true) => Ok(()),
        Ok(false) => Err(AppError::Forbidden(object)),
        Err(error) => Err(error),
    }
}

/// Verify that the given ref exists.
pub fn ref_exists(ctx: &AppCtx, ref_id: RefId) -> (found: Result<(), AppError>)
    ensures
        found == if ctx.state.db@.has_ref(ref_id) {
            Ok::<(), AppError>(())
        } else {
            Err(AppError::NotFound(ref_id))
        },
{
    if ctx.state.db.ref_exists(ref_id) {
        Ok(())
    } else {
        Err(AppError::NotFound(ref_id))
    }
}

/// Gets the highest level of permissions allowed for a ref.
///
/// Where no level is allowed, the result is an error if the ref does not exist.
pub fn max_permission_level(ctx: &AppCtx, ref_id: RefId) -> (level: Result<
    Option<PermissionLevel>,
    AppError,
>)
    ensures
        level == resolved_level(ctx.state.db@, ref_id, ctx.requester()),
{
    let level = ctx.state.db.select_max_level(ref_id, &ctx.user_id());
    if level.is_none() {
        match ref_exists(ctx, ref_id) {
            Ok(()) => {},
            Err(error) => {
                return Err(error);
            },
        }
    }
    Ok(level)
}

/// Is the user authorized to access a ref at a given permission level?
///
/// The result is an error if the ref does not exist.
pub fn is_authorized(ctx: &AppCtx, ref_id: RefId, level: PermissionLevel) -> (allowed: Result<
    bool,
    AppError,
>)
    ensures
        allowed == authorization(ctx.state.db@, ref_id, ctx.requester(), level),
{
    match max_permission_level(ctx, ref_id) {
        Ok(Some(max_level)) => Ok(level <= max_level),
        Ok(None) => Ok(false),
        Err(error) => Err(error),
    }
}

/// Verify that user is authorized to access a ref at a given permission level.
///
/// It is safe to proceed if the result is `Ok`; otherwise, the requested action
/// should be aborted.
pub fn authorize(ctx: &AppCtx, ref_id: RefId, level: PermissionLevel) -> (allowed: Result<
    (),
    AppError,
>)
    ensures
        allowed == admission(ctx.state.db@, ref_id, ctx.requester(), level),
{
    match is_authorized(ctx, ref_id, level) {
        Ok(true) => Ok(()),
        Ok(false) => Err(AppError::Forbidden(ref_id)),
        Err(error) => Err(error),
    }
}

/// Whether row `i` of the grants is the first grant on the object to its
/// subject.
pub open spec fn first_for_subject(rows: Seq<GrantView>, i: int) -> bool {
    forall|j: int|
        0 <= j < i ==> !((#[trigger] rows[j]).object == rows[i].object && rows[j].subject
            == rows[i].subject)
}

/// Whether row `i` of the grants brings a user into the list of the other
/// users of the object: it is the first grant on the object to its subject,
/// and the subject is a known user other than the requester.
pub open spec fn introduces(
    db: DatabaseView,
    object: RefId,
    requester: Option<Seq<char>>,
    i: int,
) -> bool {
    let row = db.permissions[i];
    &&& 0 <= i < db.permissions.len()
    &&& row.object == object
    &&& row.subject is Some
    &&& row.subject != requester
    &&& db.user(row.subject->0) is Some
    &&& first_for_subject(db.permissions, i)
}

/// The entry of a user in the list of the other users of the object: what is
/// known of the user, and the user's level on the object.
pub open spec fn entry_of(db: DatabaseView, object: RefId, id: Seq<char>) -> UserPermissionsView {
    UserPermissionsView { user: db.user(id)->0, level: db.level_of(object, Some(id))->0 }
}

/// The other users of the object that the first `n` grants bring in, in the
/// order in which the grants bring them in.
pub open spec fn others_among(
    db: DatabaseView,
    object: RefId,
    requester: Option<Seq<char>>,
    n: nat,
) -> Seq<UserPermissionsView>
    decreases n,
{
    if n == 0 {
        Seq::empty()
    } else {
        let before = others_among(db, object, requester, (n - 1) as nat);
        if introduces(db, object, requester, n - 1) {
            before.push(entry_of(db, object, db.permissions[n - 1].subject->0))
        } else {
            before
        }
    }
}

/// The known users other than the requester to whom a level is granted on the
/// object, each once and with the user's level on the object, in the order of
/// their first grants.
pub open spec fn others(db: DatabaseView, object: RefId, requester: Option<Seq<char>>) -> Seq<
    UserPermissionsView,
> {
    others_among(db, object, requester, db.permissions.len())
}

/// The permissions set on the object as the requester may see them: the level
/// of anyone, the requester's own level, and, for an owner only, the other
/// users with their levels.
pub open spec fn view_of(
    db: DatabaseView,
    object: RefId,
    requester: Option<Seq<char>>,
) -> PermissionsView {
    let user = match requester {
        Some(id) => db.level_of(object, Some(id)),
        None => None,
    };
    PermissionsView {
        anyone: db.level_of(object, None),
        user,
        users: if user == Some(PermissionLevel::Own) {
            Some(others(db, object, requester))
        } else {
            None
        },
    }
}

/// The permissions set on the object as the requester may see them, or the
/// error that the ref is not found: the error comes when nothing at all is
/// granted on the object and the ref does not exist.
pub open spec fn built_view(
    db: DatabaseView,
    object: RefId,
    requester: Option<Seq<char>>,
) -> Result<PermissionsView, AppError> {
    if !db.has_grants(object) && !db.has_ref(object) {
        Err(AppError::NotFound(object))
    } else {
        Ok(view_of(db, object, requester))
    }
}

/// Whether row `i` of the grants is the first grant on its object to its
/// subject.
fn is_first_for_subject(db: &Database, i: usize) -> (first: bool)
    requires
        i < db.permissions.len(),
    ensures
        first == first_for_subject(db@.permissions, i as int),
{
    let row = &db.permissions[i];
    let mut j: usize = 0;
    while j < i
        invariant
            j <= i,
            i < db.permissions.len(),
            row == db.permissions[i as int],
            forall|k: int|
                0 <= k < j ==> !((#[trigger] db@.permissions[k]).object == db@.permissions[i as int].object
                    && db@.permissions[k].subject == db@.permissions[i as int].subject),
        decreases i - j,
    {
        let earlier = &db.permissions[j];
        if earlier.object == row.object && same_text(&earlier.subject, &row.subject) {
            assert(db@.permissions[j as int].object == db@.permissions[i as int].object);
            return false;
        }
        j += 1;
    }
    true
}

/// The known users other than the requester to whom a level is granted on the
/// ref, with their levels.
fn other_users(db: &Database, ref_id: RefId, requester: &Option<String>) -> (list: Vec<
    UserPermissions,
>)
    ensures
        list.deep_view() == others(db@, ref_id, requester.deep_view()),
{
    let mut list: Vec<UserPermissions> = Vec::new();
    let mut i: usize = 0;
    while i < db.permissions.len()
        invariant
            i <= db.permissions.len(),
            list.deep_view() == others_among(db@, ref_id, requester.deep_view(), i as nat),
        decreases db.permissions.len() - i,
    {
        let row = &db.permissions[i];
        let ghost before = list.deep_view();
        if row.object == ref_id && !same_text(&row.subject, requester) && is_first_for_subject(
            db,
            i,
        ) {
            if let Some(id) = &row.subject {
                if let Some(user) = db.find_user(id) {
                    let level = db.level_of(ref_id, &row.subject);
                    proof {
                        let held = db@.permissions[i as int];
                        assert(granted(db@.permissions, ref_id, held.subject, held.level));
                    }
                    if let Some(level) = level {
                        list.push(UserPermissions { user: user.clone(), level });
                        assert(list.deep_view() == before.push(
                            entry_of(db@, ref_id, db@.permissions[i as int].subject->0),
                        ));
                    }
                }
            }
        }
        i += 1;
    }
    list
}

/// Gets the permissions allowed for a ref.
///
/// The list of the other users is there for an owner of the ref, and for
/// nobody else. The result is an error if nothing is granted on the ref and
/// the ref does not exist.
pub fn permissions(ctx: &AppCtx, ref_id: RefId) -> (view: Result<Permissions, AppError>)
    ensures
        match view {
            Ok(permissions) => built_view(ctx.state.db@, ref_id, ctx.requester()) == Ok::<
                PermissionsView,
                AppError,
            >(permissions@),
            Err(error) => built_view(ctx.state.db@, ref_id, ctx.requester()) == Err::<
                PermissionsView,
                AppError,
            >(error),
        },
        view matches Ok(permissions) ==> (permissions.users is Some <==> permissions.user == Some(
            PermissionLevel::Own,
        )),
{
    let db = &ctx.state.db;

    // The ref is not found if it does not exist at all.
    if !db.has_grants(ref_id) {
        match ref_exists(ctx, ref_id) {
            Ok(()) => {},
            Err(error) => {
                return Err(error);
            },
        }
    }
    let anyone = db.level_of(ref_id, &None);

    let user_id = ctx.user_id();
    let user = match &user_id {
        Some(_) => db.level_of(ref_id, &user_id),
        None => None,
    };

    let users = match user {
        Some(PermissionLevel::Own) => Some(other_users(db, ref_id, &user_id)),
        _ => None,
    };

    Ok(Permissions { anyone, user, users })
}

/// A permission entry to set on a document.
#[derive(Debug, PartialEq, Eq)]
pub struct PermissionToSet {
    /// The user to whom the level is granted, or nobody to grant it to anyone.
    pub user_id: Option<String>,
    pub level: PermissionLevel,
}

/// A permission entry as a mathematical value.
pub struct PermissionToSetView {
    pub user_id: Option<Seq<char>>,
    pub level: PermissionLevel,
}

impl View for PermissionToSet {
    type V = PermissionToSetView;

    open spec fn view(&self) -> PermissionToSetView {
        PermissionToSetView { user_id: self.user_id.deep_view(), level: self.level }
    }
}

impl DeepView for PermissionToSet {
    type V = PermissionToSetView;

    open spec fn deep_view(&self) -> PermissionToSetView {
        self@
    }
}

/// The grant that an entry asks for on the object.
pub open spec fn grant_for(object: RefId, entry: PermissionToSetView) -> GrantView {
    GrantView { subject: entry.user_id, object, level: entry.level }
}

/// The grants that the entries ask for on the object, in the order of the
/// entries.
pub open spec fn grants_for(object: RefId, entries: Seq<PermissionToSetView>) -> Seq<GrantView> {
    entries.map_values(|entry: PermissionToSetView| grant_for(object, entry))
}

/// The grants after the permissions of the object were set: those that were
/// there, but for the grants on the object below `Own`, followed by those
/// that the entries ask for.
pub open spec fn replaced(
    rows: Seq<GrantView>,
    object: RefId,
    entries: Seq<PermissionToSetView>,
) -> Seq<GrantView> {
    rows.filter(|row: GrantView| survives(row, object, PermissionLevel::Own)) + grants_for(
        object,
        entries,
    )
}

/// The grants that the entries ask for on the ref.
pub fn new_grants(ref_id: RefId, entries: &Vec<PermissionToSet>) -> (rows: Vec<Grant>)
    ensures
        rows.deep_view() == grants_for(ref_id, entries.deep_view()),
{
    let mut rows: Vec<Grant> = Vec::new();
    let mut i: usize = 0;
    while i < entries.len()
        invariant
            i <= entries.len(),
            rows.deep_view() == grants_for(ref_id, entries.deep_view().take(i as int)),
        decreases entries.len() - i,
    {
        let entry = &entries[i];
        let ghost before = rows.deep_view();
        rows.push(Grant { subject: copy_text(&entry.user_id), object: ref_id, level: entry.level });
        assert(rows.deep_view() == before.push(grant_for(ref_id, entries.deep_view()[i as int])));
        assert(entries.deep_view().take(i as int + 1) == entries.deep_view().take(i as int).push(
            entries.deep_view()[i as int],
        ));
        i += 1;
    }
    assert(entries.deep_view().take(i as int) == entries.deep_view());
    rows
}

/// Sets or updates permissions for a ref.
///
/// The grants on the ref below `Own` give way to the entries, which are taken
/// as they are; the grants of `Own` stay, and so does every grant on another
/// ref. Whether the ref exists is not asked.
pub fn set_permissions(state: &mut AppState, ref_id: RefId, entries: Vec<PermissionToSet>) -> (done:
    Result<(), AppError>)
    ensures
        done is Ok,
        final(state).db@.permissions == replaced(
            old(state).db@.permissions,
            ref_id,
            entries.deep_view(),
        ),
        final(state).db@.refs == old(state).db@.refs,
        final(state).db@.users == old(state).db@.users,
{
    let rows = new_grants(ref_id, &entries);
    state.db.delete_grants_below(ref_id, PermissionLevel::Own);
    state.db.insert_grants(rows);
    Ok(())
}

/// Ways in which a request can fail to say who is asking.
#[derive(Debug, PartialEq, Eq)]
pub enum AuthError {
    /// The authorization header does not start with the bearer scheme.
    MissingBearerScheme,
    /// The token was not accepted; the text is the verifier's own.
    VerificationFailed(String),
}

impl AuthError {
    /// The HTTP status that reports the error.
    pub open spec fn spec_status(&self) -> u16 {
        401
    }

    /// The HTTP status that reports the error.
    #[verifier::when_used_as_spec(spec_status)]
    pub fn status(&self) -> (code: u16)
        ensures
            code == self.spec_status(),
    {
        401
    }

    /// The error in words.
    pub open spec fn spec_message(&self) -> Seq<char> {
        match *self {
            AuthError::MissingBearerScheme => "Missing Bearer token"@,
            AuthError::VerificationFailed(reason) => "Failed to verify token: "@ + reason@,
        }
    }

    /// The error in words.
    pub fn message(&self) -> (words: String)
        ensures
            words@ == self.spec_message(),
    {
        match self {
            AuthError::MissingBearerScheme => String::from_str("Missing Bearer token"),
            AuthError::VerificationFailed(reason) => {
                String::from_str("Failed to verify token: ").concat(reason.as_str())
            },
        }
    }
}

/// The text that the bytes encode in UTF-8, if they encode one.
///
/// This is `std::str::from_utf8` of the standard library. The contract says
/// that the text, where there is one, is encoded by exactly the bytes, and
/// that there is none only where the bytes are no UTF-8.
#[verifier::external_body]
fn from_utf8<'a>(bytes: &'a [u8]) -> (text: Option<&'a str>)
    ensures
        match text {
            Some(text) => text.spec_bytes() == bytes@,
            None => !vstd::utf8::valid_utf8(bytes@),
        },
{
    std::str::from_utf8(bytes).ok()
}

/// The text that the value of a header encodes in UTF-8.
pub open spec fn text_of(value: Seq<u8>) -> Seq<char> {
    vstd::utf8::decode_utf8(value)
}

/// Whether the value of a header is text: whether its bytes are UTF-8.
pub open spec fn is_text(value: Seq<u8>) -> bool {
    vstd::utf8::valid_utf8(value)
}

/// The value of a header as text, if it is text.
pub fn header_text<'a>(value: &'a [u8]) -> (text: Option<&'a str>)
    ensures
        match text {
            Some(text) => is_text(value@) && text@ == text_of(value@),
            None => !is_text(value@),
        },
{
    match from_utf8(value) {
        Some(text) => {
            proof {
                vstd::utf8::encode_utf8_valid_utf8(text@);
                vstd::utf8::encode_utf8_decode_utf8(text@);
            }
            Some(text)
        },
        None => None,
    }
}

/// What an authorization header starts with when it carries a bearer token.
pub open spec fn bearer_scheme() -> Seq<char> {
    "Bearer "@
}

/// The bearer token that a request carries in its authorization header.
///
/// A request without the header carries none, which is no error; a header
/// that does not start with `Bearer ` is one.
pub fn bearer_token<'a>(auth_header: Option<&'a str>) -> (token: Result<
    Option<&'a str>,
    AuthError,
>)
    ensures
        match auth_header {
            None => token matches Ok(None),
            Some(header) => match token {
                Ok(Some(token)) => header@ == bearer_scheme() + token@,
                Ok(None) => false,
                Err(error) => error == AuthError::MissingBearerScheme && !bearer_scheme().is_prefix_of(
                    header@,
                ),
            },
        },
{
    match auth_header {
        None => Ok(None),
        Some(header) => match strip_prefix(header, "Bearer ") {
            Some(token) => Ok(Some(token)),
            None => Err(AuthError::MissingBearerScheme),
        },
    }
}

/// What a request with a bearer token is answered, given what the verifier
/// said of the token.
pub open spec fn verified<U>(outcome: Result<U, String>) -> Result<Option<U>, AuthError> {
    match outcome {
        Ok(user) => Ok(Some(user)),
        Err(reason) => Err(AuthError::VerificationFailed(reason)),
    }
}

/// Turns what the verifier said of a bearer token into the user of the
/// request, or into the error that keeps the verifier's words.
pub fn user_from_verification<U>(outcome: Result<U, String>) -> (user: Result<Option<U>, AuthError>)
    ensures
        user == verified(outcome),
{
    match outcome {
        Ok(user) => Ok(Some(user)),
        Err(reason) => Err(AuthError::VerificationFailed(reason)),
    }
}

/// Extracts an authenticated user from the value of the authorization header
/// of a request, where the request has the header.
///
/// A request without the header is anonymous, which is no error. A header
/// that is there is never taken as absent: one that is no text, or whose text
/// does not start with `Bearer `, is an error. Otherwise `verify` is called,
/// once and with the token that follows `Bearer `, as it stands: it gives the
/// user that the token stands for, or says why it does not accept the token.
pub fn authenticate_from_header<U, F>(auth_header: Option<&[u8]>, verify: F) -> (user: Result<
    Option<U>,
    AuthError,
>) where F: FnOnce(&str) -> Result<U, String>
    requires
        forall|token: &str| call_requires(verify, (token,)),
    ensures
        authenticated(
            match auth_header {
                Some(value) => Some(value@),
                None => None,
            },
            verify,
            user,
        ),
{
    let maybe_auth_header = match auth_header {
        Some(value) => match header_text(value) {
            Some(text) => Some(text),
            None => {
                return Err(AuthError::MissingBearerScheme);
            },
        },
        None => None,
    };
    match bearer_token(maybe_auth_header) {
        Ok(None) => Ok(None),
        Ok(Some(token)) => user_from_verification(verify(token)),
        Err(error) => Err(error),
    }
}

/// Whether `user` answers a request with the given value of the
/// authorization header, where `verify` checks the bearer tokens: nobody
/// where there is no header; what `verify` made of the token, where the
/// header is text that starts with `Bearer ` and the token is what follows;
/// and for every other header the error of the missing scheme.
pub open spec fn authenticated<U, F: FnOnce(&str) -> Result<U, String>>(
    auth_header: Option<Seq<u8>>,
    verify: F,
    user: Result<Option<U>, AuthError>,
) -> bool {
    match auth_header {
        None => user matches Ok(None),
        Some(value) => if is_text(value) && bearer_scheme().is_prefix_of(text_of(value)) {
            exists|token: &str, outcome: Result<U, String>|
                {
                    &&& text_of(value) == bearer_scheme() + token@
                    &&& #[trigger] call_ensures(verify, (token,), outcome)
                    &&& user == verified(outcome)
                }
        } else {
            user == Err::<Option<U>, AuthError>(AuthError::MissingBearerScheme)
        },
    }
}

/// The headers of a request: `HeaderMap` of the crate `http`, of which
/// nothing is known but what [`header_values`] names.
#[verifier::external_type_specification]
#[verifier::external_body]
#[verifier::reject_recursive_types(T)]
pub struct ExHeaderMap<T>(HeaderMap<T>);

/// The value of a header: `HeaderValue` of the crate `http`, which is only
/// passed on.
#[verifier::external_type_specification]
#[verifier::external_body]
pub struct ExHeaderValue(HeaderValue);

/// The values that the headers hold under each name, the name in lower case
/// and the values of a name in the order in which they were added.
pub uninterp spec fn header_values(headers: HeaderMap<HeaderValue>) -> Map<Seq<char>, Seq<Seq<u8>>>;

/// The first of the values that are held under the name, if there is one.
pub open spec fn first_value(values: Map<Seq<char>, Seq<Seq<u8>>>, name: Seq<char>) -> Option<
    Seq<u8>,
> {
    if values.contains_key(name) && values[name].len() > 0 {
        Some(values[name][0])
    } else {
        None
    }
}

/// The bytes of the first value of the authorization header, if the headers
/// have one.
///
/// This is `HeaderMap::get` of the crate `http`, called with the name
/// `authorization`, followed by `HeaderValue::as_bytes`. The contract says
/// that the result is the first of the values that the headers hold under
/// that name, and that there is none only where no value is held under it.
#[verifier::external_body]
fn authorization_value<'a>(headers: &'a HeaderMap<HeaderValue>) -> (value: Option<&'a [u8]>)
    ensures
        match value {
            Some(bytes) => first_value(header_values(*headers), "authorization"@) == Some(bytes@),
            None => first_value(header_values(*headers), "authorization"@) is None,
        },
{
    headers.get(http::header::AUTHORIZATION).map(|value| value.as_bytes())
}

/// Extracts an authenticated user from the headers of an HTTP request.
///
/// The first value of the authorization header decides, as
/// [`authenticate_from_header`] says.
pub fn authenticate_from_request<U, F>(headers: &HeaderMap<HeaderValue>, verify: F) -> (user: Result<
    Option<U>,
    AuthError,
>) where F: FnOnce(&str) -> Result<U, String>
    requires
        forall|token: &str| call_requires(verify, (token,)),
    ensures
        authenticated(first_value(header_values(*headers), "authorization"@), verify, user),
{
    authenticate_from_header(authorization_value(headers), verify)
}

} // verus!
