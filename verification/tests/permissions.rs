use catcolab::app::{AppCtx, AppError, AppState, RefId, User};
use catcolab::auth::{
    authenticate_from_header, authenticate_from_request, authorize, bearer_token, header_text,
    higher, is_authorized, max_of, max_permission_level, new_grants, permissions, ref_exists,
    set_permissions, user_from_verification, AuthError, PermissionLevel, PermissionToSet,
    Permissions, UserPermissions,
};
use catcolab::db::{Database, Grant};
use catcolab::user::UserSummary;
use http::header::{HeaderMap, HeaderValue, AUTHORIZATION, HOST};

const DOC: RefId = RefId(0x1234_5678_9abc_def0_1234_5678_9abc_def0);
const OTHER_DOC: RefId = RefId(7);
const ABSENT: RefId = RefId(404);

fn summary(id: &str, name: &str) -> UserSummary {
    UserSummary {
        id: id.to_string(),
        username: Some(name.to_lowercase()),
        display_name: Some(name.to_string()),
    }
}

fn grant(subject: Option<&str>, object: RefId, level: PermissionLevel) -> Grant {
    Grant { subject: subject.map(str::to_string), object, level }
}

/// A document that anyone may read and that Ada owns.
fn shared_db() -> Database {
    Database {
        refs: vec![DOC, OTHER_DOC],
        users: vec![summary("A", "Ada"), summary("B", "Bob"), summary("C", "Cy")],
        permissions: vec![
            grant(None, DOC, PermissionLevel::Read),
            grant(Some("A"), DOC, PermissionLevel::Own),
        ],
    }
}

fn ctx(db: Database, user: Option<&str>) -> AppCtx {
    AppCtx {
        state: AppState { db },
        user: user.map(|id| User { user_id: id.to_string() }),
    }
}

#[test]
fn levels_are_ordered() {
    assert!(PermissionLevel::Read < PermissionLevel::Write);
    assert!(PermissionLevel::Write < PermissionLevel::Maintain);
    assert!(PermissionLevel::Maintain < PermissionLevel::Own);
    assert!(PermissionLevel::Own >= PermissionLevel::Own);
    assert_eq!(PermissionLevel::Read.max(PermissionLevel::Own), PermissionLevel::Own);
    assert_eq!(PermissionLevel::Maintain.ordinal(), 2);
}

#[test]
fn max_level_takes_the_higher_and_skips_the_absent() {
    let mut view = Permissions::default();
    assert_eq!(view.max_level(), None);
    view.anyone = Some(PermissionLevel::Read);
    assert_eq!(view.max_level(), Some(PermissionLevel::Read));
    view.user = Some(PermissionLevel::Maintain);
    assert_eq!(view.max_level(), Some(PermissionLevel::Maintain));
    view.anyone = Some(PermissionLevel::Own);
    assert_eq!(view.max_level(), Some(PermissionLevel::Own));
    view.anyone = None;
    assert_eq!(view.max_level(), Some(PermissionLevel::Maintain));
}

#[test]
fn owner_sees_everything_of_the_view() {
    let view = permissions(&ctx(shared_db(), Some("A")), DOC).unwrap();
    assert_eq!(
        view,
        Permissions {
            anyone: Some(PermissionLevel::Read),
            user: Some(PermissionLevel::Own),
            users: Some(vec![]),
        }
    );
}

#[test]
fn anonymous_sees_only_the_level_of_anyone() {
    let view = permissions(&ctx(shared_db(), None), DOC).unwrap();
    assert_eq!(
        view,
        Permissions { anyone: Some(PermissionLevel::Read), user: None, users: None }
    );
}

#[test]
fn other_users_are_listed_for_an_owner_only() {
    let mut db = shared_db();
    db.permissions.push(grant(Some("B"), DOC, PermissionLevel::Write));
    db.permissions.push(grant(Some("C"), DOC, PermissionLevel::Maintain));
    db.permissions.push(grant(Some("C"), OTHER_DOC, PermissionLevel::Own));

    let owner = permissions(&ctx(db.clone(), Some("A")), DOC).unwrap();
    assert_eq!(
        owner.users,
        Some(vec![
            UserPermissions { user: summary("B", "Bob"), level: PermissionLevel::Write },
            UserPermissions { user: summary("C", "Cy"), level: PermissionLevel::Maintain },
        ])
    );

    let maintainer = permissions(&ctx(db.clone(), Some("C")), DOC).unwrap();
    assert_eq!(maintainer.anyone, Some(PermissionLevel::Read));
    assert_eq!(maintainer.user, Some(PermissionLevel::Maintain));
    assert_eq!(maintainer.users, None);

    let stranger = permissions(&ctx(db, Some("Z")), DOC).unwrap();
    assert_eq!(stranger.user, None);
    assert_eq!(stranger.users, None);
}

#[test]
fn repeated_grants_count_once_at_their_highest_level() {
    let mut db = shared_db();
    db.permissions.push(grant(Some("B"), DOC, PermissionLevel::Read));
    db.permissions.push(grant(None, DOC, PermissionLevel::Write));
    db.permissions.push(grant(Some("B"), DOC, PermissionLevel::Maintain));
    db.permissions.push(grant(Some("A"), DOC, PermissionLevel::Read));
    db.permissions.push(grant(Some("B"), DOC, PermissionLevel::Write));

    let view = permissions(&ctx(db.clone(), Some("A")), DOC).unwrap();
    assert_eq!(view.anyone, Some(PermissionLevel::Write));
    assert_eq!(view.user, Some(PermissionLevel::Own));
    assert_eq!(
        view.users,
        Some(vec![UserPermissions {
            user: summary("B", "Bob"),
            level: PermissionLevel::Maintain
        }])
    );
    assert_eq!(
        max_permission_level(&ctx(db, Some("B")), DOC),
        Ok(Some(PermissionLevel::Maintain))
    );
}

#[test]
fn grants_to_unknown_users_are_left_out_of_the_list() {
    let mut db = shared_db();
    db.permissions.push(grant(Some("gone"), DOC, PermissionLevel::Write));
    db.permissions.push(grant(Some("B"), DOC, PermissionLevel::Read));
    let view = permissions(&ctx(db, Some("A")), DOC).unwrap();
    assert_eq!(
        view.users,
        Some(vec![UserPermissions { user: summary("B", "Bob"), level: PermissionLevel::Read }])
    );
}

#[test]
fn setting_permissions_replaces_all_but_the_owners() {
    let mut state = AppState { db: shared_db() };
    let entries =
        vec![PermissionToSet { user_id: Some("B".to_string()), level: PermissionLevel::Write }];
    assert_eq!(set_permissions(&mut state, DOC, entries), Ok(()));
    assert_eq!(
        state.db.permissions,
        vec![
            grant(Some("A"), DOC, PermissionLevel::Own),
            grant(Some("B"), DOC, PermissionLevel::Write),
        ]
    );
    assert_eq!(state.db.refs, vec![DOC, OTHER_DOC]);
    assert_eq!(state.db.users.len(), 3);

    let view = permissions(&ctx(state.db.clone(), None), DOC).unwrap();
    assert_eq!(view, Permissions { anyone: None, user: None, users: None });
    let view = permissions(&ctx(state.db, Some("A")), DOC).unwrap();
    assert_eq!(
        view,
        Permissions {
            anyone: None,
            user: Some(PermissionLevel::Own),
            users: Some(vec![UserPermissions {
                user: summary("B", "Bob"),
                level: PermissionLevel::Write
            }]),
        }
    );
}

#[test]
fn setting_permissions_of_one_ref_leaves_the_others_alone() {
    let mut state = AppState { db: shared_db() };
    state.db.permissions.insert(1, grant(Some("C"), OTHER_DOC, PermissionLevel::Write));
    state.db.permissions.push(grant(None, OTHER_DOC, PermissionLevel::Read));
    let entries =
        vec![PermissionToSet { user_id: Some("B".to_string()), level: PermissionLevel::Write }];
    assert_eq!(set_permissions(&mut state, DOC, entries), Ok(()));
    assert_eq!(
        state.db.permissions,
        vec![
            grant(Some("C"), OTHER_DOC, PermissionLevel::Write),
            grant(Some("A"), DOC, PermissionLevel::Own),
            grant(None, OTHER_DOC, PermissionLevel::Read),
            grant(Some("B"), DOC, PermissionLevel::Write),
        ]
    );
}

#[test]
fn entries_may_grant_to_anyone_and_are_taken_as_they_are() {
    let mut state = AppState { db: shared_db() };
    let entries = vec![
        PermissionToSet { user_id: None, level: PermissionLevel::Write },
        PermissionToSet { user_id: Some("B".to_string()), level: PermissionLevel::Maintain },
        PermissionToSet { user_id: Some("B".to_string()), level: PermissionLevel::Read },
    ];
    assert_eq!(set_permissions(&mut state, DOC, entries), Ok(()));
    assert_eq!(
        state.db.permissions,
        vec![
            grant(Some("A"), DOC, PermissionLevel::Own),
            grant(None, DOC, PermissionLevel::Write),
            grant(Some("B"), DOC, PermissionLevel::Maintain),
            grant(Some("B"), DOC, PermissionLevel::Read),
        ]
    );
}

#[test]
fn setting_permissions_of_a_ref_that_does_not_exist_leaves_orphans() {
    let mut state = AppState { db: shared_db() };
    let entries = vec![PermissionToSet { user_id: None, level: PermissionLevel::Read }];
    assert_eq!(set_permissions(&mut state, ABSENT, entries), Ok(()));
    assert_eq!(state.db.permissions.len(), 3);
    assert_eq!(state.db.permissions[2], grant(None, ABSENT, PermissionLevel::Read));
    assert_eq!(
        max_permission_level(&ctx(state.db, None), ABSENT),
        Ok(Some(PermissionLevel::Read))
    );
}

#[test]
fn a_user_without_a_grant_is_refused_and_not_told_that_the_ref_is_missing() {
    let db = Database {
        refs: vec![DOC],
        users: vec![summary("A", "Ada"), summary("C", "Cy")],
        permissions: vec![grant(Some("A"), DOC, PermissionLevel::Own)],
    };
    let asking = ctx(db, Some("C"));
    assert_eq!(is_authorized(&asking, DOC, PermissionLevel::Read), Ok(false));
    assert_eq!(max_permission_level(&asking, DOC), Ok(None));
    assert_eq!(authorize(&asking, DOC, PermissionLevel::Read), Err(AppError::Forbidden(DOC)));
}

#[test]
fn a_ref_without_grants_that_does_not_exist_is_not_found() {
    let anonymous = ctx(shared_db(), None);
    assert_eq!(max_permission_level(&anonymous, ABSENT), Err(AppError::NotFound(ABSENT)));
    assert_eq!(
        is_authorized(&anonymous, ABSENT, PermissionLevel::Read),
        Err(AppError::NotFound(ABSENT))
    );
    assert_eq!(
        authorize(&anonymous, ABSENT, PermissionLevel::Read),
        Err(AppError::NotFound(ABSENT))
    );
    assert_eq!(permissions(&anonymous, ABSENT), Err(AppError::NotFound(ABSENT)));
}

#[test]
fn a_ref_without_grants_that_exists_is_found() {
    let anonymous = ctx(shared_db(), None);
    assert_eq!(max_permission_level(&anonymous, OTHER_DOC), Ok(None));
    assert_eq!(
        permissions(&anonymous, OTHER_DOC),
        Ok(Permissions { anyone: None, user: None, users: None })
    );
}

#[test]
fn authorization_follows_the_order_of_the_levels() {
    let mut db = shared_db();
    db.permissions.push(grant(Some("B"), DOC, PermissionLevel::Maintain));
    let b = ctx(db, Some("B"));
    assert_eq!(max_permission_level(&b, DOC), Ok(Some(PermissionLevel::Maintain)));
    assert_eq!(is_authorized(&b, DOC, PermissionLevel::Read), Ok(true));
    assert_eq!(is_authorized(&b, DOC, PermissionLevel::Write), Ok(true));
    assert_eq!(is_authorized(&b, DOC, PermissionLevel::Maintain), Ok(true));
    assert_eq!(is_authorized(&b, DOC, PermissionLevel::Own), Ok(false));
    assert_eq!(authorize(&b, DOC, PermissionLevel::Maintain), Ok(()));
    assert_eq!(authorize(&b, DOC, PermissionLevel::Own), Err(AppError::Forbidden(DOC)));

    let anonymous = ctx(shared_db(), None);
    assert_eq!(is_authorized(&anonymous, DOC, PermissionLevel::Read), Ok(true));
    assert_eq!(is_authorized(&anonymous, DOC, PermissionLevel::Write), Ok(false));
}

#[test]
fn errors_have_their_statuses() {
    assert_eq!(AppError::NotFound(DOC).status(), 404);
    assert_eq!(AppError::Forbidden(DOC).status(), 403);
    assert_eq!(AppError::StorageFailure("connection lost".to_string()).status(), 500);
    assert_eq!(AuthError::MissingBearerScheme.status(), 401);
    assert_eq!(AuthError::VerificationFailed("expired".to_string()).status(), 401);
}

#[test]
fn a_request_without_the_header_is_anonymous() {
    let user = authenticate_from_header(None, |_token: &str| -> Result<String, String> {
        panic!("there is no token to verify")
    });
    assert_eq!(user, Ok(None));
    assert_eq!(bearer_token(None), Ok(None));
}

#[test]
fn a_header_of_another_scheme_is_an_error() {
    let user = authenticate_from_header(Some("Token abc".as_bytes()), |_token: &str| {
        Ok::<String, String>("A".to_string())
    });
    assert_eq!(user, Err(AuthError::MissingBearerScheme));
    assert_eq!(bearer_token(Some("Token abc")), Err(AuthError::MissingBearerScheme));
    assert_eq!(bearer_token(Some("bearer abc")), Err(AuthError::MissingBearerScheme));
    assert_eq!(bearer_token(Some("Bearer")), Err(AuthError::MissingBearerScheme));
    assert_eq!(bearer_token(Some("")), Err(AuthError::MissingBearerScheme));
    assert_eq!(AuthError::MissingBearerScheme.message(), "Missing Bearer token");
}

#[test]
fn a_rejected_token_is_an_error_that_keeps_the_reason() {
    let user = authenticate_from_header(Some("Bearer badtoken".as_bytes()), |token: &str| {
        assert_eq!(token, "badtoken");
        Err::<String, String>("InvalidToken".to_string())
    });
    assert_eq!(user, Err(AuthError::VerificationFailed("InvalidToken".to_string())));
    assert_eq!(user.unwrap_err().message(), "Failed to verify token: InvalidToken");
}

#[test]
fn an_accepted_token_gives_the_user() {
    let user = authenticate_from_header(Some("Bearer good.token".as_bytes()), |token: &str| {
        Ok::<User, String>(User { user_id: format!("user of {token}") })
    });
    assert_eq!(user, Ok(Some(User { user_id: "user of good.token".to_string() })));
    assert_eq!(bearer_token(Some("Bearer ")), Ok(Some("")));
    assert_eq!(bearer_token(Some("Bearer  x")), Ok(Some(" x")));
    assert_eq!(bearer_token(Some("Bearer é✓")), Ok(Some("é✓")));
}

#[test]
fn a_header_is_text_when_its_bytes_are_utf8() {
    assert_eq!(header_text(b"Bearer abc"), Some("Bearer abc"));
    assert_eq!(header_text(b""), Some(""));
    assert_eq!(header_text(b"a\tb ~"), Some("a\tb ~"));
    assert_eq!(header_text(b"a\nb\x7f"), Some("a\nb\x7f"));
    assert_eq!(header_text("Bearer é✓".as_bytes()), Some("Bearer é✓"));
    assert_eq!(header_text(&[0xff]), None);
    assert_eq!(header_text(&[b'a', 0x80]), None);
    assert_eq!(header_text(&[0xc3]), None);
    assert_eq!(header_text(&[0xed, 0xa0, 0x80]), None);
    assert_eq!(header_text(&[0xc0, 0xaf]), None);
}

#[test]
fn a_header_that_is_no_text_lacks_the_scheme() {
    let user = authenticate_from_header(Some(&[0xff][..]), |_token: &str| {
        Ok::<String, String>("A".to_string())
    });
    assert_eq!(user, Err(AuthError::MissingBearerScheme));
    let user = authenticate_from_header(Some(&b"Bearer \xfa\xfb"[..]), |_token: &str| {
        Ok::<String, String>("A".to_string())
    });
    assert_eq!(user, Err(AuthError::MissingBearerScheme));
    let user = authenticate_from_header(Some(&b""[..]), |_token: &str| {
        Ok::<String, String>("A".to_string())
    });
    assert_eq!(user, Err(AuthError::MissingBearerScheme));
}

#[test]
fn a_token_is_handed_to_the_verifier_as_it_stands() {
    let user = authenticate_from_header(Some("Bearer é".as_bytes()), |token: &str| {
        assert_eq!(token, "é");
        Ok::<String, String>(format!("user of {token}"))
    });
    assert_eq!(user, Ok(Some("user of é".to_string())));
    let user = authenticate_from_header(Some("Bearer  a b\t".as_bytes()), |token: &str| {
        assert_eq!(token, " a b\t");
        Err::<String, String>(format!("rejected [{token}]"))
    });
    assert_eq!(user, Err(AuthError::VerificationFailed("rejected [ a b\t]".to_string())));
    let user = authenticate_from_header(Some("Bearer ".as_bytes()), |token: &str| {
        assert_eq!(token, "");
        Ok::<usize, String>(token.len())
    });
    assert_eq!(user, Ok(Some(0)));
}

#[test]
fn a_header_that_is_there_is_never_anonymous() {
    let values: [&[u8]; 12] = [
        b"",
        b" ",
        b"Bearer",
        b"bearer abc",
        b" Bearer abc",
        b"Token abc",
        b"\xff",
        b"\x00",
        b"Bearer abc",
        b"Bearer ",
        b"Bearer \xc3\xa9",
        b"Bearer \xc3",
    ];
    for value in values {
        let accepted = authenticate_from_header(Some(value), |token: &str| {
            Ok::<String, String>(token.to_string())
        });
        assert_ne!(accepted, Ok(None));
        let rejected = authenticate_from_header(Some(value), |token: &str| {
            Err::<String, String>(token.to_string())
        });
        assert!(rejected.is_err());
    }
}

#[test]
fn the_highest_of_some_levels_skips_the_absent() {
    let read = Some(PermissionLevel::Read);
    let write = Some(PermissionLevel::Write);
    let maintain = Some(PermissionLevel::Maintain);
    let own = Some(PermissionLevel::Own);
    assert_eq!(max_of(&vec![]), None);
    assert_eq!(max_of(&vec![None, None]), None);
    assert_eq!(max_of(&vec![None, read, None]), read);
    assert_eq!(max_of(&vec![write, maintain, read]), maintain);
    assert_eq!(max_of(&vec![own, None, own, read]), own);
    assert_eq!(higher(None, None), None);
    assert_eq!(higher(None, read), read);
    assert_eq!(higher(write, None), write);
    assert_eq!(higher(write, read), write);
    assert_eq!(higher(write, own), own);
}

#[test]
fn grants_on_a_ref_that_does_not_exist_hide_it_from_those_without_one() {
    let mut db = shared_db();
    db.permissions.push(grant(Some("B"), ABSENT, PermissionLevel::Write));

    let holder = ctx(db.clone(), Some("B"));
    assert_eq!(max_permission_level(&holder, ABSENT), Ok(Some(PermissionLevel::Write)));
    assert_eq!(authorize(&holder, ABSENT, PermissionLevel::Write), Ok(()));

    let stranger = ctx(db, Some("C"));
    assert_eq!(max_permission_level(&stranger, ABSENT), Err(AppError::NotFound(ABSENT)));
    assert_eq!(
        authorize(&stranger, ABSENT, PermissionLevel::Read),
        Err(AppError::NotFound(ABSENT))
    );
    assert_eq!(
        permissions(&stranger, ABSENT),
        Ok(Permissions { anyone: None, user: None, users: None })
    );
}

#[test]
fn refs_exist_when_they_are_in_the_table() {
    let anonymous = ctx(shared_db(), None);
    assert_eq!(ref_exists(&anonymous, DOC), Ok(()));
    assert_eq!(ref_exists(&anonymous, OTHER_DOC), Ok(()));
    assert_eq!(ref_exists(&anonymous, ABSENT), Err(AppError::NotFound(ABSENT)));
    assert!(anonymous.state.db.ref_exists(DOC));
    assert!(!anonymous.state.db.ref_exists(ABSENT));
    assert!(!Database::new().ref_exists(DOC));
}

#[test]
fn the_tables_answer_for_one_object_and_one_subject() {
    let mut db = shared_db();
    db.permissions.push(grant(Some("B"), DOC, PermissionLevel::Write));
    db.permissions.push(grant(Some("B"), OTHER_DOC, PermissionLevel::Own));

    assert!(db.has_grants(DOC));
    assert!(db.has_grants(OTHER_DOC));
    assert!(!db.has_grants(ABSENT));

    let anyone = None;
    let b = Some("B".to_string());
    let z = Some("Z".to_string());
    assert_eq!(db.level_of(DOC, &anyone), Some(PermissionLevel::Read));
    assert_eq!(db.level_of(DOC, &b), Some(PermissionLevel::Write));
    assert_eq!(db.level_of(DOC, &z), None);
    assert_eq!(db.level_of(OTHER_DOC, &anyone), None);
    assert_eq!(db.level_of(OTHER_DOC, &b), Some(PermissionLevel::Own));

    assert_eq!(db.select_max_level(DOC, &anyone), Some(PermissionLevel::Read));
    assert_eq!(db.select_max_level(DOC, &b), Some(PermissionLevel::Write));
    assert_eq!(db.select_max_level(DOC, &z), Some(PermissionLevel::Read));
    assert_eq!(db.select_max_level(OTHER_DOC, &z), None);
    assert_eq!(db.select_max_level(ABSENT, &b), None);

    assert_eq!(db.find_user(&"B".to_string()), Some(&summary("B", "Bob")));
    assert_eq!(db.find_user(&"Z".to_string()), None);
}

#[test]
fn the_first_of_two_users_with_one_identifier_is_the_one_that_is_known() {
    let mut db = shared_db();
    db.users.push(summary("B", "Impostor"));
    db.permissions.push(grant(Some("B"), DOC, PermissionLevel::Write));
    assert_eq!(db.find_user(&"B".to_string()), Some(&summary("B", "Bob")));
    let view = permissions(&ctx(db, Some("A")), DOC).unwrap();
    assert_eq!(
        view.users,
        Some(vec![UserPermissions { user: summary("B", "Bob"), level: PermissionLevel::Write }])
    );
}

#[test]
fn grants_below_a_level_are_deleted_on_one_object_only() {
    let mut db = Database::new();
    db.permissions = vec![
        grant(None, DOC, PermissionLevel::Read),
        grant(Some("A"), DOC, PermissionLevel::Own),
        grant(Some("B"), DOC, PermissionLevel::Write),
        grant(Some("C"), DOC, PermissionLevel::Maintain),
        grant(Some("C"), OTHER_DOC, PermissionLevel::Read),
    ];
    db.delete_grants_below(DOC, PermissionLevel::Maintain);
    assert_eq!(
        db.permissions,
        vec![
            grant(Some("A"), DOC, PermissionLevel::Own),
            grant(Some("C"), DOC, PermissionLevel::Maintain),
            grant(Some("C"), OTHER_DOC, PermissionLevel::Read),
        ]
    );
    db.delete_grants_below(DOC, PermissionLevel::Read);
    assert_eq!(db.permissions.len(), 3);
    db.insert_grants(vec![grant(None, DOC, PermissionLevel::Read)]);
    assert_eq!(db.permissions.len(), 4);
    assert_eq!(db.permissions[3], grant(None, DOC, PermissionLevel::Read));
    db.delete_grants_below(OTHER_DOC, PermissionLevel::Own);
    db.delete_grants_below(DOC, PermissionLevel::Own);
    assert_eq!(db.permissions, vec![grant(Some("A"), DOC, PermissionLevel::Own)]);
}

#[test]
fn setting_no_permissions_leaves_the_owners_alone() {
    let mut state = AppState { db: shared_db() };
    assert_eq!(set_permissions(&mut state, DOC, vec![]), Ok(()));
    assert_eq!(state.db.permissions, vec![grant(Some("A"), DOC, PermissionLevel::Own)]);
    assert_eq!(set_permissions(&mut state, DOC, vec![]), Ok(()));
    assert_eq!(state.db.permissions, vec![grant(Some("A"), DOC, PermissionLevel::Own)]);
    let owner = ctx(state.db, Some("A"));
    assert_eq!(authorize(&owner, DOC, PermissionLevel::Own), Ok(()));
}

#[test]
fn entries_that_grant_ownership_add_owners() {
    let mut state = AppState { db: shared_db() };
    let entries =
        vec![PermissionToSet { user_id: Some("B".to_string()), level: PermissionLevel::Own }];
    assert_eq!(set_permissions(&mut state, DOC, entries), Ok(()));
    assert_eq!(set_permissions(&mut state, DOC, vec![]), Ok(()));
    assert_eq!(
        state.db.permissions,
        vec![
            grant(Some("A"), DOC, PermissionLevel::Own),
            grant(Some("B"), DOC, PermissionLevel::Own),
        ]
    );
}

#[test]
fn entries_become_grants_on_the_ref_in_their_order() {
    let entries = vec![
        PermissionToSet { user_id: None, level: PermissionLevel::Read },
        PermissionToSet { user_id: Some("B".to_string()), level: PermissionLevel::Maintain },
    ];
    assert_eq!(
        new_grants(OTHER_DOC, &entries),
        vec![
            grant(None, OTHER_DOC, PermissionLevel::Read),
            grant(Some("B"), OTHER_DOC, PermissionLevel::Maintain),
        ]
    );
    assert_eq!(new_grants(DOC, &vec![]), vec![]);
}

#[test]
fn copies_are_equal_to_what_they_copy() {
    let mut db = shared_db();
    db.permissions.push(grant(Some("B"), DOC, PermissionLevel::Write));
    assert_eq!(db.clone(), db);
    let asking = ctx(db, Some("A"));
    assert_eq!(asking.clone(), asking);
    let view = permissions(&asking, DOC).unwrap();
    assert_eq!(view.clone(), view);
    assert_eq!(view.max_level(), Some(PermissionLevel::Own));
    assert_eq!(asking.user_id(), Some("A".to_string()));
    assert_eq!(ctx(shared_db(), None).user_id(), None);
}

#[test]
fn what_the_verifier_says_decides_the_user() {
    assert_eq!(user_from_verification(Ok::<u8, String>(7)), Ok(Some(7)));
    assert_eq!(
        user_from_verification(Err::<u8, String>("expired".to_string())),
        Err(AuthError::VerificationFailed("expired".to_string()))
    );
}

fn headers(authorization: &[&'static str]) -> HeaderMap {
    let mut headers = HeaderMap::new();
    headers.insert(HOST, HeaderValue::from_static("example.org"));
    for value in authorization {
        headers.append(AUTHORIZATION, HeaderValue::from_static(value));
    }
    headers
}

fn accept(token: &str) -> Result<User, String> {
    Ok(User { user_id: token.to_uppercase() })
}

fn reject(token: &str) -> Result<User, String> {
    Err(format!("InvalidToken {token}"))
}

#[test]
fn requests_without_the_authorization_header_are_anonymous() {
    assert_eq!(authenticate_from_request(&HeaderMap::new(), accept), Ok(None));
    assert_eq!(authenticate_from_request(&headers(&[]), reject), Ok(None));
}

#[test]
fn requests_are_authenticated_by_their_authorization_header() {
    assert_eq!(
        authenticate_from_request(&headers(&["Token abc"]), accept),
        Err(AuthError::MissingBearerScheme)
    );
    assert_eq!(
        authenticate_from_request(&headers(&["Bearer badtoken"]), reject),
        Err(AuthError::VerificationFailed("InvalidToken badtoken".to_string()))
    );
    assert_eq!(
        authenticate_from_request(&headers(&["Bearer abc"]), accept),
        Ok(Some(User { user_id: "ABC".to_string() }))
    );
}

#[test]
fn the_first_of_several_authorization_headers_decides() {
    assert_eq!(
        authenticate_from_request(&headers(&["Bearer first", "Bearer second"]), accept),
        Ok(Some(User { user_id: "FIRST".to_string() }))
    );
    assert_eq!(
        authenticate_from_request(&headers(&["Basic abc", "Bearer second"]), accept),
        Err(AuthError::MissingBearerScheme)
    );
}

#[test]
fn an_authorization_header_that_is_no_text_is_an_error() {
    let mut headers = HeaderMap::new();
    headers.insert(AUTHORIZATION, HeaderValue::from_bytes(b"Bearer \xfa\xfb").unwrap());
    assert_eq!(authenticate_from_request(&headers, accept), Err(AuthError::MissingBearerScheme));
    headers.insert(AUTHORIZATION, HeaderValue::from_bytes(b"\xff").unwrap());
    assert_eq!(authenticate_from_request(&headers, accept), Err(AuthError::MissingBearerScheme));
    headers.insert(AUTHORIZATION, HeaderValue::from_bytes(b"").unwrap());
    assert_eq!(authenticate_from_request(&headers, accept), Err(AuthError::MissingBearerScheme));
}

#[test]
fn a_token_outside_ascii_reaches_the_verifier() {
    let mut headers = HeaderMap::new();
    headers.insert(AUTHORIZATION, HeaderValue::from_bytes("Bearer é".as_bytes()).unwrap());
    assert_eq!(
        authenticate_from_request(&headers, accept),
        Ok(Some(User { user_id: "É".to_string() }))
    );
    assert_eq!(
        authenticate_from_request(&headers, reject),
        Err(AuthError::VerificationFailed("InvalidToken é".to_string()))
    );
}
