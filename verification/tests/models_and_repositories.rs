use server_test_csharp::errors::AppError;
use server_test_csharp::models::{
    CreateProductPayload, Price, Product, ProductRecord, RegisterUserPayload, Role, RoleRecord,
    UpdateProductPayload, UpdateUserPayload, User, UserRecord, UserRoleRecord,
};
use server_test_csharp::repository::{
    apply_product_update, apply_user_update, attach_role_plan, create_user_failure,
    created_user_condition, created_user_outcome, deletion_outcome, first_user_with_roles, identifier_condition,
    new_user_record, product_insert, products_of, refetch_condition, require_found,
    required_user, role_listing, unique_lookup_outcome, update_outcome, role_lookup, unique_identifier_condition, users_with_roles,
};

const ALICE_ID: u128 = 0x11111111_2222_4333_8444_555555555555;

fn s(x: &str) -> String {
    x.to_string()
}

fn keyboard() -> ProductRecord {
    ProductRecord {
        id: 7,
        sku: s("PROD-001"),
        name: s("Keyboard"),
        slug: s("keyboard-abc123"),
        description: s("old"),
        price: Price::new(1500, 2),
        quantity: 3,
        user_id: 99,
    }
}

fn alice() -> UserRecord {
    UserRecord {
        id: ALICE_ID,
        name: s("Alice"),
        username: s("alice"),
        email: s("alice@example.com"),
        password: s("hash"),
    }
}

fn role(id: u128, name: &str) -> RoleRecord {
    RoleRecord { id, name: s(name) }
}

#[test]
fn product_from_row_keeps_every_field_but_the_owner() {
    let p = Product::from(keyboard());
    assert_eq!(p.id, 7);
    assert_eq!(p.sku, "PROD-001");
    assert_eq!(p.name, "Keyboard");
    assert_eq!(p.slug, "keyboard-abc123");
    assert_eq!(p.description, "old");
    assert_eq!(p.price, Price { mantissa: 1500, scale: 2 });
    assert_eq!(p.quantity, 3);
}

#[test]
fn role_from_row() {
    let r = Role::from(role(5, "admin"));
    assert_eq!(r.id, 5);
    assert_eq!(r.name, "admin");
}

#[test]
fn user_from_row_and_roles_keeps_role_order() {
    let u = User::from_parts(&alice(), &vec![role(2, "staff"), role(1, "admin")]);
    assert_eq!(u.id, ALICE_ID);
    assert_eq!(u.username, "alice");
    assert_eq!(u.password, "hash");
    assert_eq!(u.roles, vec![s("staff"), s("admin")]);
}

#[test]
fn registration_rules() {
    let ok = RegisterUserPayload {
        username: s("johndoe"),
        name: s("John Doe"),
        password: s("secret123"),
        email: s("john@example.com"),
    };
    assert!(ok.validate().is_ok());
    let bad = RegisterUserPayload {
        username: s("averyverylongname"),
        name: s("Jo"),
        password: s("short"),
        email: s(""),
    };
    let issues = bad.validate().unwrap_err();
    let got: Vec<(String, String)> = issues.into_iter().map(|i| (i.field, i.message)).collect();
    assert_eq!(
        got,
        vec![
            (s("username"), s("name length should be at least 3 (max 10)")),
            (s("name"), s("Nama minimal 3 karakter.")),
            (s("password"), s("Password minimal 8 karakter.")),
        ]
    );
}

#[test]
fn registration_counts_characters_not_bytes() {
    let p = RegisterUserPayload {
        username: s("äöü"),
        name: s("Zoë"),
        password: s("pässwörd"),
        email: s("x@y.z"),
    };
    assert!(p.validate().is_ok());
    let short = RegisterUserPayload { username: s("ab"), ..p };
    let issues = short.validate().unwrap_err();
    assert_eq!(issues.len(), 1);
    assert_eq!(issues[0].field, "username");
}

#[test]
fn update_rules_check_only_given_fields() {
    let none = UpdateUserPayload { username: None, name: None, password: None, email: None };
    assert!(none.validate().is_ok());
    let some = UpdateUserPayload {
        username: Some(s("ab")),
        name: Some(s("Alice")),
        password: Some(s("short")),
        email: Some(s("whatever")),
    };
    let issues = some.validate().unwrap_err();
    let fields: Vec<String> = issues.into_iter().map(|i| i.field).collect();
    assert_eq!(fields, vec![s("username"), s("password")]);
}

#[test]
fn deleting_nothing_is_not_found() {
    assert!(matches!(deletion_outcome(0), Err(AppError::NotFound)));
    assert!(deletion_outcome(1).is_ok());
    assert!(deletion_outcome(3).is_ok());
}

#[test]
fn required_rows() {
    assert!(matches!(require_found::<u8>(None), Err(AppError::NotFound)));
    assert!(matches!(require_found(Some(4u8)), Ok(4)));
}

#[test]
fn new_product_gets_a_fresh_slug_from_its_name() {
    let row = product_insert(CreateProductPayload {
        sku: s("PROD-001"),
        name: s("Mechanical Keyboard"),
        slug: s("ignored-slug"),
        description: s("RGB"),
        price: Price::new(150000, 2),
        quantity: 50,
    });
    assert_eq!(row.sku, "PROD-001");
    assert_eq!(row.name, "Mechanical Keyboard");
    assert_eq!(row.description, "RGB");
    assert_eq!(row.price, Price { mantissa: 150000, scale: 2 });
    assert_eq!(row.quantity, 50);
    assert!(row.slug.starts_with("mechanical-keyboard-"));
    assert_eq!(row.slug.len(), "mechanical-keyboard".len() + 7);
}

fn update_payload() -> UpdateProductPayload {
    UpdateProductPayload {
        sku: s("NEW-SKU"),
        name: s("Keyboard Pro"),
        slug: s("new-slug"),
        description: s("new"),
        price: Price::new(999, 1),
        quantity: 8,
    }
}

#[test]
fn product_update_keeps_id_sku_slug_and_owner() {
    let r = apply_product_update(Some(keyboard()), update_payload()).unwrap();
    assert_eq!(r.id, 7);
    assert_eq!(r.sku, "PROD-001");
    assert_eq!(r.slug, "keyboard-abc123");
    assert_eq!(r.user_id, 99);
    assert_eq!(r.name, "Keyboard Pro");
    assert_eq!(r.description, "new");
    assert_eq!(r.price, Price { mantissa: 999, scale: 1 });
    assert_eq!(r.quantity, 8);
}

#[test]
fn product_update_of_missing_product_is_not_found() {
    assert!(matches!(apply_product_update(None, update_payload()), Err(AppError::NotFound)));
}

#[test]
fn product_update_twice_is_product_update_once() {
    let once = apply_product_update(Some(keyboard()), update_payload()).unwrap();
    let twice = apply_product_update(Some(once.clone()), update_payload()).unwrap();
    assert_eq!(format!("{once:?}"), format!("{twice:?}"));
}

#[test]
fn listing_products_maps_every_row() {
    let list = products_of(&vec![keyboard(), ProductRecord { id: 8, ..keyboard() }]);
    assert_eq!(list.len(), 2);
    assert_eq!(list[0].id, 7);
    assert_eq!(list[1].id, 8);
}

#[test]
fn role_lookup_reports_absence_as_not_found() {
    assert!(matches!(role_lookup(None), Err(AppError::NotFound)));
    let found = role_lookup(Some(role(3, "editor"))).unwrap().unwrap();
    assert_eq!(found.id, 3);
    assert_eq!(found.name, "editor");
}

#[test]
fn role_listing_reports_database_errors_as_not_found() {
    assert!(matches!(role_listing(Err(s("connection reset"))), Err(AppError::NotFound)));
    let roles = role_listing(Ok(vec![role(1, "admin"), role(2, "staff")])).unwrap();
    let names: Vec<String> = roles.into_iter().map(|r| r.name).collect();
    assert_eq!(names, vec![s("admin"), s("staff")]);
}

#[test]
fn identifier_matches_username_email_or_id() {
    let by_name = identifier_condition("alice");
    assert_eq!(by_name.id, None);
    assert!(by_name.matches(&alice()));
    assert!(identifier_condition("alice@example.com").matches(&alice()));
    let by_id = identifier_condition("11111111-2222-4333-8444-555555555555");
    assert_eq!(by_id.id, Some(ALICE_ID));
    assert!(by_id.matches(&alice()));
    assert!(!identifier_condition("bob").matches(&alice()));
}

#[test]
fn refetch_after_update_finds_the_same_user() {
    let f = refetch_condition(&alice());
    assert_eq!(f.identifier, "11111111-2222-4333-8444-555555555555");
    assert_eq!(f.id, Some(ALICE_ID));
    assert!(f.matches(&alice()));
}

#[test]
fn unique_identifier_falls_back_to_the_nil_id() {
    let f = unique_identifier_condition("bob");
    assert_eq!(f.exact_id, 0);
    assert_eq!(f.by_identifier.identifier, "bob");
    let g = unique_identifier_condition("11111111-2222-4333-8444-555555555555");
    assert_eq!(g.exact_id, ALICE_ID);
}

#[test]
fn first_user_of_a_lookup() {
    assert!(matches!(first_user_with_roles(Ok(vec![])), Ok(None)));
    let rows = vec![(alice(), vec![role(1, "admin")]), (UserRecord { id: 2, ..alice() }, vec![])];
    let u = first_user_with_roles(Ok(rows)).unwrap().unwrap();
    assert_eq!(u.id, ALICE_ID);
    assert_eq!(u.roles, vec![s("admin")]);
    match first_user_with_roles(Err(s("boom"))) {
        Err(AppError::InternalError(m)) => assert_eq!(m, "boom"),
        other => panic!("{other:?}"),
    }
}

#[test]
fn all_users_of_a_lookup() {
    let rows = vec![(alice(), vec![]), (UserRecord { id: 2, ..alice() }, vec![role(1, "admin")])];
    let users = users_with_roles(Ok(rows)).unwrap();
    assert_eq!(users.len(), 2);
    assert_eq!(users[1].id, 2);
    assert_eq!(users[1].roles, vec![s("admin")]);
    assert!(matches!(users_with_roles(Err(s("x"))), Err(AppError::InternalError(_))));
}

#[test]
fn new_users_get_a_fresh_v4_id() {
    let r = new_user_record(RegisterUserPayload {
        username: s("johndoe"),
        name: s("John Doe"),
        password: s("secret123"),
        email: s("john@example.com"),
    });
    assert_eq!((r.id >> 76) & 0xf, 4);
    assert_eq!(r.username, "johndoe");
    assert_eq!(r.email, "john@example.com");
}

#[test]
fn refused_registrations() {
    match create_user_failure(Some("23505")) {
        AppError::DuplicateEntry(m) => assert_eq!(m, "Email atau username sudah terdaftar."),
        other => panic!("{other:?}"),
    }
    match create_user_failure(Some("23503")) {
        AppError::InternalError(m) => assert_eq!(m, "Gagal membuat pengguna."),
        other => panic!("{other:?}"),
    }
    assert!(matches!(create_user_failure(None), AppError::InternalError(_)));
}

#[test]
fn registration_outcome() {
    let u = User::from_parts(&alice(), &vec![]);
    assert_eq!(created_user_outcome(Ok(Some(u))).unwrap().id, ALICE_ID);
    match created_user_outcome(Ok(None)) {
        Err(AppError::InternalError(m)) => assert_eq!(m, "User already exists"),
        other => panic!("{other:?}"),
    }
    assert!(matches!(created_user_outcome(Err(AppError::NotFound)), Err(AppError::NotFound)));
}

#[test]
fn required_user_outcome() {
    assert!(matches!(required_user(Ok(None)), Err(AppError::NotFound)));
    let u = User::from_parts(&alice(), &vec![]);
    assert_eq!(required_user(Ok(Some(u))).unwrap().username, "alice");
}

#[test]
fn user_update_replaces_given_fields_only() {
    let r = apply_user_update(
        alice(),
        UpdateUserPayload { username: None, name: Some(s("Alicia")), password: None, email: Some(s("a@b.c")) },
    );
    assert_eq!(r.id, ALICE_ID);
    assert_eq!(r.name, "Alicia");
    assert_eq!(r.username, "alice");
    assert_eq!(r.email, "a@b.c");
    assert_eq!(r.password, "hash");
}

#[test]
fn empty_user_update_changes_nothing() {
    let r = apply_user_update(alice(), UpdateUserPayload { username: None, name: None, password: None, email: None });
    assert_eq!(format!("{r:?}"), format!("{:?}", alice()));
}

#[test]
fn user_update_twice_is_user_update_once() {
    let p = || UpdateUserPayload { username: Some(s("al")), name: None, password: Some(s("pw")), email: None };
    let once = apply_user_update(alice(), p());
    let twice = apply_user_update(once.clone(), p());
    assert_eq!(format!("{once:?}"), format!("{twice:?}"));
}

#[test]
fn attaching_a_role_needs_the_user() {
    assert!(matches!(attach_role_plan(None, 5), Err(AppError::NotFound)));
    let row = attach_role_plan(Some(alice()), 5).unwrap();
    assert_eq!(row, UserRoleRecord { user_id: ALICE_ID, role_id: 5 });
}

#[test]
fn registering_answers_the_reread_user() {
    let rows = vec![(alice(), vec![role(1, "user")])];
    let u = server_test_csharp::repository::registration_outcome(Ok(alice()), Ok(rows)).unwrap();
    assert_eq!(u.id, ALICE_ID);
    assert_eq!(u.roles, vec![s("user")]);
}

#[test]
fn registering_errors() {
    match server_test_csharp::repository::registration_outcome(Err(Some(s("23505"))), Ok(vec![])) {
        Err(AppError::DuplicateEntry(m)) => assert_eq!(m, "Email atau username sudah terdaftar."),
        other => panic!("{other:?}"),
    }
    match server_test_csharp::repository::registration_outcome(Err(None), Ok(vec![])) {
        Err(AppError::InternalError(m)) => assert_eq!(m, "Gagal membuat pengguna."),
        other => panic!("{other:?}"),
    }
    match server_test_csharp::repository::registration_outcome(Ok(alice()), Ok(vec![])) {
        Err(AppError::InternalError(m)) => assert_eq!(m, "User already exists"),
        other => panic!("{other:?}"),
    }
    match server_test_csharp::repository::registration_outcome(Ok(alice()), Err(s("gone"))) {
        Err(AppError::InternalError(m)) => assert_eq!(m, "gone"),
        other => panic!("{other:?}"),
    }
}

#[test]
fn reread_after_registering_also_selects_a_user_with_that_email() {
    let bob = UserRecord { id: 2, username: s("bob"), email: s("alice"), ..alice() };
    let f = created_user_condition(&alice());
    assert_eq!(f.identifier, "alice");
    assert!(f.matches(&alice()));
    assert!(f.matches(&bob));
    let u = server_test_csharp::repository::registration_outcome(Ok(alice()), Ok(vec![(bob, vec![])])).unwrap();
    assert_eq!(u.id, 2);
}

#[test]
fn identifiers_read_as_uuids_in_every_textual_form() {
    let id: u128 = 0x67e55044_10b1_426f_9247_bb680e5fe0c8;
    for text in [
        "67e55044-10b1-426f-9247-bb680e5fe0c8",
        "67E55044-10B1-426F-9247-BB680E5FE0C8",
        "67e5504410b1426f9247bb680e5fe0c8",
        "{67e55044-10b1-426f-9247-bb680e5fe0c8}",
        "URN:uuid:67e55044-10b1-426f-9247-bb680e5fe0c8",
    ] {
        assert_eq!(identifier_condition(text).id, Some(id), "{text}");
    }
    for text in [
        "67e55044-10b1-426f-9247-bb680e5fe0c",
        "67e55044_10b1_426f_9247_bb680e5fe0c8",
        "67e55044-10b1-426f-9247-bb680e5fe0cg",
        "[67e55044-10b1-426f-9247-bb680e5fe0c8]",
        "alice",
    ] {
        assert_eq!(identifier_condition(text).id, None, "{text}");
    }
}

#[test]
fn updating_answers_the_reread_user() {
    let rows = vec![(alice(), vec![role(1, "admin")])];
    let u = update_outcome(Ok(Some(alice())), Ok(()), Ok(rows)).unwrap();
    assert_eq!(u.id, ALICE_ID);
    assert_eq!(u.roles, vec![s("admin")]);
}

#[test]
fn updating_errors() {
    match update_outcome(Err(s("lookup failed")), Ok(()), Ok(vec![])) {
        Err(AppError::InternalError(m)) => assert_eq!(m, "lookup failed"),
        other => panic!("{other:?}"),
    }
    assert!(matches!(update_outcome(Ok(None), Ok(()), Ok(vec![])), Err(AppError::NotFound)));
    match update_outcome(Ok(Some(alice())), Err(s("save failed")), Ok(vec![])) {
        Err(AppError::InternalError(m)) => assert_eq!(m, "save failed"),
        other => panic!("{other:?}"),
    }
    match update_outcome(Ok(Some(alice())), Ok(()), Err(s("reread failed"))) {
        Err(AppError::InternalError(m)) => assert_eq!(m, "reread failed"),
        other => panic!("{other:?}"),
    }
    assert!(matches!(update_outcome(Ok(Some(alice())), Ok(()), Ok(vec![])), Err(AppError::NotFound)));
}

#[test]
fn unique_lookup_outcomes() {
    let u = unique_lookup_outcome(Ok(Some(alice())), Ok(vec![(alice(), vec![])])).unwrap().unwrap();
    assert_eq!(u.id, ALICE_ID);
    assert!(matches!(unique_lookup_outcome(Ok(None), Ok(vec![])), Err(AppError::NotFound)));
    assert!(matches!(
        unique_lookup_outcome(Ok(Some(alice())), Ok(vec![])),
        Err(AppError::NotFound)
    ));
    assert!(matches!(
        unique_lookup_outcome(Err(AppError::NotFound), Ok(vec![])),
        Err(AppError::NotFound)
    ));
    match unique_lookup_outcome(Ok(Some(alice())), Err(s("gone"))) {
        Err(AppError::InternalError(m)) => assert_eq!(m, "gone"),
        other => panic!("{other:?}"),
    }
}
