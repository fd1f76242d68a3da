use server_test_csharp::admin::{attach_role_check, create_role_check};
use server_test_csharp::errors::{internal_error, not_found_error, AppError};
use server_test_csharp::factory::{PermissionFactory, ProductFactory, RoleFactory, UserFactory};
use server_test_csharp::models::{
    PermissionRecord, Price, RolePermissionRecord, RoleRecord, UserRecord, UserRoleRecord,
};
use server_test_csharp::repository::role_lookup;
use server_test_csharp::seed::{
    admin_seed, attach_roles_plan, ensure_role, grant_record, grants_to_insert, permissions_to_create, products_to_seed,
    role_permission_plan, roles_to_create, AdminSeed, EnsureRole, GrantStep,
};

fn s(x: &str) -> String {
    x.to_string()
}

fn role(id: u128, name: &str) -> RoleRecord {
    RoleRecord { id, name: s(name) }
}

fn perm(id: u128, name: &str) -> PermissionRecord {
    PermissionRecord { id, name_permission: s(name) }
}

fn version(id: u128) -> u128 {
    (id >> 76) & 0xf
}

#[test]
fn creating_a_role_with_a_taken_name_is_refused() {
    let existing = role_lookup(Some(role(1, "admin")));
    match create_role_check(&existing) {
        Err(AppError::DuplicateEntry(m)) => assert_eq!(m, "Role with this name already exists"),
        other => panic!("{other:?}"),
    }
}

#[test]
fn creating_a_role_with_a_free_name_goes_on() {
    let absent = role_lookup(None);
    assert!(create_role_check(&absent).is_ok());
    assert!(create_role_check(&Ok(None)).is_ok());
    assert!(create_role_check(&Err(AppError::Database(s("down")))).is_ok());
}

#[test]
fn attaching_needs_an_existing_role() {
    assert!(attach_role_check(role_lookup(Some(role(2, "staff")))).is_ok());
    assert!(matches!(attach_role_check(role_lookup(None)), Err(AppError::NotFound)));
    assert!(matches!(attach_role_check(Ok(None)), Err(AppError::NotFound)));
    match attach_role_check(Err(AppError::Database(s("down")))) {
        Err(AppError::Database(m)) => assert_eq!(m, "down"),
        other => panic!("{other:?}"),
    }
}

#[test]
fn plain_error_answers() {
    assert_eq!(not_found_error(), (404, s("Not found")));
    assert_eq!(internal_error(s("disk full")), (500, s("disk full")));
}

#[test]
fn role_factory() {
    let r = RoleFactory::new().build();
    assert_eq!(r.name, "admin");
    assert_eq!(version(r.id), 4);
    assert_eq!(RoleFactory::new().name(s("editor")).build().name, "editor");
}

#[test]
fn permission_factory() {
    let p = PermissionFactory::new().build();
    assert_eq!(p.name_permission, "create");
    assert_eq!(version(p.id), 4);
    assert_eq!(PermissionFactory::new().name(s("read")).build().name_permission, "read");
}

#[test]
fn user_factory_defaults_and_setters() {
    let f = UserFactory::new();
    assert_eq!(f.name, "John Doe");
    assert_eq!(f.username, "john-doe");
    assert_eq!(f.email, "john@example.com");
    assert_eq!(f.password, "password");
    assert_eq!(version(f.id.unwrap()), 4);
    let u = UserFactory::new()
        .id(42)
        .name(s("Ann"))
        .username(s("ann"))
        .email(s("ann@x.y"))
        .password(s("pw"))
        .build();
    assert_eq!(u.id, 42);
    assert_eq!((u.name.as_str(), u.username.as_str(), u.email.as_str(), u.password.as_str()), ("Ann", "ann", "ann@x.y", "pw"));
}

#[test]
fn user_factory_without_id_gets_a_fresh_one() {
    let mut f = UserFactory::new();
    f.id = None;
    assert_eq!(version(f.build().id), 4);
}

#[test]
fn product_factory_defaults() {
    let p = ProductFactory::new(9).build();
    assert_eq!(p.name, "Default Product");
    assert_eq!(p.sku, "DEF-PROD-001");
    assert_eq!(p.slug, "default-product");
    assert_eq!(p.description, "Default product description");
    assert_eq!(p.user_id, 9);
    assert_eq!(p.price, Price { mantissa: 1000, scale: 2 });
    assert_eq!(p.quantity, 10);
    assert_eq!(version(p.id), 4);
}

#[test]
fn product_factory_setters() {
    let p = ProductFactory::new(9)
        .id(5)
        .name(s("N"))
        .sku(s("S"))
        .slug(s("sl"))
        .description(s("D"))
        .price(Price::new(1, 0))
        .quantity(2)
        .build();
    assert_eq!(p.id, 5);
    assert_eq!((p.name.as_str(), p.sku.as_str(), p.slug.as_str(), p.description.as_str()), ("N", "S", "sl", "D"));
    assert_eq!(p.price, Price { mantissa: 1, scale: 0 });
    assert_eq!(p.quantity, 2);
}

#[test]
fn product_factory_user_id_sets_the_product_id() {
    let p = ProductFactory::new(9).user_id(77).build();
    assert_eq!(p.id, 77);
    assert_eq!(p.user_id, 9);
}

fn names(rows: &[RoleRecord]) -> Vec<String> {
    rows.iter().map(|r| r.name.clone()).collect()
}

#[test]
fn seeding_roles_creates_the_missing_ones_in_order() {
    let all = roles_to_create(&vec![]);
    assert_eq!(names(&all), vec![s("admin"), s("manager"), s("staff"), s("sales"), s("guest")]);
    assert!(all.iter().all(|r| version(r.id) == 4));
    let some = roles_to_create(&vec![s("admin"), s("staff"), s("other")]);
    assert_eq!(names(&some), vec![s("manager"), s("sales"), s("guest")]);
}

#[test]
fn seeding_roles_twice_creates_nothing_more() {
    let existing = vec![s("staff")];
    let first = roles_to_create(&existing);
    let mut after = existing.clone();
    after.extend(names(&first));
    assert!(roles_to_create(&after).is_empty());
}

#[test]
fn seeding_permissions() {
    let all = permissions_to_create(&vec![]);
    let n: Vec<String> = all.iter().map(|p| p.name_permission.clone()).collect();
    assert_eq!(n, vec![s("all"), s("read"), s("create"), s("update"), s("delete")]);
    let rest = permissions_to_create(&vec![s("read"), s("delete")]);
    let n: Vec<String> = rest.iter().map(|p| p.name_permission.clone()).collect();
    assert_eq!(n, vec![s("all"), s("create"), s("update")]);
    let mut after = vec![s("read"), s("delete")];
    after.extend(n);
    assert!(permissions_to_create(&after).is_empty());
}

fn describe(step: &GrantStep) -> String {
    match step {
        GrantStep::EnsureRole(r) => format!("ensure {r}"),
        GrantStep::Grant { role_id, permission_id, role_name, permission_name } => {
            format!("grant {role_name}#{role_id} {permission_name}#{permission_id}")
        }
        GrantStep::MissingPermission(p) => format!("missing {p}"),
    }
}

#[test]
fn grant_plan_for_seeded_roles() {
    let roles = vec![role(1, "admin"), role(2, "staff"), role(3, "guest")];
    let perms = vec![perm(10, "all"), perm(11, "read"), perm(12, "create"), perm(13, "update")];
    let plan: Vec<String> = role_permission_plan(&roles, &perms).iter().map(describe).collect();
    assert_eq!(
        plan,
        vec![
            s("grant admin#1 all#10"),
            s("grant admin#1 read#11"),
            s("grant admin#1 create#12"),
            s("grant admin#1 update#13"),
            s("missing delete"),
            s("grant staff#2 read#11"),
            s("grant staff#2 create#12"),
            s("grant staff#2 update#13"),
            s("ensure user"),
        ]
    );
}

#[test]
fn grant_plan_uses_the_last_row_of_a_name() {
    let roles = vec![role(1, "staff"), role(4, "staff"), role(5, "user")];
    let perms = vec![perm(10, "read"), perm(20, "read")];
    let plan: Vec<String> = role_permission_plan(&roles, &perms).iter().map(describe).collect();
    assert_eq!(
        plan,
        vec![
            s("ensure admin"),
            s("grant staff#4 read#20"),
            s("missing create"),
            s("missing update"),
            s("grant user#5 read#20"),
        ]
    );
}

#[test]
fn grant_rows_get_fresh_ids() {
    let g = grant_record(1, 2);
    assert_eq!((g.role_id, g.permission_id), (1, 2));
    assert_eq!(version(g.id), 4);
}

#[test]
fn ensuring_a_role() {
    match ensure_role(Some(role(3, "admin")), "admin") {
        EnsureRole::Existing(r) => assert_eq!(r.id, 3),
        other => panic!("{other:?}"),
    }
    match ensure_role(None, "user") {
        EnsureRole::Create(r) => {
            assert_eq!(r.name, "user");
            assert_eq!(version(r.id), 4);
        }
        other => panic!("{other:?}"),
    }
}

#[test]
fn seeding_the_administrator() {
    let someone = UserRecord { id: 8, name: s("X"), username: s("x"), email: s("x@y"), password: s("p") };
    assert!(matches!(admin_seed(Some(someone), s("h")), AdminSeed::Existing(8)));
    match admin_seed(None, s("hashed")) {
        AdminSeed::Create(u) => {
            assert_eq!(u.username, "superadmin");
            assert_eq!(u.name, "Super Admin");
            assert_eq!(u.email, "superadmin@example.com");
            assert_eq!(u.password, "hashed");
            assert_eq!(version(u.id), 4);
        }
        other => panic!("{other:?}"),
    }
}

#[test]
fn seeding_products_only_into_an_empty_table() {
    assert!(products_to_seed(3, 1).is_empty());
    let rows = products_to_seed(0, 1);
    assert_eq!(rows.len(), 2);
    assert_eq!(rows[0].name, "Keyboard Mechanical V1");
    assert_eq!(rows[0].slug, "keyboard-mechanical-v1");
    assert_eq!(rows[0].sku, "KB-MECH-001");
    assert_eq!(rows[0].price, Price { mantissa: 9999, scale: 2 });
    assert_eq!(rows[0].quantity, 20);
    assert_eq!(rows[1].name, "Wireless Mouse Pro");
    assert_eq!(rows[1].slug, "wireless-mouse-pro");
    assert_eq!(rows[1].sku, "MS-WLS-001");
    assert_eq!(rows[1].price, Price { mantissa: 5000, scale: 2 });
    assert_eq!(rows[1].quantity, 50);
    assert!(rows.iter().all(|r| r.user_id == 1 && r.description == "Default product description"));
}

#[test]
fn giving_a_user_roles_by_name() {
    let names = vec![s("admin"), s("editor"), s("admin"), s("editor")];
    let plan = attach_roles_plan(1, &names, &vec![role(5, "admin")], &vec![UserRoleRecord { user_id: 1, role_id: 5 }]);
    assert_eq!(plan.new_roles.len(), 1);
    assert_eq!(plan.new_roles[0].name, "editor");
    assert_eq!(version(plan.new_roles[0].id), 4);
    assert_eq!(plan.new_links, vec![UserRoleRecord { user_id: 1, role_id: plan.new_roles[0].id }]);

    let fresh = attach_roles_plan(2, &vec![s("admin")], &vec![role(5, "admin"), role(6, "admin")], &vec![]);
    assert!(fresh.new_roles.is_empty());
    assert_eq!(fresh.new_links, vec![UserRoleRecord { user_id: 2, role_id: 5 }]);
}

#[test]
fn grants_already_recorded_are_not_inserted_again() {
    let roles = vec![role(1, "admin"), role(2, "staff")];
    let perms = vec![perm(10, "all"), perm(11, "read"), perm(12, "create"), perm(13, "update")];
    let plan = role_permission_plan(&roles, &perms);
    let existing = vec![
        RolePermissionRecord { id: 99, role_id: 1, permission_id: 10 },
        RolePermissionRecord { id: 98, role_id: 2, permission_id: 11 },
    ];
    let new = grants_to_insert(&plan, &existing);
    let pairs: Vec<(u128, u128)> = new.iter().map(|g| (g.role_id, g.permission_id)).collect();
    assert_eq!(pairs, vec![(1, 11), (1, 12), (1, 13), (2, 12), (2, 13)]);
    for g in &new {
        assert_eq!((g.id >> 76) & 0xF, 4);
    }
}

#[test]
fn a_second_seeding_inserts_no_grant() {
    let roles = vec![role(1, "admin"), role(2, "staff"), role(3, "user")];
    let perms = vec![perm(10, "all"), perm(11, "read"), perm(12, "create"), perm(13, "update")];
    let plan = role_permission_plan(&roles, &perms);
    let first = grants_to_insert(&plan, &Vec::new());
    assert_eq!(first.len(), 8);
    let second = grants_to_insert(&plan, &first);
    assert!(second.is_empty());
}
