//! What seeding the database writes: the roles, the permissions, the
//! permissions of each role, the administrator and two sample products.
//! Each function decides from what the database already holds.

use crate::factory::{PermissionFactory, ProductFactory, RoleFactory, UserFactory};
use crate::ids::{new_uuid_v4, uuid_version};
use crate::models::{
    PermissionRecord, Price, ProductRecord, RolePermissionRecord, RoleRecord, UserRecord,
    UserRoleRecord,
};
use crate::text::{chars_of, string_from_chars};
use vstd::prelude::*;

verus! {

/// The views of a vector of texts.
pub open spec fn names_view(v: Seq<String>) -> Seq<Seq<char>> {
    v.map_values(|s: String| s@)
}

/// The views of a vector of string slices.
pub open spec fn strs_view(v: Seq<&str>) -> Seq<Seq<char>> {
    v.map_values(|s: &str| s@)
}

/// The names of role rows.
pub open spec fn role_names(rows: Seq<RoleRecord>) -> Seq<Seq<char>> {
    rows.map_values(|r: RoleRecord| r.name@)
}

/// The names of permission rows.
pub open spec fn permission_names(rows: Seq<PermissionRecord>) -> Seq<Seq<char>> {
    rows.map_values(|r: PermissionRecord| r.name_permission@)
}

/// The roles that seeding creates, in order.
pub open spec fn seed_role_names() -> Seq<Seq<char>> {
    seq!["admin"@, "manager"@, "staff"@, "sales"@, "guest"@]
}

/// The permissions that seeding creates, in order.
pub open spec fn seed_permission_names() -> Seq<Seq<char>> {
    seq!["all"@, "read"@, "create"@, "update"@, "delete"@]
}

/// The names of `names` that `existing` lacks, in order.
pub open spec fn missing_names(names: Seq<Seq<char>>, existing: Seq<Seq<char>>) -> Seq<Seq<char>> {
    names.filter(|n: Seq<char>| !existing.contains(n))
}

proof fn lemma_filter_none(s: Seq<Seq<char>>, pred: spec_fn(Seq<char>) -> bool)
    requires
        forall|i: int| 0 <= i < s.len() ==> !pred(#[trigger] s[i]),
    ensures
        s.filter(pred).len() == 0,
    decreases s.len(),
{
    reveal_with_fuel(Seq::filter, 1);
    if s.len() > 0 {
        assert forall|i: int| 0 <= i < s.drop_last().len() implies !pred(#[trigger] s.drop_last()[i]) by {
            assert(s.drop_last()[i] == s[i]);
        }
        lemma_filter_none(s.drop_last(), pred);
    }
}

/// Seeding twice creates nothing the second time: once the missing names
/// are added to those that exist, none of the seeded names is missing.
pub proof fn seeding_is_idempotent(names: Seq<Seq<char>>, existing: Seq<Seq<char>>)
    ensures
        missing_names(names, existing + missing_names(names, existing)).len() == 0,
{
    let added = missing_names(names, existing);
    let all = existing + added;
    let pred = |n: Seq<char>| !existing.contains(n);
    let pred2 = |n: Seq<char>| !all.contains(n);
    assert forall|i: int| 0 <= i < names.len() implies !pred2(#[trigger] names[i]) by {
        if existing.contains(names[i]) {
            let k = choose|k: int| 0 <= k < existing.len() && existing[k] == names[i];
            assert(all[k] == names[i]);
        } else {
            names.lemma_filter_contains(pred, i);
            let k = choose|k: int| 0 <= k < added.len() && added[k] == names[i];
            assert(all[existing.len() + k] == names[i]);
        }
    }
    lemma_filter_none(names, pred2);
}

fn contains_name(existing: &Vec<String>, name: &str) -> (r: bool)
    ensures
        r == names_view(existing@).contains(name@),
{
    let target = string_from_chars(&chars_of(name));
    let mut i: usize = 0;
    while i < existing.len()
        invariant
            i <= existing.len(),
            forall|j: int| 0 <= j < i ==> existing@[j]@ != name@,
            target@ == name@,
        decreases existing.len() - i,
    {
        if existing[i] == target {
            assert(names_view(existing@)[i as int] == name@);
            return true;
        }
        i = i + 1;
    }
    assert(!names_view(existing@).contains(name@)) by {
        if names_view(existing@).contains(name@) {
            let j = choose|j: int| 0 <= j < names_view(existing@).len() && names_view(existing@)[j] == name@;
            assert(existing@[j]@ == name@);
        }
    }
    false
}

fn role_seed_list() -> (v: Vec<&'static str>)
    ensures
        strs_view(v@) == seed_role_names(),
{
    let v = vec!["admin", "manager", "staff", "sales", "guest"];
    assert(strs_view(v@) =~= seed_role_names());
    v
}

fn permission_seed_list() -> (v: Vec<&'static str>)
    ensures
        strs_view(v@) == seed_permission_names(),
{
    let v = vec!["all", "read", "create", "update", "delete"];
    assert(strs_view(v@) =~= seed_permission_names());
    v
}

/// The names, among `names`, that `existing` lacks, in order.
fn missing_of(names: &Vec<&str>, existing: &Vec<String>) -> (v: Vec<String>)
    ensures
        names_view(v@) == missing_names(strs_view(names@), names_view(existing@)),
{
    let ghost all = strs_view(names@);
    let mut v: Vec<String> = Vec::new();
    let mut i: usize = 0;
    while i < names.len()
        invariant
            i <= names.len(),
            all == strs_view(names@),
            names_view(v@) == missing_names(all.take(i as int), names_view(existing@)),
        decreases names.len() - i,
    {
        let present = contains_name(existing, names[i]);
        let ghost old_v = v@;
        let ghost ex = names_view(existing@);
        proof {
            assert(all.take(i + 1).drop_last() =~= all.take(i as int));
            assert(all.take(i + 1).last() == names@[i as int]@);
            reveal_with_fuel(Seq::filter, 1);
            assert(missing_names(all.take(i + 1), ex) == if !ex.contains(names@[i as int]@) {
                missing_names(all.take(i as int), ex).push(names@[i as int]@)
            } else {
                missing_names(all.take(i as int), ex)
            });
        }
        if !present {
            let name = string_from_chars(&chars_of(names[i]));
            v.push(name);
            assert(names_view(v@) =~= names_view(old_v).push(names@[i as int]@));
        }
        i = i + 1;
    }
    assert(all.take(i as int) =~= all);
    v
}

/// The role rows to insert: one per seeded role name that `existing` lacks,
/// in order, each with a fresh id.
pub fn roles_to_create(existing: &Vec<String>) -> (rows: Vec<RoleRecord>)
    ensures
        role_names(rows@) == missing_names(
            seed_role_names(),
            names_view(existing@),
        ),
        forall|k: int| 0 <= k < rows@.len() ==> uuid_version(#[trigger] rows@[k].id) == 4,
{
    let names = role_seed_list();
    let missing = missing_of(&names, existing);
    let mut rows: Vec<RoleRecord> = Vec::new();
    let mut i: usize = 0;
    while i < missing.len()
        invariant
            i <= missing.len(),
            role_names(rows@) == names_view(missing@).take(i as int),
            forall|k: int| 0 <= k < rows@.len() ==> uuid_version(#[trigger] rows@[k].id) == 4,
        decreases missing.len() - i,
    {
        let ghost old_rows = rows@;
        let name = string_from_chars(&chars_of(missing[i].as_str()));
        let row = RoleFactory::new().name(name).build();
        rows.push(row);
        assert(role_names(rows@) =~= role_names(old_rows).push(row.name@));
        assert(names_view(missing@).take(i + 1) =~= names_view(missing@).take(i as int).push(
            missing@[i as int]@,
        ));
        i = i + 1;
    }
    assert(names_view(missing@).take(i as int) =~= names_view(missing@));
    rows
}

/// The permission rows to insert: one per seeded permission name that
/// `existing` lacks, in order, each with a fresh id.
pub fn permissions_to_create(existing: &Vec<String>) -> (rows: Vec<PermissionRecord>)
    ensures
        permission_names(rows@) == missing_names(
            seed_permission_names(),
            names_view(existing@),
        ),
        forall|k: int| 0 <= k < rows@.len() ==> uuid_version(#[trigger] rows@[k].id) == 4,
{
    let names = permission_seed_list();
    let missing = missing_of(&names, existing);
    let mut rows: Vec<PermissionRecord> = Vec::new();
    let mut i: usize = 0;
    while i < missing.len()
        invariant
            i <= missing.len(),
            permission_names(rows@) == names_view(missing@).take(
                i as int,
            ),
            forall|k: int| 0 <= k < rows@.len() ==> uuid_version(#[trigger] rows@[k].id) == 4,
        decreases missing.len() - i,
    {
        let ghost old_rows = rows@;
        let name = string_from_chars(&chars_of(missing[i].as_str()));
        let row = PermissionFactory::new().name(name).build();
        rows.push(row);
        assert(permission_names(rows@) =~= permission_names(old_rows).push(row.name_permission@));
        assert(names_view(missing@).take(i + 1) =~= names_view(missing@).take(i as int).push(
            missing@[i as int]@,
        ));
        i = i + 1;
    }
    assert(names_view(missing@).take(i as int) =~= names_view(missing@));
    rows
}

// ---------------------------------------------------------------------------
// Permissions of the roles
// ---------------------------------------------------------------------------

/// One step of granting the seeded permissions.
#[derive(Debug)]
pub enum GrantStep {
    /// The role does not exist: make sure it does, and grant it nothing.
    EnsureRole(String),
    /// Grant the permission to the role, unless the pair is recorded already.
    Grant { role_id: u128, permission_id: u128, role_name: String, permission_name: String },
    /// The permission does not exist: it is skipped.
    MissingPermission(String),
}

/// A grant step, with texts as sequences.
pub enum GrantView {
    EnsureRole(Seq<char>),
    Grant { role_id: u128, permission_id: u128, role_name: Seq<char>, permission_name: Seq<char> },
    MissingPermission(Seq<char>),
}

impl View for GrantStep {
    type V = GrantView;

    open spec fn view(&self) -> GrantView {
        match self {
            GrantStep::EnsureRole(r) => GrantView::EnsureRole(r@),
            GrantStep::Grant { role_id, permission_id, role_name, permission_name } => GrantView::Grant {
                role_id: *role_id,
                permission_id: *permission_id,
                role_name: role_name@,
                permission_name: permission_name@,
            },
            GrantStep::MissingPermission(p) => GrantView::MissingPermission(p@),
        }
    }
}

/// The id of the last role named `name` (a later row wins, as when the rows
/// are collected into a map by name).
pub open spec fn last_role_id(roles: Seq<RoleRecord>, name: Seq<char>) -> Option<u128>
    decreases roles.len(),
{
    if roles.len() == 0 {
        None
    } else if roles.last().name@ == name {
        Some(roles.last().id)
    } else {
        last_role_id(roles.drop_last(), name)
    }
}

/// The id of the last permission named `name`.
pub open spec fn last_permission_id(perms: Seq<PermissionRecord>, name: Seq<char>) -> Option<u128>
    decreases perms.len(),
{
    if perms.len() == 0 {
        None
    } else if perms.last().name_permission@ == name {
        Some(perms.last().id)
    } else {
        last_permission_id(perms.drop_last(), name)
    }
}

/// The step for one permission of a role whose id is known.
pub open spec fn grant_step(
    role_id: u128,
    role: Seq<char>,
    perm: Seq<char>,
    perms: Seq<PermissionRecord>,
) -> GrantView {
    match last_permission_id(perms, perm) {
        None => GrantView::MissingPermission(perm),
        Some(pid) => GrantView::Grant {
            role_id,
            permission_id: pid,
            role_name: role,
            permission_name: perm,
        },
    }
}

/// The steps for the permissions `perm_names` of a role whose id is known.
pub open spec fn grants_for(
    role_id: u128,
    role: Seq<char>,
    perm_names: Seq<Seq<char>>,
    perms: Seq<PermissionRecord>,
) -> Seq<GrantView> {
    perm_names.map_values(|p: Seq<char>| grant_step(role_id, role, p, perms))
}

/// The views of grant steps.
pub open spec fn steps_view(steps: Seq<GrantStep>) -> Seq<GrantView> {
    steps.map_values(|s: GrantStep| s@)
}

/// The steps for one role and its permissions.
pub open spec fn grant_steps(
    role: Seq<char>,
    perm_names: Seq<Seq<char>>,
    roles: Seq<RoleRecord>,
    perms: Seq<PermissionRecord>,
) -> Seq<GrantView> {
    match last_role_id(roles, role) {
        None => seq![GrantView::EnsureRole(role)],
        Some(rid) => grants_for(rid, role, perm_names, perms),
    }
}

/// The whole plan: admin gets all, read, create, update and delete; staff
/// gets read, create and update; user gets read.
pub open spec fn grant_plan(roles: Seq<RoleRecord>, perms: Seq<PermissionRecord>) -> Seq<GrantView> {
    grant_steps("admin"@, seed_permission_names(), roles, perms) + grant_steps(
        "staff"@,
        seq!["read"@, "create"@, "update"@],
        roles,
        perms,
    ) + grant_steps("user"@, seq!["read"@], roles, perms)
}

fn find_role_id(roles: &Vec<RoleRecord>, name: &String) -> (r: Option<u128>)
    ensures
        r == last_role_id(roles@, name@),
{
    let mut j: usize = roles.len();
    assert(roles@.take(j as int) =~= roles@);
    while j > 0
        invariant
            j <= roles.len(),
            last_role_id(roles@, name@) == last_role_id(roles@.take(j as int), name@),
        decreases j,
    {
        let ghost t = roles@.take(j as int);
        if roles[j - 1].name == *name {
            return Some(roles[j - 1].id);
        }
        assert(t.drop_last() =~= roles@.take(j - 1));
        j = j - 1;
    }
    None
}

fn find_permission_id(perms: &Vec<PermissionRecord>, name: &String) -> (r: Option<u128>)
    ensures
        r == last_permission_id(perms@, name@),
{
    let mut j: usize = perms.len();
    assert(perms@.take(j as int) =~= perms@);
    while j > 0
        invariant
            j <= perms.len(),
            last_permission_id(perms@, name@) == last_permission_id(perms@.take(j as int), name@),
        decreases j,
    {
        let ghost t = perms@.take(j as int);
        if perms[j - 1].name_permission == *name {
            return Some(perms[j - 1].id);
        }
        assert(t.drop_last() =~= perms@.take(j - 1));
        j = j - 1;
    }
    None
}

fn push_grant_steps(
    out: &mut Vec<GrantStep>,
    role: &str,
    perm_names: &Vec<&str>,
    roles: &Vec<RoleRecord>,
    perms: &Vec<PermissionRecord>,
)
    ensures
        steps_view(final(out)@) == steps_view(old(out)@)
            + grant_steps(role@, strs_view(perm_names@), roles@, perms@),
{
    let role_name = string_from_chars(&chars_of(role));
    match find_role_id(roles, &role_name) {
        None => {
            out.push(GrantStep::EnsureRole(role_name));
            assert(steps_view(out@) =~= steps_view(old(out)@)
                + grant_steps(role@, strs_view(perm_names@), roles@, perms@));
        },
        Some(rid) => {
            let ghost names = strs_view(perm_names@);
            let mut i: usize = 0;
            while i < perm_names.len()
                invariant
                    i <= perm_names.len(),
                    last_role_id(roles@, role@) == Some(rid),
                    names == strs_view(perm_names@),
                    steps_view(out@) == steps_view(old(out)@)
                        + grants_for(rid, role@, names.take(i as int), perms@),
                decreases perm_names.len() - i,
            {
                let perm_name = string_from_chars(&chars_of(perm_names[i]));
                let step = match find_permission_id(perms, &perm_name) {
                    None => GrantStep::MissingPermission(perm_name),
                    Some(pid) => GrantStep::Grant {
                        role_id: rid,
                        permission_id: pid,
                        role_name: string_from_chars(&chars_of(role)),
                        permission_name: perm_name,
                    },
                };
                assert(step@ == grant_step(rid, role@, names[i as int], perms@));
                let ghost old_out = out@;
                out.push(step);
                assert(steps_view(out@) =~= steps_view(old_out).push(step@));
                assert(grants_for(rid, role@, names.take(i + 1), perms@) =~= grants_for(
                    rid,
                    role@,
                    names.take(i as int),
                    perms@,
                ).push(grant_step(rid, role@, names[i as int], perms@)));
                i = i + 1;
                assert(steps_view(out@) =~= steps_view(old(out)@) + grants_for(rid, role@, names.take(i as int), perms@));
            }
            assert(names.take(i as int) =~= names);
        },
    }
}

/// The steps that grant the seeded permissions to the seeded roles, from the
/// roles and permissions that the database holds (see `grant_plan`).
pub fn role_permission_plan(roles: &Vec<RoleRecord>, perms: &Vec<PermissionRecord>) -> (steps: Vec<
    GrantStep,
>)
    ensures
        steps_view(steps@) == grant_plan(roles@, perms@),
{
    let mut steps: Vec<GrantStep> = Vec::new();
    let admin_perms = permission_seed_list();
    push_grant_steps(&mut steps, "admin", &admin_perms, roles, perms);
    let staff_perms = vec!["read", "create", "update"];
    assert(strs_view(staff_perms@) =~= seq!["read"@, "create"@, "update"@]);
    push_grant_steps(&mut steps, "staff", &staff_perms, roles, perms);
    let user_perms = vec!["read"];
    assert(strs_view(user_perms@) =~= seq!["read"@]);
    push_grant_steps(&mut steps, "user", &user_perms, roles, perms);
    assert(steps_view(steps@) =~= grant_plan(roles@, perms@));
    steps
}

/// The row that grants a permission to a role, with a fresh id.
pub fn grant_record(role_id: u128, permission_id: u128) -> (r: RolePermissionRecord)
    ensures
        r.role_id == role_id,
        r.permission_id == permission_id,
        uuid_version(r.id) == 4,
{
    RolePermissionRecord { id: new_uuid_v4(), role_id, permission_id }
}

/// The role and permission that a grant row pairs.
pub open spec fn grant_pair(g: RolePermissionRecord) -> (u128, u128) {
    (g.role_id, g.permission_id)
}

/// The pair that a step grants, if it is a `Grant` step.
pub open spec fn step_pair(v: GrantView) -> Option<(u128, u128)> {
    match v {
        GrantView::Grant { role_id, permission_id, .. } => Some((role_id, permission_id)),
        _ => None,
    }
}

/// No two grant rows pair the same role and permission.
pub open spec fn grant_pairs_distinct(g: Seq<RolePermissionRecord>) -> bool {
    forall|i: int, j: int| 0 <= i < j < g.len() ==> grant_pair(g[i]) != grant_pair(g[j])
}

/// Some row of `g` pairs `role_id` and `permission_id`.
pub open spec fn has_grant(g: Seq<RolePermissionRecord>, role_id: u128, permission_id: u128) -> bool {
    exists|k: int| 0 <= k < g.len() && grant_pair(g[k]) == (role_id, permission_id)
}

/// `new` holds the rows that carry out the `Grant` steps of `steps` over the
/// recorded rows `existing`: one row per granted pair that is not recorded
/// yet, none twice, each with a fresh id.
pub open spec fn grants_carry_out(
    steps: Seq<GrantView>,
    existing: Seq<RolePermissionRecord>,
    new: Seq<RolePermissionRecord>,
    upto: int,
) -> bool {
    &&& grant_pairs_distinct(new)
    &&& forall|k: int|
        0 <= k < new.len() ==> !has_grant(existing, (#[trigger] new[k]).role_id, new[k].permission_id)
            && uuid_version(new[k].id) == 4
            && exists|j: int| 0 <= j < upto && #[trigger] step_pair(steps[j]) == Some(grant_pair(new[k]))
    &&& forall|j: int|
        0 <= j < upto && #[trigger] step_pair(steps[j]) is Some ==> has_grant(
            existing,
            step_pair(steps[j]).unwrap().0,
            step_pair(steps[j]).unwrap().1,
        ) || has_grant(new, step_pair(steps[j]).unwrap().0, step_pair(steps[j]).unwrap().1)
}

fn find_grant(g: &Vec<RolePermissionRecord>, role_id: u128, permission_id: u128) -> (r: bool)
    ensures
        r == has_grant(g@, role_id, permission_id),
{
    let mut i: usize = 0;
    while i < g.len()
        invariant
            i <= g.len(),
            forall|k: int| 0 <= k < i ==> grant_pair(g@[k]) != (role_id, permission_id),
        decreases g.len() - i,
    {
        if g[i].role_id == role_id && g[i].permission_id == permission_id {
            assert(grant_pair(g@[i as int]) == (role_id, permission_id));
            return true;
        }
        i = i + 1;
    }
    false
}

/// The grant rows to insert for a plan, given the rows already recorded:
/// each `Grant` step whose pair is neither recorded nor inserted before gets
/// a row with a fresh id.
pub fn grants_to_insert(steps: &Vec<GrantStep>, existing: &Vec<RolePermissionRecord>) -> (new: Vec<
    RolePermissionRecord,
>)
    ensures
        grants_carry_out(steps_view(steps@), existing@, new@, steps@.len() as int),
{
    let ghost sv = steps_view(steps@);
    let mut new: Vec<RolePermissionRecord> = Vec::new();
    let mut i: usize = 0;
    while i < steps.len()
        invariant
            i <= steps.len(),
            sv == steps_view(steps@),
            grants_carry_out(sv, existing@, new@, i as int),
        decreases steps.len() - i,
    {
        assert(sv[i as int] == steps@[i as int]@);
        match &steps[i] {
            GrantStep::Grant { role_id, permission_id, .. } => {
                let recorded = find_grant(existing, *role_id, *permission_id);
                let planned = find_grant(&new, *role_id, *permission_id);
                if !recorded && !planned {
                    let ghost old_new = new@;
                    let row = grant_record(*role_id, *permission_id);
                    new.push(row);
                    proof {
                        assert(new@[old_new.len() as int] == row);
                        assert forall|a: int, b: int| 0 <= a < b < new@.len() implies grant_pair(new@[a])
                            != grant_pair(new@[b]) by {
                            if b == old_new.len() {
                                assert(new@[a] == old_new[a]);
                                assert(!has_grant(old_new, *role_id, *permission_id));
                            } else {
                                assert(new@[a] == old_new[a] && new@[b] == old_new[b]);
                            }
                        }
                        assert forall|k: int| 0 <= k < new@.len() implies !has_grant(
                            existing@,
                            (#[trigger] new@[k]).role_id,
                            new@[k].permission_id,
                        ) && uuid_version(new@[k].id) == 4 && exists|j: int|
                            0 <= j < i + 1 && #[trigger] step_pair(sv[j]) == Some(grant_pair(new@[k])) by {
                            if k < old_new.len() {
                                assert(new@[k] == old_new[k]);
                            } else {
                                assert(step_pair(sv[i as int]) == Some(grant_pair(new@[k])));
                            }
                        }
                        assert forall|j: int| 0 <= j < i + 1 && #[trigger] step_pair(sv[j]) is Some implies has_grant(
                            existing@,
                            step_pair(sv[j]).unwrap().0,
                            step_pair(sv[j]).unwrap().1,
                        ) || has_grant(new@, step_pair(sv[j]).unwrap().0, step_pair(sv[j]).unwrap().1) by {
                            let (r, p) = step_pair(sv[j]).unwrap();
                            if j < i {
                                if has_grant(old_new, r, p) {
                                    let k = choose|k: int| 0 <= k < old_new.len() && grant_pair(old_new[k]) == (r, p);
                                    assert(new@[k] == old_new[k]);
                                }
                            } else {
                                assert(grant_pair(new@[old_new.len() as int]) == (r, p));
                            }
                        }
                    }
                }
            },
            _ => {},
        }
        i = i + 1;
    }
    new
}

/// Inserting the rows of `grants_to_insert` keeps the grant table free of
/// duplicate pairs.
pub proof fn grants_stay_unique(
    steps: Seq<GrantView>,
    existing: Seq<RolePermissionRecord>,
    new: Seq<RolePermissionRecord>,
)
    requires
        grant_pairs_distinct(existing),
        grants_carry_out(steps, existing, new, steps.len() as int),
    ensures
        grant_pairs_distinct(existing + new),
{
    let all = existing + new;
    assert forall|i: int, j: int| 0 <= i < j < all.len() implies grant_pair(all[i]) != grant_pair(
        all[j],
    ) by {
        let n = existing.len() as int;
        if j >= n && i < n {
            assert(all[j] == new[j - n]);
            assert(all[i] == existing[i]);
            if grant_pair(all[i]) == grant_pair(all[j]) {
                assert(has_grant(existing, new[j - n].role_id, new[j - n].permission_id));
            }
        } else if i >= n {
            assert(all[i] == new[i - n] && all[j] == new[j - n]);
        } else {
            assert(all[i] == existing[i] && all[j] == existing[j]);
        }
    }
}

/// What making sure that a role exists comes to.
#[derive(Debug)]
pub enum EnsureRole {
    /// The role exists: this row.
    Existing(RoleRecord),
    /// The role is missing: insert this row.
    Create(RoleRecord),
}

/// The role found by name, or a new row for it with a fresh id.
pub fn ensure_role(found: Option<RoleRecord>, name: &str) -> (r: EnsureRole)
    ensures
        found matches Some(f) ==> r == EnsureRole::Existing(f),
        found is None ==> (r matches EnsureRole::Create(c) && c.name@ == name@ && uuid_version(c.id)
            == 4),
{
    match found {
        Some(role) => EnsureRole::Existing(role),
        None => EnsureRole::Create(
            RoleRecord { id: new_uuid_v4(), name: string_from_chars(&chars_of(name)) },
        ),
    }
}

// ---------------------------------------------------------------------------
// Administrator and products
// ---------------------------------------------------------------------------

/// What seeding the administrator comes to.
#[derive(Debug)]
pub enum AdminSeed {
    /// Some user exists already: its id stands for the administrator.
    Existing(u128),
    /// No user exists: insert this row.
    Create(UserRecord),
}

/// With no user in the database, the administrator "Super Admin"
/// (superadmin, superadmin@example.com) with the given password hash and a
/// fresh id; else the id of the user found.
pub fn admin_seed(any_user: Option<UserRecord>, password_hash: String) -> (r: AdminSeed)
    ensures
        any_user matches Some(u) ==> r == AdminSeed::Existing(u.id),
        any_user is None ==> (r matches AdminSeed::Create(c) && c.username@ == "superadmin"@
            && c.name@ == "Super Admin"@ && c.email@ == "superadmin@example.com"@ && c.password
            == password_hash && uuid_version(c.id) == 4),
{
    match any_user {
        Some(user) => AdminSeed::Existing(user.id),
        None => {
            let admin = UserFactory::new().id(new_uuid_v4()).username(
                string_from_chars(&chars_of("superadmin")),
            ).name(string_from_chars(&chars_of("Super Admin"))).email(
                string_from_chars(&chars_of("superadmin@example.com")),
            ).password(password_hash).build();
            AdminSeed::Create(admin)
        },
    }
}

/// A seeded product: its name, slug, SKU, price and quantity, owned by
/// `owner`, with the default description.
pub open spec fn seeded_product(
    r: ProductRecord,
    owner: u128,
    name: Seq<char>,
    slug: Seq<char>,
    sku: Seq<char>,
    price: Price,
    quantity: i64,
) -> bool {
    &&& r.name@ == name
    &&& r.slug@ == slug
    &&& r.sku@ == sku
    &&& r.description@ == "Default product description"@
    &&& r.user_id == owner
    &&& r.price == price
    &&& r.quantity == quantity
    &&& uuid_version(r.id) == 4
}

/// The products to insert: none when there are products already (`count`),
/// else "Keyboard Mechanical V1" at 99.99 (20 in stock) and "Wireless Mouse
/// Pro" at 50.00 (50 in stock), owned by `admin_id`.
pub fn products_to_seed(count: u64, admin_id: u128) -> (rows: Vec<ProductRecord>)
    ensures
        count > 0 ==> rows@.len() == 0,
        count == 0 ==> rows@.len() == 2 && seeded_product(
            rows@[0],
            admin_id,
            "Keyboard Mechanical V1"@,
            "keyboard-mechanical-v1"@,
            "KB-MECH-001"@,
            Price { mantissa: 9999, scale: 2 },
            20,
        ) && seeded_product(
            rows@[1],
            admin_id,
            "Wireless Mouse Pro"@,
            "wireless-mouse-pro"@,
            "MS-WLS-001"@,
            Price { mantissa: 5000, scale: 2 },
            50,
        ),
{
    let mut rows: Vec<ProductRecord> = Vec::new();
    if count > 0 {
        return rows;
    }
    let keyboard = ProductFactory::new(admin_id).name(
        string_from_chars(&chars_of("Keyboard Mechanical V1")),
    ).slug(string_from_chars(&chars_of("keyboard-mechanical-v1"))).sku(
        string_from_chars(&chars_of("KB-MECH-001")),
    ).price(Price::new(9999, 2)).quantity(20).build();
    rows.push(keyboard);
    let mouse = ProductFactory::new(admin_id).name(
        string_from_chars(&chars_of("Wireless Mouse Pro")),
    ).slug(string_from_chars(&chars_of("wireless-mouse-pro"))).sku(
        string_from_chars(&chars_of("MS-WLS-001")),
    ).price(Price::new(5000, 2)).quantity(50).build();
    rows.push(mouse);
    rows
}


// ---------------------------------------------------------------------------
// Roles of a user
// ---------------------------------------------------------------------------

/// The id of the first role named `name`, if any.
pub open spec fn first_role_id(roles: Seq<RoleRecord>, name: Seq<char>) -> Option<u128>
    decreases roles.len(),
{
    if roles.len() == 0 {
        None
    } else if roles[0].name@ == name {
        Some(roles[0].id)
    } else {
        first_role_id(roles.drop_first(), name)
    }
}

/// No two rows have the same name.
pub open spec fn role_names_distinct(rows: Seq<RoleRecord>) -> bool {
    forall|i: int, j: int| 0 <= i < j < rows.len() ==> rows[i].name@ != rows[j].name@
}

/// The role that `name` stands for: the first existing one, else the one
/// created for it.
pub open spec fn role_for_name(roles: Seq<RoleRecord>, created: Seq<RoleRecord>, name: Seq<char>) -> Option<u128> {
    match first_role_id(roles, name) {
        Some(id) => Some(id),
        None => first_role_id(created, name),
    }
}

proof fn lemma_first_role_push(s: Seq<RoleRecord>, r: RoleRecord, name: Seq<char>)
    ensures
        first_role_id(s.push(r), name) == (match first_role_id(s, name) {
            Some(id) => Some(id),
            None => if r.name@ == name {
                Some(r.id)
            } else {
                None
            },
        }),
    decreases s.len(),
{
    if s.len() > 0 {
        assert(s.push(r)[0] == s[0]);
        assert(s.push(r).drop_first() =~= s.drop_first().push(r));
        lemma_first_role_push(s.drop_first(), r, name);
    } else {
        assert(s.push(r)[0] == r);
        assert(s.push(r).drop_first() =~= Seq::<RoleRecord>::empty());
        assert(first_role_id(Seq::<RoleRecord>::empty(), name) is None);
    }
}

proof fn lemma_first_role_found(s: Seq<RoleRecord>, name: Seq<char>)
    ensures
        first_role_id(s, name) is None <==> forall|k: int| 0 <= k < s.len() ==> s[k].name@ != name,
    decreases s.len(),
{
    if s.len() > 0 {
        lemma_first_role_found(s.drop_first(), name);
        if first_role_id(s, name) is None {
            assert forall|k: int| 0 <= k < s.len() implies s[k].name@ != name by {
                if k > 0 {
                    assert(s[k] == s.drop_first()[k - 1]);
                }
            }
        } else if s[0].name@ != name {
            let k = choose|k: int| 0 <= k < s.drop_first().len() && s.drop_first()[k].name@ == name;
            assert(s[k + 1] == s.drop_first()[k]);
        }
    }
}

fn find_first_role(roles: &Vec<RoleRecord>, name: &String) -> (r: Option<u128>)
    ensures
        r == first_role_id(roles@, name@),
{
    let mut i: usize = 0;
    assert(roles@.skip(0) =~= roles@);
    while i < roles.len()
        invariant
            i <= roles.len(),
            first_role_id(roles@, name@) == first_role_id(roles@.skip(i as int), name@),
        decreases roles.len() - i,
    {
        assert(roles@.skip(i as int)[0] == roles@[i as int]);
        if roles[i].name == *name {
            return Some(roles[i].id);
        }
        assert(roles@.skip(i as int).drop_first() =~= roles@.skip(i + 1));
        i = i + 1;
    }
    None
}

fn contains_link(links: &Vec<UserRoleRecord>, link: UserRoleRecord) -> (r: bool)
    ensures
        r == links@.contains(link),
{
    let mut i: usize = 0;
    while i < links.len()
        invariant
            i <= links.len(),
            forall|j: int| 0 <= j < i ==> links@[j] != link,
        decreases links.len() - i,
    {
        if links[i] == link {
            return true;
        }
        i = i + 1;
    }
    false
}

/// What giving a user its roles by name writes.
#[derive(Debug)]
pub struct RoleAssignment {
    /// Roles that no row names yet, one per missing name, in the order of
    /// first mention, each with a fresh id.
    pub new_roles: Vec<RoleRecord>,
    /// Links from the user to its roles that are not recorded yet.
    pub new_links: Vec<UserRoleRecord>,
}

/// `plan` gives `user_id` every role of `role_names`, creating the roles
/// that do not exist and adding only the links that are missing.
pub open spec fn assignment_complete(
    user_id: u128,
    role_names: Seq<Seq<char>>,
    roles: Seq<RoleRecord>,
    links: Seq<UserRoleRecord>,
    new_roles: Seq<RoleRecord>,
    new_links: Seq<UserRoleRecord>,
    upto: int,
) -> bool {
    &&& role_names_distinct(new_roles)
    &&& forall|k: int|
        0 <= k < new_roles.len() ==> first_role_id(roles, #[trigger] new_roles[k].name@) is None
            && exists|j: int| 0 <= j < upto && role_names[j] == new_roles[k].name@
    &&& forall|k: int| 0 <= k < new_roles.len() ==> uuid_version(#[trigger] new_roles[k].id) == 4
    &&& forall|j: int|
        0 <= j < upto ==> (#[trigger] role_for_name(roles, new_roles, role_names[j]) is Some && (
        links + new_links).contains(
            UserRoleRecord {
                user_id,
                role_id: role_for_name(roles, new_roles, role_names[j]).unwrap(),
            },
        ))
    &&& forall|k: int|
        0 <= k < new_links.len() ==> (#[trigger] new_links[k]).user_id == user_id
            && !links.contains(new_links[k])
    &&& forall|k: int|
        0 <= k < new_links.len() ==> exists|j: int|
            0 <= j < upto && (#[trigger] new_links[k]).role_id == role_for_name(
                roles,
                new_roles,
                role_names[j],
            ).unwrap()
    &&& forall|k: int, m: int| 0 <= k < m < new_links.len() ==> new_links[k] != new_links[m]
}

/// Giving user `user_id` the roles named `role_names`: each name resolves to
/// the first existing role of that name, or to a role created for it; a
/// link is added unless the user has it already.
pub fn attach_roles_plan(
    user_id: u128,
    role_names: &Vec<String>,
    roles: &Vec<RoleRecord>,
    links: &Vec<UserRoleRecord>,
) -> (plan: RoleAssignment)
    ensures
        assignment_complete(
            user_id,
            names_view(role_names@),
            roles@,
            links@,
            plan.new_roles@,
            plan.new_links@,
            role_names@.len() as int,
        ),
{
    let ghost wanted = names_view(role_names@);
    let mut created: Vec<RoleRecord> = Vec::new();
    let mut added: Vec<UserRoleRecord> = Vec::new();
    let mut i: usize = 0;
    while i < role_names.len()
        invariant
            i <= role_names.len(),
            wanted == names_view(role_names@),
            assignment_complete(user_id, wanted, roles@, links@, created@, added@, i as int),
        decreases role_names.len() - i,
    {
        let name = &role_names[i];
        let ghost old_created = created@;
        let ghost old_added = added@;
        assert(wanted[i as int] == name@);
        let role_id = match find_first_role(roles, name) {
            Some(id) => id,
            None => match find_first_role(&created, name) {
                Some(id) => id,
                None => {
                    let fresh = RoleRecord { id: new_uuid_v4(), name: name.clone() };
                    let id = fresh.id;
                    proof {
                        lemma_first_role_found(old_created, name@);
                        assert forall|j: int| 0 <= j < i implies #[trigger] role_for_name(
                            roles@,
                            old_created.push(fresh),
                            wanted[j],
                        ) == role_for_name(roles@, old_created, wanted[j]) by {
                            lemma_first_role_push(old_created, fresh, wanted[j]);
                        }
                        lemma_first_role_push(old_created, fresh, name@);
                    }
                    created.push(fresh);
                    proof {
                        assert(created@ == old_created.push(fresh));
                        assert forall|k: int| 0 <= k < created@.len() implies first_role_id(
                            roles@,
                            #[trigger] created@[k].name@,
                        ) is None && exists|j: int|
                            0 <= j < i + 1 && wanted[j] == created@[k].name@ by {
                            if k < old_created.len() {
                                assert(created@[k] == old_created[k]);
                                let j0 = choose|j: int| 0 <= j < i && wanted[j] == old_created[k].name@;
                                assert(wanted[j0] == created@[k].name@);
                            } else {
                                assert(wanted[i as int] == created@[k].name@);
                            }
                        }
                        assert forall|a: int, b: int| 0 <= a < b < created@.len() implies created@[a].name@
                            != created@[b].name@ by {
                            if b == old_created.len() {
                                assert(old_created[a].name@ != name@);
                            }
                        }
                    }
                    id
                },
            },
        };
        assert(role_for_name(roles@, created@, name@) == Some(role_id));
        let link = UserRoleRecord { user_id, role_id };
        let known = contains_link(links, link);
        let new_here = contains_link(&added, link);
        let ghost mid_added = added@;
        if !known && !new_here {
            added.push(link);
            proof {
                assert forall|x: UserRoleRecord| (links@ + mid_added).contains(x) implies (links@
                    + added@).contains(x) by {
                    let k = choose|k: int| 0 <= k < (links@ + mid_added).len() && (links@ + mid_added)[k] == x;
                    assert((links@ + added@)[k] == x);
                }
                assert((links@ + added@)[(links@.len() + mid_added.len()) as int] == link);
            }
        } else {
            proof {
                if known {
                    let k = choose|k: int| 0 <= k < links@.len() && links@[k] == link;
                    assert((links@ + added@)[k] == link);
                } else {
                    let k = choose|k: int| 0 <= k < added@.len() && added@[k] == link;
                    assert((links@ + added@)[(links@.len() + k) as int] == link);
                }
            }
        }
        assert((links@ + added@).contains(link));
        i = i + 1;
    }
    RoleAssignment { new_roles: created, new_links: added }
}

} // verus!
