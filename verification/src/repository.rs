//! The decisions of the product, role and user repositories.  The database
//! runs the queries; these functions say which rows a query looks for, what
//! is written, and what each answer of the database becomes.

use crate::errors::AppError;
use crate::ids::{hyphenated_form_parses_back, new_uuid_v4, parse_uuid, uuid_hyphenated, uuid_parse, uuid_to_string, uuid_version, NIL_ID};
use crate::models::{
    product_from, role_from, role_of, CreateProductPayload, Price, Product, ProductRecord, Role,
    RegisterUserPayload, RoleRecord, UpdateProductPayload, UpdateUserPayload, User, UserRecord,
    UserRoleRecord, user_built_from,
};
use crate::text::{chars_of, generate_unique_slug, is_unique_slug_of, string_from_chars};
use vstd::prelude::*;

verus! {

// ---------------------------------------------------------------------------
// Shared
// ---------------------------------------------------------------------------

/// A delete that removed no row reports `NotFound`.
pub fn deletion_outcome(rows_affected: u64) -> (res: Result<(), AppError>)
    ensures
        res is Ok <==> rows_affected > 0,
        res is Err ==> res matches Err(AppError::NotFound),
{
    if rows_affected == 0 {
        Err(AppError::NotFound)
    } else {
        Ok(())
    }
}

/// A row that a step needs: `NotFound` when the query found none.
pub fn require_found<T>(found: Option<T>) -> (res: Result<T, AppError>)
    ensures
        found is None ==> res matches Err(AppError::NotFound),
        found matches Some(x) ==> res matches Ok(y) && y == x,
{
    match found {
        Some(x) => Ok(x),
        None => Err(AppError::NotFound),
    }
}

// ---------------------------------------------------------------------------
// Products
// ---------------------------------------------------------------------------

/// The row that creating a product inserts; the database gives it its id
/// and owner.
#[derive(Debug)]
pub struct NewProduct {
    pub sku: String,
    pub name: String,
    pub slug: String,
    pub description: String,
    pub price: Price,
    pub quantity: i64,
}

/// The row for a new product: the payload's fields, except that the slug is
/// made fresh from the name (the payload's slug is not used).
pub fn product_insert(payload: CreateProductPayload) -> (row: NewProduct)
    ensures
        row.sku == payload.sku,
        row.name == payload.name,
        row.description == payload.description,
        row.price == payload.price,
        row.quantity == payload.quantity,
        is_unique_slug_of(row.slug@, payload.name@),
{
    let slug = generate_unique_slug(payload.name.as_str());
    NewProduct {
        sku: payload.sku,
        name: payload.name,
        slug,
        description: payload.description,
        price: payload.price,
        quantity: payload.quantity,
    }
}

/// `after` is `before` with the name, description, price and quantity of
/// `payload`; its id, SKU, slug and owner stay.
pub open spec fn product_updated(before: ProductRecord, payload: UpdateProductPayload, after: ProductRecord) -> bool {
    after == ProductRecord {
        name: payload.name,
        description: payload.description,
        price: payload.price,
        quantity: payload.quantity,
        ..before
    }
}

/// The row that updating the product found by slug writes: `NotFound` when
/// there is no such product.
pub fn apply_product_update(found: Option<ProductRecord>, payload: UpdateProductPayload) -> (res:
    Result<ProductRecord, AppError>)
    ensures
        found is None ==> res matches Err(AppError::NotFound),
        found matches Some(m) ==> res matches Ok(r) && product_updated(m, payload, r),
{
    match found {
        None => Err(AppError::NotFound),
        Some(model) => {
            let mut model = model;
            model.name = payload.name;
            model.description = payload.description;
            model.price = payload.price;
            model.quantity = payload.quantity;
            Ok(model)
        },
    }
}

/// Updating a product twice with the same payload gives what updating it
/// once gives.
pub proof fn product_update_idempotent(
    m: ProductRecord,
    p: UpdateProductPayload,
    once: ProductRecord,
    twice: ProductRecord,
)
    requires
        product_updated(m, p, once),
        product_updated(once, p, twice),
    ensures
        twice == once,
{
}

/// The product of a row, without moving it.
pub fn product_of(model: &ProductRecord) -> (p: Product)
    ensures
        p == product_from(*model),
{
    Product {
        id: model.id,
        sku: model.sku.clone(),
        name: model.name.clone(),
        slug: model.slug.clone(),
        description: model.description.clone(),
        price: model.price,
        quantity: model.quantity,
    }
}

/// The products of the rows, in order.
pub fn products_of(models: &Vec<ProductRecord>) -> (res: Vec<Product>)
    ensures
        res@ == models@.map_values(|m: ProductRecord| product_from(m)),
{
    let mut res: Vec<Product> = Vec::new();
    let mut i: usize = 0;
    while i < models.len()
        invariant
            i <= models.len(),
            res@ == models@.take(i as int).map_values(|m: ProductRecord| product_from(m)),
        decreases models.len() - i,
    {
        res.push(product_of(&models[i]));
        i = i + 1;
        assert(res@ =~= models@.take(i as int).map_values(|m: ProductRecord| product_from(m)));
    }
    assert(models@.take(i as int) =~= models@);
    res
}

// ---------------------------------------------------------------------------
// Roles
// ---------------------------------------------------------------------------

/// What a role lookup (by name or by id) answers: the role, or `NotFound`
/// when no row matched.
pub open spec fn role_lookup_result(found: Option<RoleRecord>, res: Result<Option<Role>, AppError>) -> bool {
    match found {
        None => res matches Err(AppError::NotFound),
        Some(m) => res matches Ok(Some(r)) && r == role_from(m),
    }
}

/// The answer of a role lookup: a missing role is `NotFound`, not `None`.
pub fn role_lookup(found: Option<RoleRecord>) -> (res: Result<Option<Role>, AppError>)
    ensures
        role_lookup_result(found, res),
{
    match found {
        None => Err(AppError::NotFound),
        Some(model) => Ok(Some(Role::from(model))),
    }
}

/// The answer of listing roles: any database error is reported as
/// `NotFound`.
pub fn role_listing(rows: Result<Vec<RoleRecord>, String>) -> (res: Result<Vec<Role>, AppError>)
    ensures
        rows is Err ==> res matches Err(AppError::NotFound),
        rows matches Ok(v) ==> res matches Ok(roles) && roles@ == v@.map_values(
            |m: RoleRecord| role_from(m),
        ),
{
    match rows {
        Err(_) => Err(AppError::NotFound),
        Ok(models) => {
            let mut res: Vec<Role> = Vec::new();
            let mut i: usize = 0;
            while i < models.len()
                invariant
                    i <= models.len(),
                    res@ == models@.take(i as int).map_values(|m: RoleRecord| role_from(m)),
                decreases models.len() - i,
            {
                res.push(role_of(&models[i]));
                i = i + 1;
                assert(res@ =~= models@.take(i as int).map_values(|m: RoleRecord| role_from(m)));
            }
            assert(models@.take(i as int) =~= models@);
            Ok(res)
        },
    }
}

// ---------------------------------------------------------------------------
// Users
// ---------------------------------------------------------------------------

/// `user` is the one that `identifier` names: by username, by email, or by
/// id when the identifier reads as a UUID.
pub open spec fn user_matches_identifier(user: UserRecord, identifier: Seq<char>) -> bool {
    ||| user.username@ == identifier
    ||| user.email@ == identifier
    ||| uuid_parse(identifier) == Some(user.id)
}

/// The condition that looks a user up by an identifier: username or email
/// equal to it, or id equal to it when it reads as a UUID.
#[derive(Debug)]
pub struct IdentifierFilter {
    pub identifier: String,
    pub id: Option<u128>,
}

impl IdentifierFilter {
    /// The rows that the condition selects.
    pub open spec fn selects(&self, user: UserRecord) -> bool {
        ||| user.username@ == self.identifier@
        ||| user.email@ == self.identifier@
        ||| self.id == Some(user.id)
    }

    /// Whether the condition selects `user`.
    pub fn matches(&self, user: &UserRecord) -> (r: bool)
        ensures
            r == self.selects(*user),
    {
        user.username == self.identifier || user.email == self.identifier || match self.id {
            Some(id) => id == user.id,
            None => false,
        }
    }
}

/// The condition for `identifier`.
pub fn identifier_condition(identifier: &str) -> (f: IdentifierFilter)
    ensures
        f.identifier@ == identifier@,
        f.id == uuid_parse(identifier@),
        forall|u: u128| identifier@ == uuid_hyphenated(u) ==> f.id == Some(u),
        forall|u: UserRecord| f.selects(u) == user_matches_identifier(u, identifier@),
{
    let f = IdentifierFilter {
        identifier: string_from_chars(&chars_of(identifier)),
        id: parse_uuid(identifier),
    };
    assert forall|u: u128| identifier@ == uuid_hyphenated(u) implies f.id == Some(u) by {
        hyphenated_form_parses_back(u);
    }
    f
}

/// The condition that fetches a user again after an update: its id,
/// hyphenated.  It selects that user.
pub fn refetch_condition(user: &UserRecord) -> (f: IdentifierFilter)
    ensures
        f.identifier@ == uuid_hyphenated(user.id),
        f.id == Some(user.id),
        f.selects(*user),
{
    let id_text = uuid_to_string(user.id);
    identifier_condition(id_text.as_str())
}

/// The condition of a lookup by unique identifier: the id equal to the
/// identifier when it reads as a UUID, else equal to the nil UUID; or the
/// identifier condition.
#[derive(Debug)]
pub struct UniqueIdentifierFilter {
    pub exact_id: u128,
    pub by_identifier: IdentifierFilter,
}

impl UniqueIdentifierFilter {
    /// The rows that the condition selects.
    pub open spec fn selects(&self, user: UserRecord) -> bool {
        user.id == self.exact_id || self.by_identifier.selects(user)
    }
}

/// The unique-identifier condition for `identifier`.
pub fn unique_identifier_condition(identifier: &str) -> (f: UniqueIdentifierFilter)
    ensures
        f.exact_id == match uuid_parse(identifier@) {
            Some(id) => id,
            None => NIL_ID,
        },
        f.by_identifier.identifier@ == identifier@,
        f.by_identifier.id == uuid_parse(identifier@),
{
    let by_identifier = identifier_condition(identifier);
    let exact_id = match by_identifier.id {
        Some(id) => id,
        None => NIL_ID,
    };
    UniqueIdentifierFilter { exact_id, by_identifier }
}

/// The first user of a lookup with roles, or `None`; a database error is an
/// internal error carrying its text.
pub fn first_user_with_roles(rows: Result<Vec<(UserRecord, Vec<RoleRecord>)>, String>) -> (res:
    Result<Option<User>, AppError>)
    ensures
        rows matches Err(e) ==> res matches Err(AppError::InternalError(m)) && m == e,
        rows matches Ok(v) ==> (v.len() == 0 ==> res matches Ok(None)),
        rows matches Ok(v) ==> (v.len() > 0 ==> (res matches Ok(Some(u)) && user_built_from(
            u,
            v@[0].0,
            v@[0].1@,
        ))),
{
    match rows {
        Err(e) => Err(AppError::InternalError(e)),
        Ok(v) => {
            if v.len() == 0 {
                Ok(None)
            } else {
                Ok(Some(User::from_parts(&v[0].0, &v[0].1)))
            }
        },
    }
}

/// All users of a lookup with roles, in order; a database error is an
/// internal error carrying its text.
pub fn users_with_roles(rows: Result<Vec<(UserRecord, Vec<RoleRecord>)>, String>) -> (res: Result<
    Vec<User>,
    AppError,
>)
    ensures
        rows matches Err(e) ==> res matches Err(AppError::InternalError(m)) && m == e,
        rows matches Ok(v) ==> res matches Ok(users) && users@.len() == v@.len() && forall|i: int|
            0 <= i < v@.len() ==> user_built_from(#[trigger] users@[i], v@[i].0, v@[i].1@),
{
    match rows {
        Err(e) => Err(AppError::InternalError(e)),
        Ok(v) => {
            let mut users: Vec<User> = Vec::new();
            let mut i: usize = 0;
            while i < v.len()
                invariant
                    i <= v.len(),
                    users@.len() == i,
                    forall|j: int|
                        0 <= j < i ==> user_built_from(#[trigger] users@[j], v@[j].0, v@[j].1@),
                decreases v.len() - i,
            {
                users.push(User::from_parts(&v[i].0, &v[i].1));
                i = i + 1;
            }
            Ok(users)
        },
    }
}

/// The row that registering a user inserts, with a fresh random id.
pub fn new_user_record(payload: RegisterUserPayload) -> (r: UserRecord)
    ensures
        uuid_version(r.id) == 4,
        r.name == payload.name,
        r.username == payload.username,
        r.email == payload.email,
        r.password == payload.password,
{
    UserRecord {
        id: new_uuid_v4(),
        name: payload.name,
        username: payload.username,
        email: payload.email,
        password: payload.password,
    }
}

/// The error when the database refuses a new user: a unique violation
/// (SQLSTATE 23505) is a duplicate, anything else an internal error.
pub fn create_user_failure(sql_state: Option<&str>) -> (e: AppError)
    ensures
        (sql_state matches Some(c) && c@ == "23505"@) ==> (e matches AppError::DuplicateEntry(m)
            && m@ == "Email atau username sudah terdaftar."@),
        !(sql_state matches Some(c) && c@ == "23505"@) ==> (e matches AppError::InternalError(m)
            && m@ == "Gagal membuat pengguna."@),
{
    let duplicate = match sql_state {
        Some(code) => crate::text::chars_equal(&chars_of(code), &chars_of("23505")),
        None => false,
    };
    if duplicate {
        AppError::DuplicateEntry(string_from_chars(&chars_of("Email atau username sudah terdaftar.")))
    } else {
        AppError::InternalError(string_from_chars(&chars_of("Gagal membuat pengguna.")))
    }
}

/// The answer of registering once the new user is fetched with its roles:
/// not finding it is an internal error.
pub fn created_user_outcome(found: Result<Option<User>, AppError>) -> (res: Result<User, AppError>)
    ensures
        found matches Ok(Some(u)) ==> res matches Ok(v) && v == u,
        found matches Ok(None) ==> res matches Err(AppError::InternalError(m)) && m@
            == "User already exists"@,
        found matches Err(e) ==> res matches Err(f) && f == e,
{
    match found {
        Ok(Some(u)) => Ok(u),
        Ok(None) => Err(AppError::InternalError(string_from_chars(&chars_of("User already exists")))),
        Err(e) => Err(e),
    }
}

/// The condition that fetches a user again after registering: the new
/// username.  Being an identifier condition, it also selects a user whose
/// email is that text, or whose id it names.
pub fn created_user_condition(inserted: &UserRecord) -> (f: IdentifierFilter)
    ensures
        f.identifier@ == inserted.username@,
        f.selects(*inserted),
        forall|u: UserRecord| f.selects(u) == user_matches_identifier(u, inserted.username@),
        forall|u: UserRecord| u.email@ == inserted.username@ ==> f.selects(u),
{
    identifier_condition(inserted.username.as_str())
}

/// The answer of registering a user from what the database did: the
/// outcome of the insert (the inserted row, or the SQLSTATE of the refusal
/// when there is one), then the rows, with their roles, that the lookup by
/// `created_user_condition` found.  The answer is built from the first of
/// those rows, which need not be the inserted one.
pub fn registration_outcome(
    inserted: Result<UserRecord, Option<String>>,
    reread: Result<Vec<(UserRecord, Vec<RoleRecord>)>, String>,
) -> (res: Result<User, AppError>)
    ensures
        inserted matches Err(state) ==> ((state matches Some(c) && c@ == "23505"@) ==> (
        res matches Err(AppError::DuplicateEntry(m)) && m@ == "Email atau username sudah terdaftar."@)),
        inserted matches Err(state) ==> (!(state matches Some(c) && c@ == "23505"@) ==> (
        res matches Err(AppError::InternalError(m)) && m@ == "Gagal membuat pengguna."@)),
        inserted is Ok ==> (match reread {
            Err(e) => (res matches Err(AppError::InternalError(m)) && m == e),
            Ok(v) => if v.len() == 0 {
                (res matches Err(AppError::InternalError(m)) && m@ == "User already exists"@)
            } else {
                (res matches Ok(u) && user_built_from(u, v@[0].0, v@[0].1@))
            },
        }),
{
    match inserted {
        Err(state) => match state {
            Some(code) => Err(create_user_failure(Some(code.as_str()))),
            None => Err(create_user_failure(None)),
        },
        Ok(_) => created_user_outcome(first_user_with_roles(reread)),
    }
}

/// The answer of updating a user from what the database did: the lookup of
/// the user (an error carrying its text), the saving of the updated row
/// (`apply_user_update`), and the rows, with their roles, that the lookup by
/// `refetch_condition` found.  The saving and the re-read happen only when
/// the user was found.
pub fn update_outcome(
    found: Result<Option<UserRecord>, String>,
    saved: Result<(), String>,
    reread: Result<Vec<(UserRecord, Vec<RoleRecord>)>, String>,
) -> (res: Result<User, AppError>)
    ensures
        found matches Err(e) ==> (res matches Err(AppError::InternalError(m)) && m == e),
        found matches Ok(None) ==> res matches Err(AppError::NotFound),
        found matches Ok(Some(_)) ==> (match saved {
            Err(e) => (res matches Err(AppError::InternalError(m)) && m == e),
            Ok(_) => match reread {
                Err(e) => (res matches Err(AppError::InternalError(m)) && m == e),
                Ok(v) => if v.len() == 0 {
                    res matches Err(AppError::NotFound)
                } else {
                    (res matches Ok(u) && user_built_from(u, v@[0].0, v@[0].1@))
                },
            },
        }),
{
    match found {
        Err(e) => Err(AppError::InternalError(e)),
        Ok(None) => Err(AppError::NotFound),
        Ok(Some(_)) => match saved {
            Err(e) => Err(AppError::InternalError(e)),
            Ok(()) => required_user(first_user_with_roles(reread)),
        },
    }
}

/// The answer of a lookup by unique identifier from what the database did:
/// the first row that `unique_identifier_condition` selects (a database
/// error passed on), then the rows, with their roles, that the lookup by
/// that row's username (`identifier_condition`) found.  Not finding either
/// is `NotFound`; a found user is always `Some`.
pub fn unique_lookup_outcome(
    found: Result<Option<UserRecord>, AppError>,
    reread: Result<Vec<(UserRecord, Vec<RoleRecord>)>, String>,
) -> (res: Result<Option<User>, AppError>)
    ensures
        found matches Err(e) ==> (res matches Err(f) && f == e),
        found matches Ok(None) ==> res matches Err(AppError::NotFound),
        found matches Ok(Some(_)) ==> (match reread {
            Err(e) => (res matches Err(AppError::InternalError(m)) && m == e),
            Ok(v) => if v.len() == 0 {
                res matches Err(AppError::NotFound)
            } else {
                (res matches Ok(Some(u)) && user_built_from(u, v@[0].0, v@[0].1@))
            },
        }),
{
    match found {
        Err(e) => Err(e),
        Ok(None) => Err(AppError::NotFound),
        Ok(Some(_)) => match required_user(first_user_with_roles(reread)) {
            Ok(u) => Ok(Some(u)),
            Err(e) => Err(e),
        },
    }
}

/// A user that a step needs: `NotFound` when the lookup found none.
pub fn required_user(found: Result<Option<User>, AppError>) -> (res: Result<User, AppError>)
    ensures
        found matches Ok(Some(u)) ==> res matches Ok(v) && v == u,
        found matches Ok(None) ==> res matches Err(AppError::NotFound),
        found matches Err(e) ==> res matches Err(f) && f == e,
{
    match found {
        Ok(Some(u)) => Ok(u),
        Ok(None) => Err(AppError::NotFound),
        Err(e) => Err(e),
    }
}

/// `after` is `before` with each field that `payload` gives replaced; the id
/// stays.
pub open spec fn user_updated(before: UserRecord, payload: UpdateUserPayload, after: UserRecord) -> bool {
    &&& after.id == before.id
    &&& after.name == (match payload.name {
        Some(n) => n,
        None => before.name,
    })
    &&& after.username == (match payload.username {
        Some(u) => u,
        None => before.username,
    })
    &&& after.email == (match payload.email {
        Some(e) => e,
        None => before.email,
    })
    &&& after.password == (match payload.password {
        Some(w) => w,
        None => before.password,
    })
}

/// An update replaces exactly the fields that the payload gives: each given
/// name, username, email or password is the payload's value afterwards, each
/// field it leaves out keeps its old value, and the id never changes.
pub proof fn update_replaces_given_fields(before: UserRecord, payload: UpdateUserPayload, after: UserRecord)
    requires
        user_updated(before, payload, after),
    ensures
        after.id == before.id,
        payload.name matches Some(n) ==> after.name == n,
        payload.name is None ==> after.name == before.name,
        payload.username matches Some(u) ==> after.username == u,
        payload.username is None ==> after.username == before.username,
        payload.email matches Some(e) ==> after.email == e,
        payload.email is None ==> after.email == before.email,
        payload.password matches Some(w) ==> after.password == w,
        payload.password is None ==> after.password == before.password,
{
}

/// The row that updating a user writes.
pub fn apply_user_update(record: UserRecord, payload: UpdateUserPayload) -> (r: UserRecord)
    ensures
        user_updated(record, payload, r),
        r.id == record.id,
        payload.name matches Some(n) ==> r.name == n,
        payload.name is None ==> r.name == record.name,
        payload.username matches Some(u) ==> r.username == u,
        payload.username is None ==> r.username == record.username,
        payload.email matches Some(e) ==> r.email == e,
        payload.email is None ==> r.email == record.email,
        payload.password matches Some(w) ==> r.password == w,
        payload.password is None ==> r.password == record.password,
{
    let mut r = record;
    match payload.name {
        Some(n) => {
            r.name = n;
        },
        None => {},
    }
    match payload.username {
        Some(u) => {
            r.username = u;
        },
        None => {},
    }
    match payload.email {
        Some(e) => {
            r.email = e;
        },
        None => {},
    }
    match payload.password {
        Some(w) => {
            r.password = w;
        },
        None => {},
    }
    r
}

/// An update that gives no field leaves the user as it was.
pub proof fn empty_user_update_keeps_user(before: UserRecord, after: UserRecord)
    requires
        user_updated(
            before,
            UpdateUserPayload { username: None, name: None, password: None, email: None },
            after,
        ),
    ensures
        after == before,
{
}

/// Updating a user twice with the same payload gives what updating it once
/// gives.
pub proof fn user_update_idempotent(
    before: UserRecord,
    p: UpdateUserPayload,
    once: UserRecord,
    twice: UserRecord,
)
    requires
        user_updated(before, p, once),
        user_updated(once, p, twice),
    ensures
        twice == once,
{
}

/// The row that gives a role to a user: `NotFound` when the user does not
/// exist.
pub fn attach_role_plan(existing: Option<UserRecord>, role_id: u128) -> (res: Result<
    UserRoleRecord,
    AppError,
>)
    ensures
        existing is None ==> res matches Err(AppError::NotFound),
        existing matches Some(u) ==> res == Ok::<UserRoleRecord, AppError>(
            UserRoleRecord { user_id: u.id, role_id },
        ),
{
    match existing {
        None => Err(AppError::NotFound),
        Some(user) => Ok(UserRoleRecord { user_id: user.id, role_id }),
    }
}

} // verus!
