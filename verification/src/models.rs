//! The data of the service: the rows of its tables (records), what the API
//! returns, and the payloads it accepts, with their validation rules.

use crate::text::{chars_of, string_from_chars};
use vstd::prelude::*;
use vstd::std_specs::convert::FromSpecImpl;

verus! {

/// A decimal amount: `mantissa / 10^scale`, as `rust_decimal::Decimal`
/// holds it (a mantissa of at most 96 bits and a scale of at most 28).
#[derive(Debug, Clone, Copy, PartialEq, Eq, Structural)]
pub struct Price {
    pub mantissa: i128,
    pub scale: u32,
}

impl Price {
    /// The representation limits of a decimal.
    pub open spec fn wf(self) -> bool {
        &&& self.scale <= 28
        &&& -79228162514264337593543950335 <= self.mantissa <= 79228162514264337593543950335
    }

    /// `Decimal::new(num, scale)`: the amount `num / 10^scale`.
    pub fn new(num: i64, scale: u32) -> (p: Price)
        requires
            scale <= 28,
        ensures
            p.mantissa == num,
            p.scale == scale,
            p.wf(),
    {
        Price { mantissa: num as i128, scale }
    }
}

// ---------------------------------------------------------------------------
// Table rows
// ---------------------------------------------------------------------------

/// A row of the `products` table.
#[derive(Debug, Clone)]
pub struct ProductRecord {
    pub id: u128,
    pub sku: String,
    pub name: String,
    pub slug: String,
    pub description: String,
    pub price: Price,
    pub quantity: i64,
    pub user_id: u128,
}

/// A row of the `roles` table.
#[derive(Debug, Clone)]
pub struct RoleRecord {
    pub id: u128,
    pub name: String,
}

/// A row of the `users` table.
#[derive(Debug, Clone)]
pub struct UserRecord {
    pub id: u128,
    pub name: String,
    pub username: String,
    pub email: String,
    pub password: String,
}

/// A row of the `permissions` table.
#[derive(Debug, Clone)]
pub struct PermissionRecord {
    pub id: u128,
    pub name_permission: String,
}

/// A row of the `user_roles` table: a role given to a user.
#[derive(Debug, Clone, Copy, PartialEq, Eq, Structural)]
pub struct UserRoleRecord {
    pub user_id: u128,
    pub role_id: u128,
}

/// A row of the `role_has_permissions` table: a permission granted to a role.
#[derive(Debug, Clone, Copy, PartialEq, Eq, Structural)]
pub struct RolePermissionRecord {
    pub id: u128,
    pub role_id: u128,
    pub permission_id: u128,
}

// ---------------------------------------------------------------------------
// Products
// ---------------------------------------------------------------------------

/// A product as the API returns it.
#[derive(Debug)]
pub struct Product {
    pub id: u128,
    pub sku: String,
    pub name: String,
    pub slug: String,
    pub description: String,
    pub price: Price,
    pub quantity: i64,
}

/// The fields of a new product.
#[derive(Debug)]
pub struct CreateProductPayload {
    pub sku: String,
    pub name: String,
    pub slug: String,
    pub description: String,
    pub price: Price,
    pub quantity: i64,
}

/// The new fields of an existing product.
#[derive(Debug)]
pub struct UpdateProductPayload {
    pub sku: String,
    pub name: String,
    pub slug: String,
    pub description: String,
    pub price: Price,
    pub quantity: i64,
}

impl From<ProductRecord> for Product {
    /// Every field of the row but its owner.
    fn from(model: ProductRecord) -> (p: Product) {
        Product {
            id: model.id,
            sku: model.sku,
            name: model.name,
            slug: model.slug,
            description: model.description,
            price: model.price,
            quantity: model.quantity,
        }
    }
}

impl FromSpecImpl<ProductRecord> for Product {
    open spec fn obeys_from_spec() -> bool {
        true
    }

    open spec fn from_spec(model: ProductRecord) -> Product {
        product_from(model)
    }
}

/// The product that a row stands for: every field but its owner.
pub open spec fn product_from(model: ProductRecord) -> Product {
    Product {
        id: model.id,
        sku: model.sku,
        name: model.name,
        slug: model.slug,
        description: model.description,
        price: model.price,
        quantity: model.quantity,
    }
}

// ---------------------------------------------------------------------------
// Roles
// ---------------------------------------------------------------------------

/// A role as the API returns it.
#[derive(Debug)]
pub struct Role {
    pub id: u128,
    pub name: String,
}

/// The name of a new role.
#[derive(Debug)]
pub struct RoleCreatePayload {
    pub name: String,
}

/// The role that a row stands for.
pub open spec fn role_from(model: RoleRecord) -> Role {
    Role { id: model.id, name: model.name }
}

impl From<RoleRecord> for Role {
    /// The row's id and name.
    fn from(model: RoleRecord) -> (r: Role) {
        Role { id: model.id, name: model.name }
    }
}

impl FromSpecImpl<RoleRecord> for Role {
    open spec fn obeys_from_spec() -> bool {
        true
    }

    open spec fn from_spec(model: RoleRecord) -> Role {
        role_from(model)
    }
}

/// The role that the row `model` stands for (without moving it).
pub fn role_of(model: &RoleRecord) -> (r: Role)
    ensures
        r == role_from(*model),
{
    Role { id: model.id, name: model.name.clone() }
}

// ---------------------------------------------------------------------------
// Users
// ---------------------------------------------------------------------------

/// A user with the names of its roles.
#[derive(Debug)]
pub struct User {
    pub id: u128,
    pub name: String,
    pub username: String,
    pub email: String,
    pub password: String,
    pub roles: Vec<String>,
}

/// `user` is the user of row `model` with the roles `roles`, in order.
pub open spec fn user_built_from(user: User, model: UserRecord, roles: Seq<RoleRecord>) -> bool {
    &&& user.id == model.id
    &&& user.name == model.name
    &&& user.username == model.username
    &&& user.email == model.email
    &&& user.password == model.password
    &&& user.roles@.len() == roles.len()
    &&& forall|i: int| 0 <= i < roles.len() ==> #[trigger] user.roles@[i] == roles[i].name
}

/// A user built from a row carries that row's own fields, each in its own
/// place (the name is the row's name, the username its username, and so on),
/// and the names of the given roles, in order.
pub proof fn built_user_carries_its_row(user: User, model: UserRecord, roles: Seq<RoleRecord>)
    requires
        user_built_from(user, model, roles),
    ensures
        user.id == model.id,
        user.name == model.name,
        user.username == model.username,
        user.email == model.email,
        user.password == model.password,
        user.roles@.len() == roles.len(),
        forall|i: int| 0 <= i < roles.len() ==> #[trigger] user.roles@[i] == roles[i].name,
{
}

impl User {
    /// The user of row `model` with the names of `roles`, in order.
    pub fn from_parts(model: &UserRecord, roles: &Vec<RoleRecord>) -> (u: User)
        ensures
            user_built_from(u, *model, roles@),
            u.id == model.id,
            u.name == model.name,
            u.username == model.username,
            u.email == model.email,
            u.password == model.password,
            u.roles@.len() == roles@.len(),
            forall|i: int| 0 <= i < roles@.len() ==> #[trigger] u.roles@[i] == roles@[i].name,
    {
        let mut names: Vec<String> = Vec::new();
        let mut i: usize = 0;
        while i < roles.len()
            invariant
                i <= roles.len(),
                names@.len() == i,
                forall|j: int| 0 <= j < i ==> #[trigger] names@[j] == roles@[j].name,
            decreases roles.len() - i,
        {
            names.push(roles[i].name.clone());
            i = i + 1;
        }
        User {
            id: model.id,
            name: model.name.clone(),
            username: model.username.clone(),
            email: model.email.clone(),
            password: model.password.clone(),
            roles: names,
        }
    }
}

/// A user as a login answer describes it.
#[derive(Debug)]
pub struct UserInfo {
    pub id: u128,
    pub full_name: String,
    pub username: String,
    pub email: String,
    pub roles: Vec<String>,
}

/// The answer to a successful login.
#[derive(Debug)]
pub struct LoginResponse {
    pub token: String,
    pub user: UserInfo,
}

/// The credentials of a login.
#[derive(Debug)]
pub struct LoginUserPayload {
    pub identifier: String,
    pub password: String,
}

/// The fields of a new user.
#[derive(Debug)]
pub struct RegisterUserPayload {
    pub username: String,
    pub name: String,
    pub password: String,
    pub email: String,
}

/// The fields of a user to change; `None` leaves a field as it is.
#[derive(Debug)]
pub struct UpdateUserPayload {
    pub username: Option<String>,
    pub name: Option<String>,
    pub password: Option<String>,
    pub email: Option<String>,
}

/// A field that failed validation, with the rule's message.
#[derive(Debug)]
pub struct ValidationIssue {
    pub field: String,
    pub message: String,
}

/// A field and a message, as sequences.
pub type IssueView = (Seq<char>, Seq<char>);

pub open spec fn username_message() -> Seq<char> {
    "name length should be at least 3 (max 10)"@
}

pub open spec fn name_message() -> Seq<char> {
    "Nama minimal 3 karakter."@
}

pub open spec fn password_message() -> Seq<char> {
    "Password minimal 8 karakter."@
}

/// A username must have 3 to 10 characters.
pub open spec fn username_ok(s: Seq<char>) -> bool {
    3 <= s.len() <= 10
}

/// A name must have at least 3 characters.
pub open spec fn name_ok(s: Seq<char>) -> bool {
    3 <= s.len()
}

/// A password must have at least 8 characters.
pub open spec fn password_ok(s: Seq<char>) -> bool {
    8 <= s.len()
}

/// The issue for `field` when `ok` fails.
pub open spec fn issue_if(ok: bool, field: Seq<char>, message: Seq<char>) -> Seq<IssueView> {
    if ok {
        Seq::empty()
    } else {
        seq![(field, message)]
    }
}

/// The issues of a registration, in the order of the fields.
pub open spec fn register_issues(p: RegisterUserPayload) -> Seq<IssueView> {
    issue_if(username_ok(p.username@), "username"@, username_message()) + issue_if(
        name_ok(p.name@),
        "name"@,
        name_message(),
    ) + issue_if(password_ok(p.password@), "password"@, password_message())
}

/// The issues of an update: only the fields given are checked.
pub open spec fn update_issues(p: UpdateUserPayload) -> Seq<IssueView> {
    issue_if(
        match p.username {
            Some(u) => username_ok(u@),
            None => true,
        },
        "username"@,
        username_message(),
    ) + issue_if(
        match p.name {
            Some(n) => name_ok(n@),
            None => true,
        },
        "name"@,
        name_message(),
    ) + issue_if(
        match p.password {
            Some(w) => password_ok(w@),
            None => true,
        },
        "password"@,
        password_message(),
    )
}

/// An update's username is refused exactly when it is given and has fewer
/// than 3 or more than 10 characters, the rule that registration applies;
/// likewise a given name under 3 and a given password under 8 characters.
pub proof fn update_length_rules(p: UpdateUserPayload)
    ensures
        update_issues(p).contains(("username"@, username_message())) <==> (p.username matches Some(
            u,
        ) && !(3 <= u@.len() <= 10)),
        update_issues(p).contains(("name"@, name_message())) <==> (p.name matches Some(n) && n@.len()
            < 3),
        update_issues(p).contains(("password"@, password_message())) <==> (p.password matches Some(
            w,
        ) && w@.len() < 8),
        update_issues(p).len() == 0 <==> ((p.username matches Some(u) ==> 3 <= u@.len() <= 10) && (
        p.name matches Some(n) ==> 3 <= n@.len()) && (p.password matches Some(w) ==> 8 <= w@.len())),
{
    reveal_strlit("username");
    reveal_strlit("name");
    reveal_strlit("password");
    let a = "username"@;
    let b = "name"@;
    let c = "password"@;
    assert(a != b && a != c && b != c) by {
        assert(a.len() != b.len());
        assert(a[0] != c[0]);
        assert(b.len() != c.len());
    }
    let ok_username = match p.username {
        Some(x) => username_ok(x@),
        None => true,
    };
    let ok_name = match p.name {
        Some(x) => name_ok(x@),
        None => true,
    };
    let ok_password = match p.password {
        Some(x) => password_ok(x@),
        None => true,
    };
    let s1 = issue_if(ok_username, a, username_message());
    let s2 = issue_if(ok_name, b, name_message());
    let s3 = issue_if(ok_password, c, password_message());
    let all = update_issues(p);
    assert(all == s1 + s2 + s3);
    assert forall|x: IssueView| #[trigger] all.contains(x) implies s1.contains(x) || s2.contains(x)
        || s3.contains(x) by {
        let i = choose|i: int| 0 <= i < all.len() && all[i] == x;
        if i < s1.len() {
            assert(s1[i] == x);
        } else if i < s1.len() + s2.len() {
            assert(s2[i - s1.len()] == x);
        } else {
            assert(s3[i - s1.len() - s2.len()] == x);
        }
    }
    if s1.len() > 0 {
        assert(all[0] == s1[0]);
    }
    if s2.len() > 0 {
        assert(all[s1.len() as int] == s2[0]);
    }
    if s3.len() > 0 {
        assert(all[(s1.len() + s2.len()) as int] == s3[0]);
    }
}

/// The username rule of an update is the one of registration: a given
/// username draws the username issue on update exactly when the same text
/// draws it on registration.
pub proof fn update_username_rule_is_registration_rule(p: UpdateUserPayload, r: RegisterUserPayload)
    requires
        p.username == Some(r.username),
    ensures
        update_issues(p).contains(("username"@, username_message())) <==> register_issues(r).contains(
            ("username"@, username_message()),
        ),
{
    update_length_rules(p);
    reveal_strlit("username");
    reveal_strlit("name");
    reveal_strlit("password");
    let a = "username"@;
    assert(a != "name"@ && a != "password"@) by {
        assert(a.len() != "name"@.len());
        assert(a[0] != "password"@[0]);
    }
    if !(3 <= r.username@.len() <= 10) {
        assert(register_issues(r)[0] == (a, username_message()));
    }
}

/// The issues held in `v`, as sequences.
pub open spec fn issues_view(v: Seq<ValidationIssue>) -> Seq<IssueView> {
    v.map_values(|i: ValidationIssue| (i.field@, i.message@))
}

fn push_issue(issues: &mut Vec<ValidationIssue>, field: &str, message: &str)
    ensures
        issues_view(final(issues)@) == issues_view(old(issues)@) + seq![(field@, message@)],
{
    issues.push(
        ValidationIssue {
            field: string_from_chars(&chars_of(field)),
            message: string_from_chars(&chars_of(message)),
        },
    );
    assert(issues_view(issues@) =~= issues_view(old(issues)@) + seq![(field@, message@)]);
}

fn char_count(s: &String) -> (n: usize)
    ensures
        n == s@.len(),
{
    chars_of(s.as_str()).len()
}

fn check_field(issues: &mut Vec<ValidationIssue>, ok: bool, field: &str, message: &str)
    ensures
        issues_view(final(issues)@) == issues_view(old(issues)@) + issue_if(ok, field@, message@),
{
    if !ok {
        push_issue(issues, field, message);
    } else {
        assert(issues_view(issues@) =~= issues_view(old(issues)@) + issue_if(
            ok,
            field@,
            message@,
        ));
    }
}

impl RegisterUserPayload {
    /// Checks the length rules of a registration: username 3 to 10
    /// characters, name at least 3, password at least 8.
    pub fn validate(&self) -> (res: Result<(), Vec<ValidationIssue>>)
        ensures
            res is Ok <==> register_issues(*self).len() == 0,
            res matches Err(v) ==> issues_view(v@) == register_issues(*self),
    {
        let mut issues: Vec<ValidationIssue> = Vec::new();
        let u = char_count(&self.username);
        check_field(&mut issues, 3 <= u && u <= 10, "username", "name length should be at least 3 (max 10)");
        let n = char_count(&self.name);
        check_field(&mut issues, 3 <= n, "name", "Nama minimal 3 karakter.");
        let w = char_count(&self.password);
        check_field(&mut issues, 8 <= w, "password", "Password minimal 8 karakter.");
        assert(issues_view(issues@) =~= register_issues(*self));
        if issues.len() == 0 {
            Ok(())
        } else {
            Err(issues)
        }
    }
}

impl UpdateUserPayload {
    /// Checks the length rules of the fields that are given.
    pub fn validate(&self) -> (res: Result<(), Vec<ValidationIssue>>)
        ensures
            res is Ok <==> update_issues(*self).len() == 0,
            res is Ok <==> ((self.username matches Some(u) ==> 3 <= u@.len() <= 10) && (
            self.name matches Some(n) ==> 3 <= n@.len()) && (self.password matches Some(w) ==> 8
                <= w@.len())),
            res matches Err(v) ==> issues_view(v@) == update_issues(*self),
    {
        let mut issues: Vec<ValidationIssue> = Vec::new();
        let u_ok = match &self.username {
            Some(u) => {
                let c = char_count(u);
                3 <= c && c <= 10
            },
            None => true,
        };
        check_field(&mut issues, u_ok, "username", "name length should be at least 3 (max 10)");
        let n_ok = match &self.name {
            Some(n) => 3 <= char_count(n),
            None => true,
        };
        check_field(&mut issues, n_ok, "name", "Nama minimal 3 karakter.");
        let w_ok = match &self.password {
            Some(w) => 8 <= char_count(w),
            None => true,
        };
        check_field(&mut issues, w_ok, "password", "Password minimal 8 karakter.");
        assert(issues_view(issues@) =~= update_issues(*self));
        if issues.len() == 0 {
            Ok(())
        } else {
            Err(issues)
        }
    }
}

} // verus!
