//! Builders of rows with default values, used to seed the database.

use crate::ids::{new_uuid_v4, uuid_version};
use crate::models::{PermissionRecord, Price, ProductRecord, RoleRecord, UserRecord};
use crate::text::{chars_of, string_from_chars};
use vstd::prelude::*;

verus! {

/// A builder of a role row; its name defaults to "admin".
pub struct RoleFactory {
    name: String,
}

impl View for RoleFactory {
    type V = Seq<char>;

    /// The name the role will get.
    closed spec fn view(&self) -> Seq<char> {
        self.name@
    }
}

impl RoleFactory {
    /// A builder for a role named "admin".
    pub fn new() -> (f: RoleFactory)
        ensures
            f@ == "admin"@,
    {
        RoleFactory { name: string_from_chars(&chars_of("admin")) }
    }

    /// The same builder, for a role named `name`.
    pub fn name(self, name: String) -> (f: RoleFactory)
        ensures
            f@ == name@,
    {
        RoleFactory { name }
    }

    /// The role row, with a fresh random id.
    pub fn build(self) -> (r: RoleRecord)
        ensures
            r.name@ == self@,
            uuid_version(r.id) == 4,
    {
        RoleRecord { id: new_uuid_v4(), name: self.name }
    }
}

/// A builder of a permission row; its name defaults to "create".
pub struct PermissionFactory {
    name: String,
}

impl View for PermissionFactory {
    type V = Seq<char>;

    /// The name the permission will get.
    closed spec fn view(&self) -> Seq<char> {
        self.name@
    }
}

impl PermissionFactory {
    /// A builder for a permission named "create".
    pub fn new() -> (f: PermissionFactory)
        ensures
            f@ == "create"@,
    {
        PermissionFactory { name: string_from_chars(&chars_of("create")) }
    }

    /// The same builder, for a permission named `name`.
    pub fn name(self, name: String) -> (f: PermissionFactory)
        ensures
            f@ == name@,
    {
        PermissionFactory { name }
    }

    /// The permission row, with a fresh random id.
    pub fn build(self) -> (r: PermissionRecord)
        ensures
            r.name_permission@ == self@,
            uuid_version(r.id) == 4,
    {
        PermissionRecord { id: new_uuid_v4(), name_permission: self.name }
    }
}

/// A builder of a user row.
pub struct UserFactory {
    pub id: Option<u128>,
    pub name: String,
    pub username: String,
    pub email: String,
    pub password: String,
}

impl UserFactory {
    /// John Doe ("john-doe", john@example.com, password "password"), with a
    /// fresh random id.
    pub fn new() -> (f: UserFactory)
        ensures
            f.id matches Some(id) && uuid_version(id) == 4,
            f.name@ == "John Doe"@,
            f.username@ == "john-doe"@,
            f.email@ == "john@example.com"@,
            f.password@ == "password"@,
    {
        UserFactory {
            id: Some(new_uuid_v4()),
            name: string_from_chars(&chars_of("John Doe")),
            username: string_from_chars(&chars_of("john-doe")),
            email: string_from_chars(&chars_of("john@example.com")),
            password: string_from_chars(&chars_of("password")),
        }
    }

    /// The same builder with the id `id`.
    pub fn id(self, id: u128) -> (f: UserFactory)
        ensures
            f == (UserFactory { id: Some(id), ..self }),
    {
        UserFactory { id: Some(id), ..self }
    }

    /// The same builder with the name `name`.
    pub fn name(self, name: String) -> (f: UserFactory)
        ensures
            f == (UserFactory { name, ..self }),
    {
        UserFactory { name, ..self }
    }

    /// The same builder with the username `username`.
    pub fn username(self, username: String) -> (f: UserFactory)
        ensures
            f == (UserFactory { username, ..self }),
    {
        UserFactory { username, ..self }
    }

    /// The same builder with the email `email`.
    pub fn email(self, email: String) -> (f: UserFactory)
        ensures
            f == (UserFactory { email, ..self }),
    {
        UserFactory { email, ..self }
    }

    /// The same builder with the password `password`.
    pub fn password(self, password: String) -> (f: UserFactory)
        ensures
            f == (UserFactory { password, ..self }),
    {
        UserFactory { password, ..self }
    }

    /// The user row; without an id it gets a fresh random one.
    pub fn build(self) -> (r: UserRecord)
        ensures
            self.id matches Some(id) ==> r.id == id,
            self.id is None ==> uuid_version(r.id) == 4,
            r.name == self.name,
            r.username == self.username,
            r.email == self.email,
            r.password == self.password,
    {
        let fresh = new_uuid_v4();
        let id = match self.id {
            Some(id) => id,
            None => fresh,
        };
        UserRecord {
            id,
            name: self.name,
            username: self.username,
            email: self.email,
            password: self.password,
        }
    }
}

/// What a product builder holds.
pub struct ProductFactoryView {
    pub id: Option<u128>,
    pub name: Seq<char>,
    pub sku: Seq<char>,
    pub slug: Seq<char>,
    pub description: Seq<char>,
    pub user_id: u128,
    pub price: Price,
    pub quantity: i64,
}

/// A builder of a product row.
pub struct ProductFactory {
    id: Option<u128>,
    name: String,
    sku: String,
    slug: String,
    description: String,
    user_id: u128,
    price: Price,
    quantity: i64,
}

impl View for ProductFactory {
    type V = ProductFactoryView;

    closed spec fn view(&self) -> ProductFactoryView {
        ProductFactoryView {
            id: self.id,
            name: self.name@,
            sku: self.sku@,
            slug: self.slug@,
            description: self.description@,
            user_id: self.user_id,
            price: self.price,
            quantity: self.quantity,
        }
    }
}

impl ProductFactory {
    /// "Default Product" (DEF-PROD-001, "default-product"), priced 10.00,
    /// ten in stock, owned by `admin_id`, with a fresh random id.
    pub fn new(admin_id: u128) -> (f: ProductFactory)
        ensures
            f@.id matches Some(id) && uuid_version(id) == 4,
            f@.name == "Default Product"@,
            f@.sku == "DEF-PROD-001"@,
            f@.slug == "default-product"@,
            f@.description == "Default product description"@,
            f@.user_id == admin_id,
            f@.price == (Price { mantissa: 1000, scale: 2 }),
            f@.quantity == 10,
    {
        ProductFactory {
            id: Some(new_uuid_v4()),
            name: string_from_chars(&chars_of("Default Product")),
            sku: string_from_chars(&chars_of("DEF-PROD-001")),
            slug: string_from_chars(&chars_of("default-product")),
            description: string_from_chars(&chars_of("Default product description")),
            user_id: admin_id,
            price: Price::new(1000, 2),
            quantity: 10,
        }
    }

    /// The same builder with the id `id`.
    pub fn id(self, id: u128) -> (f: ProductFactory)
        ensures
            f@ == (ProductFactoryView { id: Some(id), ..self@ }),
    {
        ProductFactory { id: Some(id), ..self }
    }

    /// The same builder with the name `name`.
    pub fn name(self, name: String) -> (f: ProductFactory)
        ensures
            f@ == (ProductFactoryView { name: name@, ..self@ }),
    {
        ProductFactory { name, ..self }
    }

    /// The same builder with the SKU `sku`.
    pub fn sku(self, sku: String) -> (f: ProductFactory)
        ensures
            f@ == (ProductFactoryView { sku: sku@, ..self@ }),
    {
        ProductFactory { sku, ..self }
    }

    /// The same builder with the slug `slug`.
    pub fn slug(self, slug: String) -> (f: ProductFactory)
        ensures
            f@ == (ProductFactoryView { slug: slug@, ..self@ }),
    {
        ProductFactory { slug, ..self }
    }

    /// The same builder with the description `description`.
    pub fn description(self, description: String) -> (f: ProductFactory)
        ensures
            f@ == (ProductFactoryView { description: description@, ..self@ }),
    {
        ProductFactory { description, ..self }
    }

    /// The same builder with the price `price`.
    pub fn price(self, price: Price) -> (f: ProductFactory)
        ensures
            f@ == (ProductFactoryView { price, ..self@ }),
    {
        ProductFactory { price, ..self }
    }

    /// The same builder with the quantity `quantity`.
    pub fn quantity(self, quantity: i64) -> (f: ProductFactory)
        ensures
            f@ == (ProductFactoryView { quantity, ..self@ }),
    {
        ProductFactory { quantity, ..self }
    }

    /// Sets the product's id (not its owner) to `id`: the owner stays the one
    /// given to `new`.
    pub fn user_id(self, id: u128) -> (f: ProductFactory)
        ensures
            f@ == (ProductFactoryView { id: Some(id), ..self@ }),
    {
        ProductFactory { id: Some(id), ..self }
    }

    /// The product row; without an id it gets a fresh random one.
    pub fn build(self) -> (r: ProductRecord)
        ensures
            self@.id matches Some(id) ==> r.id == id,
            self@.id is None ==> uuid_version(r.id) == 4,
            r.name@ == self@.name,
            r.sku@ == self@.sku,
            r.slug@ == self@.slug,
            r.description@ == self@.description,
            r.user_id == self@.user_id,
            r.price == self@.price,
            r.quantity == self@.quantity,
    {
        let fresh = new_uuid_v4();
        let id = match self.id {
            Some(id) => id,
            None => fresh,
        };
        ProductRecord {
            id,
            name: self.name,
            sku: self.sku,
            slug: self.slug,
            description: self.description,
            user_id: self.user_id,
            price: self.price,
            quantity: self.quantity,
        }
    }
}

} // verus!
