//! The failures that operations report.

use vstd::prelude::*;
use vstd::string::StringExecFns;

verus! {

/// The kinds of record the database holds, one per table.
#[derive(Debug, Clone, Copy, PartialEq, Eq, Structural)]
pub enum Entity {
    User,
    Client,
    Order,
    Impression,
    Clothes,
    ClothingService,
}

/// The date and time fields that a snapshot carries as text.
#[derive(Debug, Clone, Copy, PartialEq, Eq, Structural)]
pub enum TimeField {
    CreatedAt,
    UpdatedAt,
    DueDate,
}

/// Why an argument was rejected.
#[derive(Debug, PartialEq, Eq)]
pub enum Invalid {
    /// A payment must be greater than zero.
    NonPositivePayment,
    /// The text, which is given, names no garment type.
    ClothingType(String),
    /// The text, which is given, names no decoration service.
    ServiceType(String),
    /// The text, which is given, names no placement on the garment.
    ServiceLocation(String),
    /// A user is either an administrator or a plain user.
    Role,
    /// Another user already has this login.
    LoginTaken,
    /// The per-size quantities add up to more than a garment line can hold.
    Quantity,
    /// There is not one identity for each service to create.
    Identities,
    /// The per-size quantities have no encoding that reads back as them.
    Sizes,
}

/// A constraint of the store that an operation would have broken.
#[derive(Debug, Clone, Copy, PartialEq, Eq, Structural)]
pub enum Violation {
    /// A record with this identity is already in the table.
    DuplicateKey(Entity),
    /// A user with this login is already in the table.
    DuplicateLogin,
    /// The record refers to a parent that is not in the store.
    MissingParent(Entity),
    /// The next sequence number does not fit the column.
    SequenceExhausted,
    /// A derived amount does not fit the column.
    AmountOutOfRange,
    /// A date or time of this kind of record has no textual form.
    UnrepresentableTime(Entity, TimeField),
    /// The instant at which a snapshot is taken has no textual form.
    ClockOutOfRange,
}

/// What could not be read.
#[derive(Debug, PartialEq, Eq)]
pub enum Malformed {
    /// A date or time field of a snapshot record; `id` is the record's
    /// identity.
    Time { entity: Entity, id: String, field: TimeField },
    /// The per-size quantities of a garment line; the text that was found
    /// is given.
    Sizes(String),
}

/// A failed operation.
#[derive(Debug, PartialEq, Eq)]
pub enum Error {
    /// The record that the operation refers to is absent.
    NotFound(Entity),
    /// An argument is outside what the operation accepts.
    InvalidArgument(Invalid),
    /// A text does not have the form it should have.
    ParseError(Malformed),
    /// The store refused the operation.
    StoreFailure(Violation),
}

impl Entity {
    /// The word for a record of this kind.
    pub open spec fn name(self) -> Seq<char> {
        match self {
            Entity::User => "user"@,
            Entity::Client => "client"@,
            Entity::Order => "order"@,
            Entity::Impression => "impression"@,
            Entity::Clothes => "clothes"@,
            Entity::ClothingService => "service"@,
        }
    }

    pub fn to_name(&self) -> (text: &'static str)
        ensures
            text@ == self.name(),
    {
        match self {
            Entity::User => "user",
            Entity::Client => "client",
            Entity::Order => "order",
            Entity::Impression => "impression",
            Entity::Clothes => "clothes",
            Entity::ClothingService => "service",
        }
    }

    /// What is said where a record of this kind is absent.
    pub open spec fn not_found(self) -> Seq<char> {
        match self {
            Entity::User => "User not found"@,
            Entity::Client => "Client not found"@,
            Entity::Order => "Order not found"@,
            Entity::Impression => "Impression not found"@,
            Entity::Clothes => "Clothes not found"@,
            Entity::ClothingService => "Service not found"@,
        }
    }
}

impl TimeField {
    /// The name of the field.
    pub open spec fn name(self) -> Seq<char> {
        match self {
            TimeField::CreatedAt => "created_at"@,
            TimeField::UpdatedAt => "updated_at"@,
            TimeField::DueDate => "due_date"@,
        }
    }

    pub fn to_name(&self) -> (text: &'static str)
        ensures
            text@ == self.name(),
    {
        match self {
            TimeField::CreatedAt => "created_at",
            TimeField::UpdatedAt => "updated_at",
            TimeField::DueDate => "due_date",
        }
    }
}

impl Invalid {
    /// What is said of the rejected argument.
    pub open spec fn text(self) -> Seq<char> {
        match self {
            Invalid::NonPositivePayment => "Payment amount must be greater than 0"@,
            Invalid::ClothingType(found) => "Invalid clothing type: "@ + found@,
            Invalid::ServiceType(found) => "Invalid service type: "@ + found@,
            Invalid::ServiceLocation(found) => "Invalid service location: "@ + found@,
            Invalid::Role => "Role deve ser 'admin' ou 'user'"@,
            Invalid::LoginTaken => "Já existe um usuário com este login"@,
            Invalid::Quantity => "Total quantity is out of range"@,
            Invalid::Identities => "One id is needed for each service"@,
            Invalid::Sizes => "Failed to serialize sizes"@,
        }
    }
}

impl Violation {
    /// What is said of the broken constraint.
    pub open spec fn text(self) -> Seq<char> {
        match self {
            Violation::DuplicateKey(entity) => "Duplicate id for "@ + entity.name(),
            Violation::DuplicateLogin => "Duplicate login for user"@,
            Violation::MissingParent(entity) => "Missing parent for "@ + entity.name(),
            Violation::SequenceExhausted => "Order number is out of range"@,
            Violation::AmountOutOfRange => "Amount is out of range"@,
            Violation::UnrepresentableTime(entity, field) => "Failed to write "@ + field.name()
                + " for "@ + entity.name(),
            Violation::ClockOutOfRange => "Failed to write the time of the backup"@,
        }
    }
}

impl Malformed {
    /// What is said of the text that could not be read.
    pub open spec fn text(self) -> Seq<char> {
        match self {
            Malformed::Time { entity, id, field } => "Failed to parse "@ + field.name() + " for "@
                + entity.name() + " "@ + id@,
            Malformed::Sizes(found) => "Failed to parse sizes JSON: "@ + found@,
        }
    }
}

impl Error {
    /// The failure in words, for whoever called.
    pub open spec fn text(self) -> Seq<char> {
        match self {
            Error::NotFound(entity) => entity.not_found(),
            Error::InvalidArgument(invalid) => invalid.text(),
            Error::ParseError(malformed) => malformed.text(),
            Error::StoreFailure(violation) => violation.text(),
        }
    }

    pub fn message(&self) -> (text: String)
        ensures
            text@ == self.text(),
    {
        match self {
            Error::NotFound(entity) => match entity {
                Entity::User => "User not found".to_owned(),
                Entity::Client => "Client not found".to_owned(),
                Entity::Order => "Order not found".to_owned(),
                Entity::Impression => "Impression not found".to_owned(),
                Entity::Clothes => "Clothes not found".to_owned(),
                Entity::ClothingService => "Service not found".to_owned(),
            },
            Error::InvalidArgument(invalid) => match invalid {
                Invalid::NonPositivePayment => "Payment amount must be greater than 0".to_owned(),
                Invalid::ClothingType(found) => {
                    let mut text = "Invalid clothing type: ".to_owned();
                    text.append(found.as_str());
                    text
                },
                Invalid::ServiceType(found) => {
                    let mut text = "Invalid service type: ".to_owned();
                    text.append(found.as_str());
                    text
                },
                Invalid::ServiceLocation(found) => {
                    let mut text = "Invalid service location: ".to_owned();
                    text.append(found.as_str());
                    text
                },
                Invalid::Role => "Role deve ser 'admin' ou 'user'".to_owned(),
                Invalid::LoginTaken => "Já existe um usuário com este login".to_owned(),
                Invalid::Quantity => "Total quantity is out of range".to_owned(),
                Invalid::Identities => "One id is needed for each service".to_owned(),
                Invalid::Sizes => "Failed to serialize sizes".to_owned(),
            },
            Error::ParseError(malformed) => match malformed {
                Malformed::Time { entity, id, field } => {
                    let mut text = "Failed to parse ".to_owned();
                    text.append(field.to_name());
                    text.append(" for ");
                    text.append(entity.to_name());
                    text.append(" ");
                    text.append(id.as_str());
                    text
                },
                Malformed::Sizes(found) => {
                    let mut text = "Failed to parse sizes JSON: ".to_owned();
                    text.append(found.as_str());
                    text
                },
            },
            Error::StoreFailure(violation) => match violation {
                Violation::DuplicateKey(entity) => {
                    let mut text = "Duplicate id for ".to_owned();
                    text.append(entity.to_name());
                    text
                },
                Violation::DuplicateLogin => "Duplicate login for user".to_owned(),
                Violation::MissingParent(entity) => {
                    let mut text = "Missing parent for ".to_owned();
                    text.append(entity.to_name());
                    text
                },
                Violation::SequenceExhausted => "Order number is out of range".to_owned(),
                Violation::AmountOutOfRange => "Amount is out of range".to_owned(),
                Violation::UnrepresentableTime(entity, field) => {
                    let mut text = "Failed to write ".to_owned();
                    text.append(field.to_name());
                    text.append(" for ");
                    text.append(entity.to_name());
                    text
                },
                Violation::ClockOutOfRange => "Failed to write the time of the backup".to_owned(),
            },
        }
    }
}

} // verus!
