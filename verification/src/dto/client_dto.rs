//! Clients, as callers see them.

use crate::models::Client;
use crate::temporal::Timestamp;
use vstd::prelude::*;
use vstd::std_specs::convert::FromSpecImpl;

verus! {

/// A client to create.
#[derive(Debug, Clone, PartialEq, Eq)]
pub struct CreateClientDto {
    pub name: String,
    pub nuit: String,
    pub contact: String,
    pub category: String,
    pub observations: String,
}

/// The fields of a client to change; an absent field stays as it is.
#[derive(Debug, Clone, PartialEq, Eq)]
pub struct UpdateClientDto {
    pub name: Option<String>,
    pub nuit: Option<String>,
    pub contact: Option<String>,
    pub category: Option<String>,
    pub observations: Option<String>,
}

/// A client of the store.
#[derive(Debug, Clone, PartialEq, Eq)]
pub struct ClientResponseDto {
    pub id: String,
    pub name: String,
    pub nuit: String,
    pub contact: String,
    pub category: String,
    pub observations: String,
    pub debt: i64,
    pub created_at: Timestamp,
    pub updated_at: Timestamp,
}

impl From<Client> for ClientResponseDto {
    fn from(client: Client) -> (dto: ClientResponseDto) {
        ClientResponseDto {
            id: client.id,
            name: client.name,
            nuit: client.nuit,
            contact: client.contact,
            category: client.category,
            observations: client.observations,
            debt: client.debt,
            created_at: client.created_at,
            updated_at: client.updated_at,
        }
    }
}

impl ClientResponseDto {
    /// The answer that stands for a client.
    pub open spec fn of(client: Client) -> ClientResponseDto {
        ClientResponseDto {
            id: client.id,
            name: client.name,
            nuit: client.nuit,
            contact: client.contact,
            category: client.category,
            observations: client.observations,
            debt: client.debt,
            created_at: client.created_at,
            updated_at: client.updated_at,
        }
    }
}

impl FromSpecImpl<Client> for ClientResponseDto {
    open spec fn obeys_from_spec() -> bool {
        true
    }

    open spec fn from_spec(client: Client) -> ClientResponseDto {
        ClientResponseDto::of(client)
    }
}

} // verus!
