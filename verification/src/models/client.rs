//! Clients.

use crate::table::{Record, Row};
use crate::temporal::Timestamp;
use vstd::prelude::*;

verus! {

/// A customer of the shop.
#[derive(Debug, PartialEq, Eq)]
pub struct Client {
    pub id: String,
    pub name: String,
    pub nuit: String,
    pub contact: String,
    pub category: String,
    pub observations: String,
    /// What the client owes over all orders.
    pub debt: i64,
    pub created_at: Timestamp,
    pub updated_at: Timestamp,
}

/// What a [`Client`] holds, with its texts as sequences of characters.
pub struct ClientView {
    pub id: Seq<char>,
    pub name: Seq<char>,
    pub nuit: Seq<char>,
    pub contact: Seq<char>,
    pub category: Seq<char>,
    pub observations: Seq<char>,
    pub debt: i64,
    pub created_at: Timestamp,
    pub updated_at: Timestamp,
}

impl View for Client {
    type V = ClientView;

    open spec fn view(&self) -> ClientView {
        ClientView {
            id: self.id@,
            name: self.name@,
            nuit: self.nuit@,
            contact: self.contact@,
            category: self.category@,
            observations: self.observations@,
            debt: self.debt,
            created_at: self.created_at,
            updated_at: self.updated_at,
        }
    }
}

impl Row for Client {
    open spec fn rank(&self) -> i128 {
        self.created_at.unix_nanos
    }

    fn rank_value(&self) -> (rank: i128) {
        self.created_at.unix_nanos
    }

    fn duplicate(&self) -> (r: Client) {
        Client {
            id: self.id.clone(),
            name: self.name.clone(),
            nuit: self.nuit.clone(),
            contact: self.contact.clone(),
            category: self.category.clone(),
            observations: self.observations.clone(),
            debt: self.debt,
            created_at: self.created_at,
            updated_at: self.updated_at,
        }
    }}

impl Record for Client {
    open spec fn key(&self) -> Seq<char> {
        self.id@
    }

    fn id(&self) -> (k: &String) {
        &self.id
    }
}

impl Clone for Client {
    fn clone(&self) -> (r: Client)
        ensures
            r == *self,
    {
        self.duplicate()
    }
}

} // verus!
