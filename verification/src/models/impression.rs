//! Impressions.

use crate::table::{Child, Record, Row};
use crate::temporal::Timestamp;
use vstd::prelude::*;

verus! {

/// A printed item of an order: a line with a price of its own.
#[derive(Debug, PartialEq, Eq)]
pub struct Impression {
    pub id: String,
    pub order_id: String,
    pub name: String,
    pub size: String,
    pub material: String,
    pub description: String,
    pub price: i64,
    pub created_at: Timestamp,
    pub updated_at: Timestamp,
}

/// What a [`Impression`] holds, with its texts as sequences of characters.
pub struct ImpressionView {
    pub id: Seq<char>,
    pub order_id: Seq<char>,
    pub name: Seq<char>,
    pub size: Seq<char>,
    pub material: Seq<char>,
    pub description: Seq<char>,
    pub price: i64,
    pub created_at: Timestamp,
    pub updated_at: Timestamp,
}

impl View for Impression {
    type V = ImpressionView;

    open spec fn view(&self) -> ImpressionView {
        ImpressionView {
            id: self.id@,
            order_id: self.order_id@,
            name: self.name@,
            size: self.size@,
            material: self.material@,
            description: self.description@,
            price: self.price,
            created_at: self.created_at,
            updated_at: self.updated_at,
        }
    }
}

impl Row for Impression {
    open spec fn rank(&self) -> i128 {
        self.created_at.unix_nanos
    }

    fn rank_value(&self) -> (rank: i128) {
        self.created_at.unix_nanos
    }

    fn duplicate(&self) -> (r: Impression) {
        Impression {
            id: self.id.clone(),
            order_id: self.order_id.clone(),
            name: self.name.clone(),
            size: self.size.clone(),
            material: self.material.clone(),
            description: self.description.clone(),
            price: self.price,
            created_at: self.created_at,
            updated_at: self.updated_at,
        }
    }}

impl Record for Impression {
    open spec fn key(&self) -> Seq<char> {
        self.id@
    }

    fn id(&self) -> (k: &String) {
        &self.id
    }
}

impl Child for Impression {
    open spec fn parent(&self) -> Seq<char> {
        self.order_id@
    }

    fn parent_id(&self) -> (k: &String) {
        &self.order_id
    }
}

impl Clone for Impression {
    fn clone(&self) -> (r: Impression)
        ensures
            r == *self,
    {
        self.duplicate()
    }
}

} // verus!
