//! Impressions, as callers see them.

use crate::error::Error;
use crate::models::Impression;
use vstd::prelude::*;

verus! {

/// An impression of the store.
#[derive(Debug, Clone, PartialEq, Eq)]
pub struct ImpressionDto {
    pub id: String,
    pub order_id: String,
    pub name: String,
    pub size: String,
    pub material: String,
    pub description: String,
    pub price: i64,
}

/// An impression to create.
#[derive(Debug, Clone, PartialEq, Eq)]
pub struct CreateImpressionDto {
    pub order_id: String,
    pub name: String,
    pub size: String,
    pub material: String,
    pub description: String,
    pub price: i64,
}

/// What an impression is to hold from now on.
#[derive(Debug, Clone, PartialEq, Eq)]
pub struct UpdateImpressionDto {
    pub name: String,
    pub size: String,
    pub material: String,
    pub description: String,
    pub price: i64,
}

impl ImpressionDto {
    /// What `model` holds, without its dates.
    pub open spec fn of(model: Impression) -> ImpressionDto {
        ImpressionDto {
            id: model.id,
            order_id: model.order_id,
            name: model.name,
            size: model.size,
            material: model.material,
            description: model.description,
            price: model.price,
        }
    }

    pub fn from_model(model: Impression) -> (r: Result<ImpressionDto, Error>)
        ensures
            r == Ok::<ImpressionDto, Error>(ImpressionDto::of(model)),
    {
        Ok(
            ImpressionDto {
                id: model.id,
                order_id: model.order_id,
                name: model.name,
                size: model.size,
                material: model.material,
                description: model.description,
                price: model.price,
            },
        )
    }
}

} // verus!
