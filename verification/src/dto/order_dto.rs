//! Orders, as callers see them.

use crate::models::{Order, OrderStatus};
use crate::temporal::{Date, Timestamp};
use vstd::prelude::*;
use vstd::std_specs::convert::FromSpecImpl;

verus! {

/// An order to create. Its amounts start at nothing; `paid` is accepted and
/// not used.
#[derive(Debug, Clone, PartialEq, Eq)]
pub struct CreateOrderDto {
    pub name: String,
    pub client_id: String,
    pub due_date: Date,
    pub iva: i64,
    pub discount: Option<i64>,
    pub status: Option<OrderStatus>,
    pub paid: Option<bool>,
}

/// The fields of an order to change; an absent field stays as it is. `paid`
/// is accepted and not used.
#[derive(Debug, Clone, PartialEq, Eq)]
pub struct UpdateOrderDto {
    pub name: Option<String>,
    pub client_id: Option<String>,
    pub due_date: Option<Date>,
    pub discount: Option<i64>,
    pub iva: Option<i64>,
    pub subtotal: Option<i64>,
    pub total: Option<i64>,
    pub status: Option<OrderStatus>,
    pub paid: Option<bool>,
}

/// An order of the store, with the name and the contact of its client.
#[derive(Debug, Clone, PartialEq, Eq)]
pub struct OrderResponseDto {
    pub id: String,
    pub name: String,
    pub client_id: String,
    pub client_name: String,
    pub client_contact: String,
    pub order_number: i32,
    pub client_requisition_number: i32,
    pub due_date: Option<Date>,
    pub discount: i64,
    pub iva: i64,
    pub subtotal: i64,
    pub total: i64,
    pub debt: i64,
    pub status: OrderStatus,
    pub created_at: Timestamp,
    pub updated_at: Timestamp,
}

/// The state that a record's status text stands for; a text that stands
/// for none counts as the first state.
pub open spec fn status_of(text: Seq<char>) -> OrderStatus {
    match OrderStatus::named(text) {
        Some(status) => status,
        None => OrderStatus::OrderReceived,
    }
}

impl From<(Order, String, String)> for OrderResponseDto {
    fn from(parts: (Order, String, String)) -> (dto: OrderResponseDto) {
        let (order, client_name, client_contact) = parts;
        let status = match OrderStatus::from_label(&order.status) {
            Some(status) => status,
            None => OrderStatus::OrderReceived,
        };
        OrderResponseDto {
            id: order.id,
            name: order.name,
            client_id: order.client_id,
            client_name,
            client_contact,
            order_number: order.order_number,
            client_requisition_number: order.client_requisition_number,
            due_date: order.due_date,
            discount: order.discount,
            iva: order.iva,
            subtotal: order.subtotal,
            total: order.total,
            debt: order.debt,
            status,
            created_at: order.created_at,
            updated_at: order.updated_at,
        }
    }
}

impl OrderResponseDto {
    /// The answer that stands for an order, the name of its client and the
    /// contact of its client.
    pub open spec fn of(parts: (Order, String, String)) -> OrderResponseDto {
        OrderResponseDto {
            id: parts.0.id,
            name: parts.0.name,
            client_id: parts.0.client_id,
            client_name: parts.1,
            client_contact: parts.2,
            order_number: parts.0.order_number,
            client_requisition_number: parts.0.client_requisition_number,
            due_date: parts.0.due_date,
            discount: parts.0.discount,
            iva: parts.0.iva,
            subtotal: parts.0.subtotal,
            total: parts.0.total,
            debt: parts.0.debt,
            status: status_of(parts.0.status@),
            created_at: parts.0.created_at,
            updated_at: parts.0.updated_at,
        }
    }
}

impl FromSpecImpl<(Order, String, String)> for OrderResponseDto {
    open spec fn obeys_from_spec() -> bool {
        true
    }

    open spec fn from_spec(parts: (Order, String, String)) -> OrderResponseDto {
        OrderResponseDto::of(parts)
    }
}

} // verus!
