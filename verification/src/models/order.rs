//! Orders and their workflow states.

use crate::table::{Child, Record, Row};
use crate::temporal::{Date, Timestamp};
use vstd::prelude::*;

verus! {

/// An order of a client.
#[derive(Debug, PartialEq, Eq)]
pub struct Order {
    pub id: String,
    pub name: String,
    pub client_id: String,
    /// Counts the orders of the shop, from 1.
    pub order_number: i32,
    /// Counts the orders of this client, from 1.
    pub client_requisition_number: i32,
    pub due_date: Option<Date>,
    /// An amount taken off after tax.
    pub discount: i64,
    /// The tax rate, in hundredths of a percent of the subtotal: 1600 is
    /// 16 percent, 750 is 7.5 percent.
    pub iva: i64,
    /// The sum of the line prices, before tax and discount.
    pub subtotal: i64,
    /// The subtotal, plus tax, minus the discount.
    pub total: i64,
    /// The label of an [`OrderStatus`].
    pub status: String,
    /// What is still to be paid; never below zero after a payment.
    pub debt: i64,
    pub created_at: Timestamp,
    pub updated_at: Timestamp,
}

/// What a [`Order`] holds, with its texts as sequences of characters.
pub struct OrderView {
    pub id: Seq<char>,
    pub name: Seq<char>,
    pub client_id: Seq<char>,
    pub order_number: i32,
    pub client_requisition_number: i32,
    pub due_date: Option<Date>,
    pub discount: i64,
    pub iva: i64,
    pub subtotal: i64,
    pub total: i64,
    pub status: Seq<char>,
    pub debt: i64,
    pub created_at: Timestamp,
    pub updated_at: Timestamp,
}

impl View for Order {
    type V = OrderView;

    open spec fn view(&self) -> OrderView {
        OrderView {
            id: self.id@,
            name: self.name@,
            client_id: self.client_id@,
            order_number: self.order_number,
            client_requisition_number: self.client_requisition_number,
            due_date: self.due_date,
            discount: self.discount,
            iva: self.iva,
            subtotal: self.subtotal,
            total: self.total,
            status: self.status@,
            debt: self.debt,
            created_at: self.created_at,
            updated_at: self.updated_at,
        }
    }
}

impl Row for Order {
    open spec fn rank(&self) -> i128 {
        self.created_at.unix_nanos
    }

    fn rank_value(&self) -> (rank: i128) {
        self.created_at.unix_nanos
    }

    fn duplicate(&self) -> (r: Order) {
        Order {
            id: self.id.clone(),
            name: self.name.clone(),
            client_id: self.client_id.clone(),
            order_number: self.order_number,
            client_requisition_number: self.client_requisition_number,
            due_date: self.due_date,
            discount: self.discount,
            iva: self.iva,
            subtotal: self.subtotal,
            total: self.total,
            status: self.status.clone(),
            debt: self.debt,
            created_at: self.created_at,
            updated_at: self.updated_at,
        }
    }}

impl Record for Order {
    open spec fn key(&self) -> Seq<char> {
        self.id@
    }

    fn id(&self) -> (k: &String) {
        &self.id
    }
}

impl Child for Order {
    open spec fn parent(&self) -> Seq<char> {
        self.client_id@
    }

    fn parent_id(&self) -> (k: &String) {
        &self.client_id
    }
}

impl Clone for Order {
    fn clone(&self) -> (r: Order)
        ensures
            r == *self,
    {
        self.duplicate()
    }
}

/// The workflow state of an order.
#[derive(Debug, Clone, Copy, PartialEq, Eq, Structural)]
pub enum OrderStatus {
    OrderReceived,
    InProduction,
    ReadyForDelivery,
    Delivered,
}

impl OrderStatus {
    /// The text that stands for the variant in a record.
    pub open spec fn label(self) -> Seq<char> {
        match self {
            OrderStatus::OrderReceived => "order_received"@,
            OrderStatus::InProduction => "in_production"@,
            OrderStatus::ReadyForDelivery => "ready_for_delivery"@,
            OrderStatus::Delivered => "delivered"@,
        }
    }

    /// The variant that `text` stands for, if it stands for one.
    pub open spec fn named(text: Seq<char>) -> Option<OrderStatus> {
        if text == "order_received"@ {
            Some(OrderStatus::OrderReceived)
        } else if text == "in_production"@ {
            Some(OrderStatus::InProduction)
        } else if text == "ready_for_delivery"@ {
            Some(OrderStatus::ReadyForDelivery)
        } else if text == "delivered"@ {
            Some(OrderStatus::Delivered)
        } else {
            None
        }
    }

    pub fn to_label(&self) -> (text: String)
        ensures
            text@ == self.label(),
    {
        match self {
            OrderStatus::OrderReceived => "order_received".to_owned(),
            OrderStatus::InProduction => "in_production".to_owned(),
            OrderStatus::ReadyForDelivery => "ready_for_delivery".to_owned(),
            OrderStatus::Delivered => "delivered".to_owned(),
        }
    }

    pub fn from_label(text: &String) -> (found: Option<OrderStatus>)
        ensures
            found == OrderStatus::named(text@),
    {
        if *text == "order_received".to_owned() {
            Some(OrderStatus::OrderReceived)
        } else if *text == "in_production".to_owned() {
            Some(OrderStatus::InProduction)
        } else if *text == "ready_for_delivery".to_owned() {
            Some(OrderStatus::ReadyForDelivery)
        } else if *text == "delivered".to_owned() {
            Some(OrderStatus::Delivered)
        } else {
            None
        }
    }

    /// Each variant is the one that its own label stands for.
    pub proof fn lemma_label_names_variant(self)
        ensures
            OrderStatus::named(self.label()) == Some(self),
    {
        reveal_strlit("order_received");
        reveal_strlit("in_production");
        reveal_strlit("ready_for_delivery");
        reveal_strlit("delivered");
        assert("order_received"@.len() == 14);
        assert("in_production"@.len() == 13);
        assert("ready_for_delivery"@.len() == 18);
        assert("delivered"@.len() == 9);
    }

    /// A text stands for a variant only if it is that variant's label.
    pub proof fn lemma_named_has_label(text: Seq<char>)
        ensures
            OrderStatus::named(text) matches Some(v) ==> v.label() == text,
    {
    }
}

impl Default for OrderStatus {
    fn default() -> (r: OrderStatus)
        ensures
            r == OrderStatus::OrderReceived,
    {
        OrderStatus::OrderReceived
    }
}


} // verus!
