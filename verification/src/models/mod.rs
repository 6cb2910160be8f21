//! The records that the store keeps.

pub mod client;
pub mod clothes;
pub mod impression;
pub mod order;
pub mod sizes;
pub mod text;
pub mod user;

pub use client::{Client, ClientView};
pub use clothes::{
    Clothes, ClothesView, ClothingService, ClothingServiceView, ClothingSize, ClothingType,
    ServiceLocation, ServiceType, SizesMap,
};
pub use impression::{Impression, ImpressionView};
pub use order::{Order, OrderStatus, OrderView};
pub use user::{User, UserView};
