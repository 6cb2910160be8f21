//! What the shop does with its records.

pub mod client_service;
pub mod clothes_service;
pub mod impression_service;
pub mod order_service;
pub mod user_service;

pub use client_service::ClientService;
pub use clothes_service::ClothesService;
pub use impression_service::ImpressionService;
pub use order_service::OrderService;
pub use user_service::UserService;
