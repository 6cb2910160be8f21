//! One repository per kind of record: finding, storing, changing and
//! deleting records of the store.

pub mod client_repository;
pub mod clothes_repository;
pub mod impression_repository;
pub mod order_repository;
pub mod user_repository;

pub use client_repository::ClientRepository;
pub use clothes_repository::{ClothesRepository, ClothingServiceRepository};
pub use impression_repository::ImpressionRepository;
pub use order_repository::OrderRepository;
pub use user_repository::UserRepository;
