//! What callers hand to the services and get back from them.

pub mod client_dto;
pub mod clothes_dto;
pub mod impression_dto;
pub mod order_dto;
pub mod user_dto;

pub use client_dto::{ClientResponseDto, CreateClientDto, UpdateClientDto};
pub use clothes_dto::{
    ClothesDto, ClothingServiceDto, CreateClothesDto, CreateClothingServiceDto, UpdateClothesDto,
    UpdateClothingServiceDto,
};
pub use impression_dto::{CreateImpressionDto, ImpressionDto, UpdateImpressionDto};
pub use order_dto::{CreateOrderDto, OrderResponseDto, UpdateOrderDto};
pub use user_dto::{CreateUserDto, LoginDto, LoginResponseDto};
