pub mod crypt;
pub mod image;
