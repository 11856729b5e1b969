pub mod entropy;
pub mod claims;
pub mod sd_jwt;
pub mod json;
pub mod wallet;
pub mod did;
pub mod error;
pub mod text;
pub mod encoding;
