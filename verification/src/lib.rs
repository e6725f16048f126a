//! Client library for a backend-as-a-service HTTP API: request construction,
//! response normalization, query expression building, permission strings and
//! chunked file input, with machine-checked contracts on the core logic.

pub mod client;
pub mod enums;
pub mod error;
pub mod input_file;
pub mod json;
pub mod permission;
pub mod query;
pub mod roundtrip;
mod text;

pub use client::Client;
pub use error::AppwriteError;
pub use input_file::InputFile;
pub use input_file::InputFileSource;
pub use json::JsonValue;
pub use permission::Permission;
pub use permission::Role;
pub use query::Query;

pub use enums::{
    AuthenticationFactor, AuthenticatorType, Browser, Compression, CreditCard, Flag, ImageFormat,
    ImageGravity, IndexType, OAuthProvider, RelationshipType, Runtime,
};
