//! Closed string sets of the API: each enum maps totally onto its
//! canonical wire string.

pub mod authentication_factor;
pub mod authenticator_type;
pub mod browser;
pub mod compression;
pub mod credit_card;
pub mod flag;
pub mod image_format;
pub mod image_gravity;
pub mod index_type;
pub mod oauth_provider;
pub mod relationship_type;
pub mod runtime;

pub use authentication_factor::AuthenticationFactor;
pub use authenticator_type::AuthenticatorType;
pub use browser::Browser;
pub use compression::Compression;
pub use credit_card::CreditCard;
pub use flag::Flag;
pub use image_format::ImageFormat;
pub use image_gravity::ImageGravity;
pub use index_type::IndexType;
pub use oauth_provider::OAuthProvider;
pub use relationship_type::RelationshipType;
pub use runtime::Runtime;
