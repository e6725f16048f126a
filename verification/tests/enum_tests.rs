//! Wire strings of the closed enumerations.

use appwrite::{
    AuthenticationFactor, AuthenticatorType, Browser, Compression, CreditCard, Flag, ImageFormat,
    ImageGravity, IndexType, OAuthProvider, RelationshipType, Runtime,
};

#[test]
fn test_oauth_providers() {
    assert_eq!(OAuthProvider::Google.as_ref(), "google");
    assert_eq!(OAuthProvider::Github.as_ref(), "github");
    assert_eq!(OAuthProvider::Apple.as_ref(), "apple");
}

#[test]
fn enums_map_to_their_wire_strings() {
    assert_eq!(AuthenticationFactor::Totp.as_ref(), "totp");
    assert_eq!(AuthenticatorType::Totp.as_ref(), "totp");
    assert_eq!(Browser::Ff.as_ref(), "ff");
    assert_eq!(Compression::Gzip.as_ref(), "gzip");
    assert_eq!(Compression::Uncompressed.as_ref(), "none");
    assert_eq!(CreditCard::Visa.as_ref(), "visa");
    assert_eq!(Flag::Us.as_ref(), "us");
    assert_eq!(ImageFormat::Png.as_ref(), "png");
    assert_eq!(ImageGravity::Center.as_ref(), "center");
    assert_eq!(IndexType::Unique.as_ref(), "unique");
    assert_eq!(RelationshipType::OneToMany.as_ref(), "oneToMany");
    assert_eq!(Runtime::Node20_0.as_ref(), "node-20.0");
}
