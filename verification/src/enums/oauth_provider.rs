//! OAuth providers a session can be created through.

use vstd::prelude::*;

verus! {

/// OAuth providers a session can be created through.
#[derive(Clone, Copy, Debug, PartialEq, Eq, Hash, Structural)]
pub enum OAuthProvider {
    Amazon,
    Apple,
    Auth0,
    Authentik,
    Autodesk,
    Bitbucket,
    Bitly,
    Box,
    Dailymotion,
    Discord,
    Disqus,
    Dropbox,
    Etsy,
    Facebook,
    Figma,
    Github,
    Gitlab,
    Google,
    Linkedin,
    Microsoft,
    Notion,
    Oidc,
    Okta,
    Paypal,
    PaypalSandbox,
    Podio,
    Salesforce,
    Slack,
    Spotify,
    Stripe,
    Tradeshift,
    TradeshiftBox,
    Twitch,
    Wordpress,
    Yahoo,
    Yammer,
    Yandex,
    Zoho,
    Zoom,
    Mock,
}

impl OAuthProvider {
    /// The canonical wire string of each variant.
    pub open spec fn spec_str(&self) -> Seq<char> {
        match *self {
            OAuthProvider::Amazon => "amazon"@,
            OAuthProvider::Apple => "apple"@,
            OAuthProvider::Auth0 => "auth0"@,
            OAuthProvider::Authentik => "authentik"@,
            OAuthProvider::Autodesk => "autodesk"@,
            OAuthProvider::Bitbucket => "bitbucket"@,
            OAuthProvider::Bitly => "bitly"@,
            OAuthProvider::Box => "box"@,
            OAuthProvider::Dailymotion => "dailymotion"@,
            OAuthProvider::Discord => "discord"@,
            OAuthProvider::Disqus => "disqus"@,
            OAuthProvider::Dropbox => "dropbox"@,
            OAuthProvider::Etsy => "etsy"@,
            OAuthProvider::Facebook => "facebook"@,
            OAuthProvider::Figma => "figma"@,
            OAuthProvider::Github => "github"@,
            OAuthProvider::Gitlab => "gitlab"@,
            OAuthProvider::Google => "google"@,
            OAuthProvider::Linkedin => "linkedin"@,
            OAuthProvider::Microsoft => "microsoft"@,
            OAuthProvider::Notion => "notion"@,
            OAuthProvider::Oidc => "oidc"@,
            OAuthProvider::Okta => "okta"@,
            OAuthProvider::Paypal => "paypal"@,
            OAuthProvider::PaypalSandbox => "paypalSandbox"@,
            OAuthProvider::Podio => "podio"@,
            OAuthProvider::Salesforce => "salesforce"@,
            OAuthProvider::Slack => "slack"@,
            OAuthProvider::Spotify => "spotify"@,
            OAuthProvider::Stripe => "stripe"@,
            OAuthProvider::Tradeshift => "tradeshift"@,
            OAuthProvider::TradeshiftBox => "tradeshiftBox"@,
            OAuthProvider::Twitch => "twitch"@,
            OAuthProvider::Wordpress => "wordpress"@,
            OAuthProvider::Yahoo => "yahoo"@,
            OAuthProvider::Yammer => "yammer"@,
            OAuthProvider::Yandex => "yandex"@,
            OAuthProvider::Zoho => "zoho"@,
            OAuthProvider::Zoom => "zoom"@,
            OAuthProvider::Mock => "mock"@,
        }
    }

    /// The canonical wire string sent to the server.
    pub fn as_ref(&self) -> (r: &'static str)
        ensures
            r@ == self.spec_str(),
    {
        match *self {
            OAuthProvider::Amazon => "amazon",
            OAuthProvider::Apple => "apple",
            OAuthProvider::Auth0 => "auth0",
            OAuthProvider::Authentik => "authentik",
            OAuthProvider::Autodesk => "autodesk",
            OAuthProvider::Bitbucket => "bitbucket",
            OAuthProvider::Bitly => "bitly",
            OAuthProvider::Box => "box",
            OAuthProvider::Dailymotion => "dailymotion",
            OAuthProvider::Discord => "discord",
            OAuthProvider::Disqus => "disqus",
            OAuthProvider::Dropbox => "dropbox",
            OAuthProvider::Etsy => "etsy",
            OAuthProvider::Facebook => "facebook",
            OAuthProvider::Figma => "figma",
            OAuthProvider::Github => "github",
            OAuthProvider::Gitlab => "gitlab",
            OAuthProvider::Google => "google",
            OAuthProvider::Linkedin => "linkedin",
            OAuthProvider::Microsoft => "microsoft",
            OAuthProvider::Notion => "notion",
            OAuthProvider::Oidc => "oidc",
            OAuthProvider::Okta => "okta",
            OAuthProvider::Paypal => "paypal",
            OAuthProvider::PaypalSandbox => "paypalSandbox",
            OAuthProvider::Podio => "podio",
            OAuthProvider::Salesforce => "salesforce",
            OAuthProvider::Slack => "slack",
            OAuthProvider::Spotify => "spotify",
            OAuthProvider::Stripe => "stripe",
            OAuthProvider::Tradeshift => "tradeshift",
            OAuthProvider::TradeshiftBox => "tradeshiftBox",
            OAuthProvider::Twitch => "twitch",
            OAuthProvider::Wordpress => "wordpress",
            OAuthProvider::Yahoo => "yahoo",
            OAuthProvider::Yammer => "yammer",
            OAuthProvider::Yandex => "yandex",
            OAuthProvider::Zoho => "zoho",
            OAuthProvider::Zoom => "zoom",
            OAuthProvider::Mock => "mock",
        }
    }
}

} // verus!
