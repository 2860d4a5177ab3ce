//! The credentials a login needs, as the configuration file holds them.

use crate::text::{trim_end, trimmed_end};
use vstd::prelude::*;

verus! {

/// The account a client logs in with.
#[derive(Clone, Debug, PartialEq, Eq)]
pub struct Auth {
    /// The OAuth token, without the `oauth:` in front of it.
    pub auth: String,
    /// The account's name.
    pub user: String,
}

/// What an [`Auth`] holds.
pub struct AuthView {
    pub auth: Seq<char>,
    pub user: Seq<char>,
}

impl View for Auth {
    type V = AuthView;

    open spec fn view(&self) -> AuthView {
        AuthView { auth: self.auth@, user: self.user@ }
    }
}

/// The configuration file: one section, `authorization`.
#[derive(Clone, Debug, PartialEq, Eq)]
pub struct Config {
    pub authorization: Auth,
}

/// What a [`Config`] holds.
pub struct ConfigView {
    pub authorization: AuthView,
}

impl View for Config {
    type V = ConfigView;

    open spec fn view(&self) -> ConfigView {
        ConfigView { authorization: self.authorization@ }
    }
}

/// The text of the configuration file that holds the two entries, each as
/// it was typed, without the white space at its end: the section
/// `authorization` with the keys `auth` and `user`.
pub open spec fn config_text(auth_entry: Seq<char>, user_entry: Seq<char>) -> Seq<char> {
    "[authorization]\nauth = \""@ + trimmed_end(auth_entry) + "\"\nuser = \""@ + trimmed_end(
        user_entry,
    ) + "\"\n"@
}

impl Config {
    /// The text to write to the configuration file for the token and the
    /// name that were entered.
    pub fn write(auth_entry: &str, user_entry: &str) -> (content: String)
        ensures
            content@ == config_text(auth_entry@, user_entry@),
    {
        let mut content = String::from_str("[authorization]\nauth = \"");
        content.append(trim_end(auth_entry).as_str());
        content.append("\"\nuser = \"");
        content.append(trim_end(user_entry).as_str());
        content.append("\"\n");
        content
    }
}

} // verus!
