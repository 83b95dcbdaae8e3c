//! Secrets: a user name and a password that are kept in two files of one
//! directory.

use vstd::prelude::*;
use vstd::string::*;
use crate::paths::{join, joined_path};

verus! {

/// A user name and the password that goes with it.
pub struct Secret {
    username: String,
    password: String,
}

impl Secret {
    pub closed spec fn spec_username(&self) -> Seq<char> {
        self.username@
    }

    pub closed spec fn spec_password(&self) -> Seq<char> {
        self.password@
    }

    /// The secret that the two files of a secret hold.
    #[must_use]
    pub fn new(username: String, password: String) -> (secret: Self)
        ensures
            secret.spec_username() == username@,
            secret.spec_password() == password@,
    {
        Self { username, password }
    }

    #[must_use]
    pub fn username(&self) -> (username: &str)
        ensures
            username@ == self.spec_username(),
    {
        self.username.as_str()
    }

    #[must_use]
    pub fn password(&self) -> (password: &str)
        ensures
            password@ == self.spec_password(),
    {
        self.password.as_str()
    }
}

/// The directory below which the secrets are kept, one directory for each.
pub struct SecretProvider<'a> {
    base_path: &'a str,
}

/// The files of the secret `name` below `base_path`: first the one with the
/// user name, then the one with the password.
pub open spec fn secret_files(base_path: Seq<char>, name: Seq<char>) -> (Seq<char>, Seq<char>) {
    let directory = joined_path(joined_path(Seq::empty(), base_path), name);
    (joined_path(directory, "username"@), joined_path(directory, "password"@))
}

impl<'a> SecretProvider<'a> {
    pub closed spec fn base_path(&self) -> Seq<char> {
        self.base_path@
    }

    #[must_use]
    pub fn new(base_path: &'a str) -> (provider: Self)
        ensures
            provider.base_path() == base_path@,
    {
        Self { base_path }
    }

    /// Where the secret `name` is kept: the file that holds its user name
    /// and the file that holds its password. Reading them is left to the
    /// program.
    pub fn files(&self, name: &str) -> (files: (String, String))
        ensures
            (files.0@, files.1@) == secret_files(self.base_path(), name@),
    {
        let root = join("", self.base_path);
        proof {
            reveal_strlit("");
            assert(""@ =~= Seq::<char>::empty());
        }
        let directory = join(root.as_str(), name);
        (join(directory.as_str(), "username"), join(directory.as_str(), "password"))
    }
}

} // verus!
