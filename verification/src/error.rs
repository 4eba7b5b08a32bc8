use vstd::prelude::*;
use vstd::string::StringExecFns;

verus! {

/// Why an operation on the vault stopped. None of these is retried.
#[derive(Debug, Clone, Copy, PartialEq, Eq, Structural)]
pub enum VaultError {
    /// The integrity tag did not verify: a wrong password, or a record that
    /// was cut, corrupted or tampered with.
    AuthenticationFailure,
    /// The bytes are not an encoding of a vault, or the vault is larger than
    /// a record can hold.
    FormatError,
    /// The salt or the vault file could not be read or written.
    IoFailure,
    /// The salt or the password has a length that key derivation refuses.
    ConfigurationError,
}

impl VaultError {
    /// The text shown to the user for each kind of failure.
    pub open spec fn message_text(self) -> Seq<char> {
        match self {
            VaultError::AuthenticationFailure => "wrong password or corrupted vault"@,
            VaultError::FormatError => "vault contents are not a valid vault encoding"@,
            VaultError::IoFailure => "salt or vault file could not be read or written"@,
            VaultError::ConfigurationError => "salt is malformed: key derivation refused it"@,
        }
    }

    pub fn message(&self) -> (text: String)
        ensures
            text@ == self.message_text(),
    {
        match self {
            VaultError::AuthenticationFailure => String::from_str(
                "wrong password or corrupted vault",
            ),
            VaultError::FormatError => String::from_str(
                "vault contents are not a valid vault encoding",
            ),
            VaultError::IoFailure => String::from_str(
                "salt or vault file could not be read or written",
            ),
            VaultError::ConfigurationError => String::from_str(
                "salt is malformed: key derivation refused it",
            ),
        }
    }
}

} // verus!
