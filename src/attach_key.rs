use vstd::prelude::*;

verus! {

/// Attach an existing key of a key management service to a vault, as the
/// root key of a new identity.
#[derive(Debug)]
pub struct AttachKeyCommand {
    /// Name of the vault to attach the key to.
    pub vault: String,
    /// Identifier of the key to attach.
    pub key_id: String,
}

/// What attaching the key comes to, once the vault is known to be backed by
/// the key management service: an identity is made in `vault` whose root key
/// is `key_id`.
#[derive(Debug)]
pub struct KeyAttachment {
    pub vault: String,
    pub key_id: String,
}

/// Why a key could not be attached.
#[derive(Debug)]
pub enum AttachKeyError {
    /// The named vault does not keep its keys in the key management service.
    NotAwsVault(String),
}

impl AttachKeyError {
    /// The text shown to the user.
    pub fn message(&self) -> (r: String)
        ensures
            self matches AttachKeyError::NotAwsVault(v) && r@ == "Vault "@ + v@ + " is not an AWS KMS vault"@,
    {
        match self {
            AttachKeyError::NotAwsVault(v) => {
                let mut m = "Vault ".to_owned();
                m.append(v.as_str());
                m.append(" is not an AWS KMS vault");
                m
            },
        }
    }
}

impl AttachKeyCommand {
    /// Decides the command given whether the named vault is backed by the
    /// key management service: only such a vault can take the key.
    pub fn run(self, vault_is_aws: bool) -> (r: Result<KeyAttachment, AttachKeyError>)
        ensures
            vault_is_aws ==> (r matches Ok(a) && a.vault@ == self.vault@ && a.key_id@ == self.key_id@),
            !vault_is_aws ==> (r matches Err(AttachKeyError::NotAwsVault(v)) && v@ == self.vault@),
    {
        if vault_is_aws {
            Ok(KeyAttachment { vault: self.vault, key_id: self.key_id })
        } else {
            Err(AttachKeyError::NotAwsVault(self.vault))
        }
    }
}

} // verus!
