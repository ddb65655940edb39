//! Where the validator key is loaded from, as chosen by the node's
//! environment variables.

use crate::identity::opt_string_view;
use vstd::prelude::*;

verus! {

/// The environment variables that choose the validator key source. Each is
/// `None` when the variable is unset.
pub struct KeyEnvironment {
    /// `VALIDATOR_ID`
    pub validator_id: Option<String>,
    /// `DYTALLIX_VAULT_URL`
    pub dytallix_vault_url: Option<String>,
    /// `VAULT_URL`
    pub vault_url: Option<String>,
    /// `DYTALLIX_VAULT_TOKEN`
    pub dytallix_vault_token: Option<String>,
    /// `VAULT_TOKEN`
    pub vault_token: Option<String>,
    /// `DYTALLIX_VAULT_KV_MOUNT`
    pub vault_kv_mount: Option<String>,
    /// `DYTALLIX_VAULT_PATH_BASE`
    pub vault_path_base: Option<String>,
    /// `DYT_KEYSTORE_DIR`
    pub keystore_dir: Option<String>,
    /// `HOME`
    pub home: Option<String>,
}

/// A source of validator key material.
pub enum KeySource {
    /// A Vault KV store at `url`, authenticated by `token`, reading under
    /// `mount` and `base`.
    Vault { url: String, token: String, mount: String, base: String },
    /// A sealed keystore in the directory `dir`.
    SealedKeystore { dir: String },
}

/// The first of two optional values that is set.
pub open spec fn first_set<T>(preferred: Option<T>, fallback: Option<T>) -> Option<T> {
    if preferred is Some {
        preferred
    } else {
        fallback
    }
}

/// An optional value, or `default` when unset.
pub open spec fn or_default<T>(v: Option<T>, default: T) -> T {
    match v {
        Some(x) => x,
        None => default,
    }
}

/// The Vault URL: `DYTALLIX_VAULT_URL`, else `VAULT_URL`.
pub open spec fn chosen_vault_url(env: &KeyEnvironment) -> Option<Seq<char>> {
    first_set(opt_string_view(env.dytallix_vault_url), opt_string_view(env.vault_url))
}

/// The Vault token: `DYTALLIX_VAULT_TOKEN`, else `VAULT_TOKEN`.
pub open spec fn chosen_vault_token(env: &KeyEnvironment) -> Option<Seq<char>> {
    first_set(opt_string_view(env.dytallix_vault_token), opt_string_view(env.vault_token))
}

/// The sealed keystore directory: `DYT_KEYSTORE_DIR`, else
/// `<HOME>/.dytallix/keystore` with `.` for an unset `HOME`.
pub open spec fn chosen_keystore_dir(env: &KeyEnvironment) -> Seq<char> {
    match opt_string_view(env.keystore_dir) {
        Some(d) => d,
        None => or_default(opt_string_view(env.home), "."@) + "/.dytallix/keystore"@,
    }
}

/// A copy of an optional string.
fn copy_opt(s: &Option<String>) -> (r: Option<String>)
    ensures
        opt_string_view(r) == opt_string_view(*s),
{
    match s {
        Some(v) => Some(v.clone()),
        None => None,
    }
}

/// An optional string, or `default` when unset.
fn string_or(s: &Option<String>, default: &str) -> (r: String)
    ensures
        r@ == or_default(opt_string_view(*s), default@),
{
    match s {
        Some(v) => v.clone(),
        None => String::from_str(default),
    }
}

/// The first of two optional strings that is set.
fn first_set_string(preferred: &Option<String>, fallback: &Option<String>) -> (r: Option<String>)
    ensures
        opt_string_view(r) == first_set(opt_string_view(*preferred), opt_string_view(*fallback)),
{
    if preferred.is_some() {
        copy_opt(preferred)
    } else {
        copy_opt(fallback)
    }
}

/// The Vault URL and token prefer the `DYTALLIX_` variables and fall back
/// to the generic ones; the keystore directory is `DYT_KEYSTORE_DIR`, else
/// under `HOME`, else under `.`.
pub proof fn lemma_key_source_choice(env: KeyEnvironment)
    ensures
        env.dytallix_vault_url matches Some(u) ==> chosen_vault_url(&env) == Some(u@),
        env.dytallix_vault_url is None ==> chosen_vault_url(&env) == opt_string_view(env.vault_url),
        env.dytallix_vault_token matches Some(t) ==> chosen_vault_token(&env) == Some(t@),
        env.dytallix_vault_token is None ==> chosen_vault_token(&env) == opt_string_view(
            env.vault_token,
        ),
        env.keystore_dir matches Some(d) ==> chosen_keystore_dir(&env) == d@,
        env.keystore_dir is None ==> (env.home matches Some(hm) ==> chosen_keystore_dir(&env)
            == hm@ + "/.dytallix/keystore"@),
        env.keystore_dir is None && env.home is None ==> chosen_keystore_dir(&env) == "."@
            + "/.dytallix/keystore"@,
{
}

impl KeyEnvironment {
    /// The validator id: `VALIDATOR_ID`, else "default".
    pub fn validator_id(&self) -> (r: String)
        ensures
            r@ == or_default(opt_string_view(self.validator_id), "default"@),
    {
        string_or(&self.validator_id, "default")
    }

    /// The key source: Vault when both a Vault URL and a Vault token are set
    /// (with mount `DYTALLIX_VAULT_KV_MOUNT`, else "secret", and base
    /// `DYTALLIX_VAULT_PATH_BASE`, else "dytallix/validators"); otherwise the
    /// sealed keystore.
    pub fn key_source(&self) -> (r: KeySource)
        ensures
            r is Vault <==> (self.dytallix_vault_url is Some || self.vault_url is Some) && (
            self.dytallix_vault_token is Some || self.vault_token is Some),
            match r {
                KeySource::Vault { url, token, mount, base } => {
                    &&& (self.dytallix_vault_url matches Some(u) ==> url@ == u@)
                    &&& (self.dytallix_vault_url is None ==> (self.vault_url matches Some(u)
                        && url@ == u@))
                    &&& (self.dytallix_vault_token matches Some(t) ==> token@ == t@)
                    &&& (self.dytallix_vault_token is None ==> (self.vault_token matches Some(t)
                        && token@ == t@))
                    &&& (self.vault_kv_mount matches Some(m) ==> mount@ == m@)
                    &&& (self.vault_kv_mount is None ==> mount@ == "secret"@)
                    &&& (self.vault_path_base matches Some(b) ==> base@ == b@)
                    &&& (self.vault_path_base is None ==> base@ == "dytallix/validators"@)
                },
                KeySource::SealedKeystore { dir } => {
                    &&& (self.keystore_dir matches Some(d) ==> dir@ == d@)
                    &&& (self.keystore_dir is None ==> (self.home matches Some(hm) ==> dir@
                        == hm@ + "/.dytallix/keystore"@))
                    &&& (self.keystore_dir is None && self.home is None ==> dir@ == "."@
                        + "/.dytallix/keystore"@)
                },
            },
            match r {
                KeySource::Vault { url, token, mount, base } => {
                    &&& chosen_vault_url(self) == Some(url@)
                    &&& chosen_vault_token(self) == Some(token@)
                    &&& mount@ == or_default(opt_string_view(self.vault_kv_mount), "secret"@)
                    &&& base@ == or_default(
                        opt_string_view(self.vault_path_base),
                        "dytallix/validators"@,
                    )
                },
                KeySource::SealedKeystore { dir } => {
                    &&& !(chosen_vault_url(self) is Some && chosen_vault_token(self) is Some)
                    &&& dir@ == chosen_keystore_dir(self)
                },
            },
    {
        let url = first_set_string(&self.dytallix_vault_url, &self.vault_url);
        let token = first_set_string(&self.dytallix_vault_token, &self.vault_token);
        match (url, token) {
            (Some(url), Some(token)) => KeySource::Vault {
                url,
                token,
                mount: string_or(&self.vault_kv_mount, "secret"),
                base: string_or(&self.vault_path_base, "dytallix/validators"),
            },
            _ => {
                let dir = match &self.keystore_dir {
                    Some(d) => d.clone(),
                    None => {
                        let mut d = string_or(&self.home, ".");
                        d.append("/.dytallix/keystore");
                        d
                    },
                };
                KeySource::SealedKeystore { dir }
            },
        }
    }
}

} // verus!
