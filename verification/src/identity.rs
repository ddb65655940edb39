//! Validator identity: public key, address and signing algorithm derived from
//! the validator's secret key.

use base64::Engine;
use fips204::ml_dsa_65;
use fips204::ml_dsa_87;
use fips204::traits::{SerDes, Signer};
use zeroize::Zeroizing;
use vstd::prelude::*;

verus! {

/// Length in bytes of an ML-DSA-65 secret key.
pub const MLDSA65_SECRET_KEY_LEN: usize = 4032;

/// Length in bytes of an ML-DSA-65 public key.
pub const MLDSA65_PUBLIC_KEY_LEN: usize = 1952;

/// Length in bytes of an ML-DSA-87 secret key.
pub const MLDSA87_SECRET_KEY_LEN: usize = 4896;

/// Length in bytes of an ML-DSA-87 public key.
pub const MLDSA87_PUBLIC_KEY_LEN: usize = 2592;

/// The encoded ML-DSA-65 public key belonging to an encoded secret key, or
/// `None` where fips204 rejects the secret key.
pub uninterp spec fn mldsa65_public_key(secret_key: Seq<u8>) -> Option<Seq<u8>>;

/// The encoded ML-DSA-87 public key belonging to an encoded secret key, or
/// `None` where fips204 rejects the secret key.
pub uninterp spec fn mldsa87_public_key(secret_key: Seq<u8>) -> Option<Seq<u8>>;

/// Whether fips204 can derive the ML-DSA-65 public key of `secret_key`
/// without failing a check: true of every key that `try_from_bytes` rejects,
/// and of a decoded key exactly when the t0 part it stores equals the t0 that
/// `get_public_key` recomputes from its rho, s1 and s2 (a `debug_assert_eq!`
/// in fips204, so a panic wherever debug assertions are on).
pub uninterp spec fn mldsa65_key_consistent(secret_key: Seq<u8>) -> bool;

/// Whether fips204 can derive the ML-DSA-87 public key of `secret_key`
/// without failing a check, as for ML-DSA-65.
pub uninterp spec fn mldsa87_key_consistent(secret_key: Seq<u8>) -> bool;

/// The character of the standard base64 alphabet for the 6-bit value `v`:
/// `A`-`Z`, `a`-`z`, `0`-`9`, `+`, `/`.
pub open spec fn base64_char(v: int) -> char {
    if v < 26 {
        (65 + v) as char
    } else if v < 52 {
        (97 + (v - 26)) as char
    } else if v < 62 {
        (48 + (v - 52)) as char
    } else if v == 62 {
        '+'
    } else {
        '/'
    }
}

/// The standard base64 encoding of `bytes`: every group of three bytes gives
/// four characters of six bits each, and a final group of one or two bytes
/// is filled with zero bits and padded with `=` to four characters.
pub open spec fn base64_standard(bytes: Seq<u8>) -> Seq<char>
    decreases bytes.len(),
{
    if bytes.len() == 0 {
        seq![]
    } else if bytes.len() == 1 {
        let b0 = bytes[0] as int;
        seq![base64_char(b0 / 4), base64_char((b0 % 4) * 16), '=', '=']
    } else if bytes.len() == 2 {
        let b0 = bytes[0] as int;
        let b1 = bytes[1] as int;
        seq![
            base64_char(b0 / 4),
            base64_char((b0 % 4) * 16 + b1 / 16),
            base64_char((b1 % 16) * 4),
            '=',
        ]
    } else {
        let b0 = bytes[0] as int;
        let b1 = bytes[1] as int;
        let b2 = bytes[2] as int;
        seq![
            base64_char(b0 / 4),
            base64_char((b0 % 4) * 16 + b1 / 16),
            base64_char((b1 % 16) * 4 + b2 / 64),
            base64_char(b2 % 64),
        ] + base64_standard(bytes.subrange(3, bytes.len() as int))
    }
}

/// What base64's `STANDARD.decode` returns for `text`: `None` where it is
/// not valid standard base64.
pub uninterp spec fn base64_standard_decoding(text: Seq<char>) -> Option<Seq<u8>>;

/// Calls fips204's `ml_dsa_65::PrivateKey::try_from_bytes` on the secret key,
/// then `get_public_key` and `into_bytes`. The contract claims that the result
/// is the named public key, that it has the fixed public key length, and that
/// a secret key of the wrong length gives none (the conversion to the
/// fixed-size array fails). The `requires` leaves out the keys on which
/// `get_public_key` fails its consistency check.
#[verifier::external_body]
fn mldsa65_public_key_of(secret_key: &[u8]) -> (r: Option<Vec<u8>>)
    requires
        mldsa65_key_consistent(secret_key@),
    ensures
        r is Some ==> mldsa65_key_consistent(secret_key@),
        r is Some == mldsa65_public_key(secret_key@) is Some,
        r is Some ==> r.unwrap()@ == mldsa65_public_key(secret_key@).unwrap(),
        r is Some ==> r.unwrap()@.len() == MLDSA65_PUBLIC_KEY_LEN,
        secret_key@.len() != MLDSA65_SECRET_KEY_LEN ==> r is None,
{
    let bytes = secret_key.try_into().ok()?;
    let sk = ml_dsa_65::PrivateKey::try_from_bytes(bytes).ok()?;
    Some(sk.get_public_key().into_bytes().to_vec())
}

/// Calls fips204's `ml_dsa_87::PrivateKey::try_from_bytes` on the secret key,
/// then `get_public_key` and `into_bytes`. The contract claims that the result
/// is the named public key, that it has the fixed public key length, and that
/// a secret key of the wrong length gives none. The `requires` leaves out the
/// keys on which `get_public_key` fails its consistency check.
#[verifier::external_body]
fn mldsa87_public_key_of(secret_key: &[u8]) -> (r: Option<Vec<u8>>)
    requires
        mldsa87_key_consistent(secret_key@),
    ensures
        r is Some ==> mldsa87_key_consistent(secret_key@),
        r is Some == mldsa87_public_key(secret_key@) is Some,
        r is Some ==> r.unwrap()@ == mldsa87_public_key(secret_key@).unwrap(),
        r is Some ==> r.unwrap()@.len() == MLDSA87_PUBLIC_KEY_LEN,
        secret_key@.len() != MLDSA87_SECRET_KEY_LEN ==> r is None,
{
    let bytes = secret_key.try_into().ok()?;
    let sk = ml_dsa_87::PrivateKey::try_from_bytes(bytes).ok()?;
    Some(sk.get_public_key().into_bytes().to_vec())
}

/// Calls base64's `STANDARD.encode`. The contract claims the encoding above,
/// its length, four characters for every started group of three bytes, and
/// that `STANDARD.decode` gives the bytes back;
/// the `requires` leaves out inputs whose encoded length overflows `usize`,
/// on which `encode` panics.
#[verifier::external_body]
fn encode_base64(bytes: &[u8]) -> (r: String)
    requires
        (bytes@.len() / 3) * 4 <= usize::MAX,
        bytes@.len() % 3 != 0 ==> (bytes@.len() / 3) * 4 + 4 <= usize::MAX,
    ensures
        r@ == base64_standard(bytes@),
        r@.len() == 4 * ((bytes@.len() + 2) / 3),
        base64_standard_decoding(r@) == Some(bytes@),
{
    base64::engine::general_purpose::STANDARD.encode(bytes)
}

/// The identity derived from a secret key: the public key and the name of the
/// signature scheme, ML-DSA-65 ("mldsa65") or ML-DSA-87 ("dilithium5"), chosen
/// by the key's length. `None` where the length fits neither scheme or the
/// scheme rejects the key.
pub open spec fn derived_identity(secret_key: Seq<u8>) -> Option<(Seq<u8>, Seq<char>)> {
    if secret_key.len() == MLDSA65_SECRET_KEY_LEN && mldsa65_public_key(secret_key) is Some {
        Some((mldsa65_public_key(secret_key).unwrap(), "mldsa65"@))
    } else if secret_key.len() == MLDSA87_SECRET_KEY_LEN && mldsa87_public_key(secret_key) is Some {
        Some((mldsa87_public_key(secret_key).unwrap(), "dilithium5"@))
    } else {
        None
    }
}

/// Whether fips204 can derive an identity from `secret_key` without failing
/// a check, for whichever scheme its length selects.
pub open spec fn secret_key_consistent(secret_key: Seq<u8>) -> bool {
    &&& secret_key.len() == MLDSA65_SECRET_KEY_LEN ==> mldsa65_key_consistent(secret_key)
    &&& secret_key.len() == MLDSA87_SECRET_KEY_LEN ==> mldsa87_key_consistent(secret_key)
}

/// Derives the public key, address and algorithm name of a validator secret
/// key. The address is what `canonical_address` gives for the public key.
pub fn derive_identity<F: Fn(&Vec<u8>) -> String>(secret_key: &[u8], canonical_address: F) -> (r: Option<(Vec<u8>, String, &'static str)>)
    requires
        secret_key_consistent(secret_key@),
        forall|pk: &Vec<u8>| #[trigger] canonical_address.requires((pk,)),
    ensures
        r is Some == derived_identity(secret_key@) is Some,
        r is Some ==> r.unwrap().0@ == derived_identity(secret_key@).unwrap().0,
        r is Some ==> canonical_address.ensures((&r.unwrap().0,), r.unwrap().1),
        r is Some ==> r.unwrap().2@ == derived_identity(secret_key@).unwrap().1,
        r is Some ==> {
            ||| secret_key@.len() == MLDSA65_SECRET_KEY_LEN && r.unwrap().2@ == "mldsa65"@
                && r.unwrap().0@.len() == MLDSA65_PUBLIC_KEY_LEN
            ||| secret_key@.len() == MLDSA87_SECRET_KEY_LEN && r.unwrap().2@ == "dilithium5"@
                && r.unwrap().0@.len() == MLDSA87_PUBLIC_KEY_LEN
        },
{
    if secret_key.len() == MLDSA65_SECRET_KEY_LEN {
        if let Some(pk) = mldsa65_public_key_of(secret_key) {
            let address = canonical_address(&pk);
            return Some((pk, address, "mldsa65"));
        }
    }
    if secret_key.len() == MLDSA87_SECRET_KEY_LEN {
        if let Some(pk) = mldsa87_public_key_of(secret_key) {
            let address = canonical_address(&pk);
            return Some((pk, address, "dilithium5"));
        }
    }
    None
}

/// The value a set-once cell holds after an attempt to set it to `v`: the
/// first value set stays.
pub open spec fn set_once<T>(cell: Option<T>, v: Option<T>) -> Option<T> {
    if cell is Some {
        cell
    } else {
        v
    }
}

/// Secret key bytes held in a `zeroize::Zeroizing` buffer, which overwrites
/// them with zeros when dropped. (Verus cannot declare `Zeroizing` itself:
/// its `Zeroize` bound is an outside trait.)
#[verifier::external_body]
pub struct SecretKeyBytes {
    bytes: Zeroizing<Vec<u8>>,
}

/// The bytes a `SecretKeyBytes` holds until it is dropped.
pub uninterp spec fn zeroizing_bytes(key: SecretKeyBytes) -> Seq<u8>;

/// Calls `zeroize::Zeroizing::new` on the bytes. The contract claims that the
/// buffer holds the same bytes.
#[verifier::external_body]
fn zeroizing_new(bytes: Vec<u8>) -> (r: SecretKeyBytes)
    ensures
        zeroizing_bytes(r) == bytes@,
{
    SecretKeyBytes { bytes: Zeroizing::new(bytes) }
}

/// Dereferences the `zeroize::Zeroizing` buffer to its bytes. The contract
/// claims they are the bytes it holds.
#[verifier::external_body]
fn zeroizing_as_slice(key: &SecretKeyBytes) -> (r: &[u8])
    ensures
        r@ == zeroizing_bytes(*key),
{
    key.bytes.as_slice()
}

/// The abstract identity: public key, address, algorithm name and secret key
/// bytes, each unset until first recorded.
pub type IdentityView = (Option<Seq<u8>>, Option<Seq<char>>, Option<Seq<char>>, Option<Seq<u8>>);

/// The identity recorded for the validator once its secret key is loaded.
/// Each part is set at most once: later loads leave what was recorded.
pub struct ValidatorIdentity {
    public_key: Option<Vec<u8>>,
    address: Option<String>,
    algorithm: Option<String>,
    secret_key: Option<SecretKeyBytes>,
}

/// The view of an optional string.
pub open spec fn opt_string_view(s: Option<String>) -> Option<Seq<char>> {
    match s {
        Some(v) => Some(v@),
        None => None,
    }
}

/// The view of an optional byte vector.
pub open spec fn opt_bytes_view(b: Option<Vec<u8>>) -> Option<Seq<u8>> {
    match b {
        Some(v) => Some(v@),
        None => None,
    }
}

/// The view of an optional zeroizing byte vector.
pub open spec fn opt_zeroizing_view(b: Option<SecretKeyBytes>) -> Option<Seq<u8>> {
    match b {
        Some(v) => Some(zeroizing_bytes(v)),
        None => None,
    }
}

impl View for ValidatorIdentity {
    type V = IdentityView;

    closed spec fn view(&self) -> IdentityView {
        (
            opt_bytes_view(self.public_key),
            opt_string_view(self.address),
            opt_string_view(self.algorithm),
            opt_zeroizing_view(self.secret_key),
        )
    }
}

/// The algorithm names an identity can record.
pub open spec fn known_algorithm(name: Seq<char>) -> bool {
    name == "mldsa65"@ || name == "dilithium5"@ || name == "configured-address"@
}

/// What holds of every recorded identity: an address is recorded exactly
/// when an algorithm is, and the algorithm is one of the known names.
pub open spec fn identity_well_formed(v: IdentityView) -> bool {
    &&& (v.1 is Some <==> v.2 is Some)
    &&& v.2 matches Some(a) ==> known_algorithm(a)
}

/// Whether `address` is a result of `canonical_address` on a public key whose
/// bytes are `public_key`.
pub open spec fn is_canonical_address<F: Fn(&Vec<u8>) -> String>(
    canonical_address: F,
    public_key: Seq<u8>,
    address: Seq<char>,
) -> bool {
    exists|pk: Vec<u8>, a: String|
        pk@ == public_key && a@ == address && #[trigger] canonical_address.ensures((&pk,), a)
}

/// The identity after loading `secret_key`: where it derives an identity, the
/// public key, the derived address and the algorithm are recorded; otherwise,
/// where an address is configured, that address is recorded with the
/// algorithm "configured-address". The key bytes are recorded in every case.
/// Parts already recorded stay.
pub open spec fn identity_after_load(
    before: IdentityView,
    secret_key: Seq<u8>,
    configured_address: Option<Seq<char>>,
    derived_address: Seq<char>,
) -> IdentityView {
    let key = set_once(before.3, Some(secret_key));
    match derived_identity(secret_key) {
        Some(d) => (
            set_once(before.0, Some(d.0)),
            set_once(before.1, Some(derived_address)),
            set_once(before.2, Some(d.1)),
            key,
        ),
        None => match configured_address {
            Some(a) => (
                before.0,
                set_once(before.1, Some(a)),
                set_once(before.2, Some("configured-address"@)),
                key,
            ),
            None => (before.0, before.1, before.2, key),
        },
    }
}

/// Loading a key never replaces a part of the identity that is already
/// recorded: the first recorded public key, address, algorithm and key bytes
/// stay.
pub proof fn lemma_recorded_identity_stays(
    before: IdentityView,
    secret_key: Seq<u8>,
    configured_address: Option<Seq<char>>,
    derived_address: Seq<char>,
)
    ensures
        before.0 is Some ==> identity_after_load(before, secret_key, configured_address, derived_address).0
            == before.0,
        before.1 is Some ==> identity_after_load(before, secret_key, configured_address, derived_address).1
            == before.1,
        before.2 is Some ==> identity_after_load(before, secret_key, configured_address, derived_address).2
            == before.2,
        before.3 is Some ==> identity_after_load(before, secret_key, configured_address, derived_address).3
            == before.3,
        before.3 is None ==> identity_after_load(before, secret_key, configured_address, derived_address).3
            == Some(secret_key),
{
}

/// Loads keep an identity well formed: in particular an address is recorded
/// exactly when an algorithm is, and the algorithm is one of the known names.
pub proof fn lemma_load_keeps_identity_well_formed(
    before: IdentityView,
    secret_key: Seq<u8>,
    configured_address: Option<Seq<char>>,
    derived_address: Seq<char>,
)
    requires
        identity_well_formed(before),
    ensures
        identity_well_formed(identity_after_load(before, secret_key, configured_address, derived_address)),
{
    reveal_strlit("mldsa65");
    reveal_strlit("dilithium5");
    reveal_strlit("configured-address");
}

impl ValidatorIdentity {
    /// Every identity is well formed, and a recorded public key is at most an
    /// ML-DSA-87 key long.
    #[verifier::type_invariant]
    closed spec fn well_formed(self) -> bool {
        &&& identity_well_formed(self@)
        &&& self.public_key matches Some(pk) ==> pk@.len() <= MLDSA87_PUBLIC_KEY_LEN
    }

    /// An identity with nothing recorded.
    pub fn new() -> (r: Self)
        ensures
            r@ == (None::<Seq<u8>>, None::<Seq<char>>, None::<Seq<char>>, None::<Seq<u8>>),
            identity_well_formed(r@),
    {
        ValidatorIdentity { public_key: None, address: None, algorithm: None, secret_key: None }
    }

    /// Records a freshly loaded validator secret key: the derived public key,
    /// address (through `canonical_address`) and algorithm, or else the
    /// configured address; and the key bytes, kept in a buffer that is zeroed
    /// when dropped. Returns the key's length.
    pub fn record_loaded_key<F: Fn(&Vec<u8>) -> String>(
        &mut self,
        secret_key: Vec<u8>,
        configured_address: Option<String>,
        canonical_address: F,
    ) -> (len: usize)
        requires
            secret_key_consistent(secret_key@),
            forall|pk: &Vec<u8>| #[trigger] canonical_address.requires((pk,)),
        ensures
            len == secret_key@.len(),
            identity_well_formed(final(self)@),
            exists|derived_address: Seq<char>|
                {
                    &&& final(self)@ == identity_after_load(
                        old(self)@,
                        secret_key@,
                        opt_string_view(configured_address),
                        derived_address,
                    )
                    &&& derived_identity(secret_key@) matches Some(d) ==> is_canonical_address(
                        canonical_address,
                        d.0,
                        derived_address,
                    )
                },
    {
        proof {
            use_type_invariant(&*self);
            reveal_strlit("mldsa65");
            reveal_strlit("dilithium5");
            reveal_strlit("configured-address");
        }
        let ghost before = self@;
        let len = secret_key.len();
        let ghost key_view = secret_key@;
        let derived = derive_identity(secret_key.as_slice(), canonical_address);
        let ghost mut address_view: Seq<char> = Seq::empty();
        let mut public_key = None;
        let mut address = None;
        let mut algorithm = None;
        match derived {
            Some((pk, addr, alg)) => {
                proof {
                    address_view = addr@;
                    assert(canonical_address.ensures((&pk,), addr));
                    assert(is_canonical_address(canonical_address, pk@, addr@));
                }
                public_key = Some(pk);
                address = Some(addr);
                algorithm = Some(alg.to_owned());
            },
            None => {
                if let Some(a) = configured_address {
                    address = Some(a);
                    algorithm = Some(String::from_str("configured-address"));
                }
            },
        }
        let mut updated = ValidatorIdentity { public_key: None, address: None, algorithm: None, secret_key: None };
        std::mem::swap(self, &mut updated);
        let ValidatorIdentity {
            public_key: old_public_key,
            address: old_address,
            algorithm: old_algorithm,
            secret_key: old_secret_key,
        } = updated;
        let new_public_key = if old_public_key.is_some() { old_public_key } else { public_key };
        let (new_address, new_algorithm) = if old_address.is_some() {
            (old_address, old_algorithm)
        } else {
            (address, algorithm)
        };
        let new_secret_key = if old_secret_key.is_some() {
            old_secret_key
        } else {
            Some(zeroizing_new(secret_key))
        };
        proof {
            assert(identity_well_formed(before));
            assert((opt_bytes_view(new_public_key), opt_string_view(new_address), opt_string_view(new_algorithm), opt_zeroizing_view(new_secret_key))
                == identity_after_load(before, key_view, opt_string_view(configured_address), address_view));
        }
        *self = ValidatorIdentity {
            public_key: new_public_key,
            address: new_address,
            algorithm: new_algorithm,
            secret_key: new_secret_key,
        };
        len
    }

    /// The recorded public key, base64-encoded.
    pub fn validator_public_key_b64(&self) -> (r: Option<String>)
        ensures
            r is Some == self@.0 is Some,
            r is Some ==> r.unwrap()@ == base64_standard(self@.0.unwrap()),
            r is Some ==> r.unwrap()@.len() == 4 * ((self@.0.unwrap().len() + 2) / 3),
            r is Some ==> base64_standard_decoding(r.unwrap()@) == self@.0,
    {
        proof {
            use_type_invariant(self);
        }
        match &self.public_key {
            Some(pk) => Some(encode_base64(pk.as_slice())),
            None => None,
        }
    }

    /// The recorded validator address. It is set exactly when the algorithm
    /// is.
    pub fn validator_address(&self) -> (r: Option<&str>)
        ensures
            r is Some == self@.1 is Some,
            r is Some ==> r.unwrap()@ == self@.1.unwrap(),
            r is Some == self@.2 is Some,
    {
        proof {
            use_type_invariant(self);
        }
        match &self.address {
            Some(a) => Some(a.as_str()),
            None => None,
        }
    }

    /// The recorded signing algorithm name: "mldsa65", "dilithium5" or
    /// "configured-address".
    pub fn validator_algorithm(&self) -> (r: Option<&str>)
        ensures
            r is Some == self@.2 is Some,
            r is Some ==> r.unwrap()@ == self@.2.unwrap(),
            r is Some ==> known_algorithm(r.unwrap()@),
            r is Some == self@.1 is Some,
    {
        proof {
            use_type_invariant(self);
        }
        match &self.algorithm {
            Some(a) => Some(a.as_str()),
            None => None,
        }
    }

    /// The recorded secret key bytes (kept in a buffer that is zeroed when
    /// the identity is dropped).
    pub fn validator_key(&self) -> (r: Option<&[u8]>)
        ensures
            r is Some == self@.3 is Some,
            r is Some ==> r.unwrap()@ == self@.3.unwrap(),
    {
        match &self.secret_key {
            Some(k) => Some(zeroizing_as_slice(k)),
            None => None,
        }
    }
}

} // verus!
