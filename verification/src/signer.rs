//! Resolution of the signing key for a transaction from mutually exclusive
//! credential inputs: a named account out of a registry, a raw BIP39
//! mnemonic, or a base64-encoded raw private key. The three sources form a
//! strict priority chain — account, then mnemonic, then private key — and
//! the first populated field decides the branch taken.

use vstd::prelude::*;

verus! {

// ---------------------------------------------------------------------------
// What is assumed of the outside cryptographic and encoding crates.
// ---------------------------------------------------------------------------
/// Whether a phrase is a valid English BIP39 mnemonic. Named, not written
/// out: the wordlist and checksum rules fill pages, but the answer depends on
/// the phrase alone.
pub uninterp spec fn mnemonic_wf(phrase: Seq<char>) -> bool;

/// The 64-byte BIP39 seed a mnemonic phrase encodes, under an empty
/// passphrase. A function of the phrase alone.
pub uninterp spec fn seed_of(phrase: Seq<char>) -> Seq<u8>;

/// Whether a string is well-formed BIP32 derivation path notation.
pub uninterp spec fn path_wf(path: Seq<char>) -> bool;

/// The private key bytes that BIP32 derivation yields from a seed at a path,
/// or `None` where a child key cannot be derived. A function of seed and
/// path alone.
pub uninterp spec fn derived_key_of(seed: Seq<u8>, path: Seq<char>) -> Option<Seq<u8>>;

/// The bytes a standard base64 string decodes to, or `None` where the string
/// is not valid base64.
pub uninterp spec fn b64_decode_of(encoded: Seq<char>) -> Option<Seq<u8>>;

/// The value of a byte string read as a big-endian integer.
pub open spec fn be_bytes_val(bytes: Seq<u8>) -> int
    decreases bytes.len(),
{
    if bytes.len() == 0 {
        0
    } else {
        256 * be_bytes_val(bytes.drop_last()) + bytes.last()
    }
}

/// The order of the secp256k1 scalar group,
/// `0xFFFFFFFFFFFFFFFFFFFFFFFFFFFFFFFEBAAEDCE6AF48A03BBFD25E8CD0364141`,
/// assembled from its upper and lower 128-bit halves.
pub open spec fn secp256k1_order() -> int {
    (0xFFFFFFFFFFFFFFFFFFFFFFFFFFFFFFFE * 0x10000000000000000 * 0x10000000000000000
        + 0xBAAEDCE6AF48A03BBFD25E8CD0364141) as int
}

/// Whether the cryptographic backend accepts a byte string as a secp256k1
/// signing key: 24 to 32 bytes whose big-endian value is a non-zero scalar
/// below the group order (it reads strings shorter than 32 bytes as if
/// zero-padded on the left, which leaves the value unchanged).
pub open spec fn sk_bytes_wf(bytes: Seq<u8>) -> bool {
    &&& 24 <= bytes.len() <= 32
    &&& 0 < be_bytes_val(bytes) < secp256k1_order()
}

#[verifier::external_type_specification]
#[verifier::external_body]
pub struct ExBip32Error(bip32::Error);

#[verifier::external_type_specification]
#[verifier::external_body]
pub struct ExBase64DecodeError(base64::DecodeError);

/// Relies on `bip32::Mnemonic::new` with the English wordlist, and on
/// `bip32::Mnemonic::to_seed` with an empty passphrase: validity of the
/// phrase and the 64-byte seed it encodes depend on the phrase alone.
#[verifier::external_body]
fn mnemonic_to_seed(phrase: &str) -> (r: Result<Vec<u8>, bip32::Error>)
    ensures
        r is Ok <==> mnemonic_wf(phrase@),
        r is Ok ==> r->Ok_0@ == seed_of(phrase@) && r->Ok_0@.len() == 64,
{
    let mnemonic = bip32::Mnemonic::new(phrase, bip32::Language::English)?;
    Ok(mnemonic.to_seed("").as_bytes().to_vec())
}

/// Relies on `bip32::DerivationPath`'s `FromStr`: whether a path string is
/// well-formed depends on the string alone.
#[verifier::external_body]
fn derivation_path_wf(path: &str) -> (r: bool)
    ensures
        r == path_wf(path@),
{
    path.parse::<bip32::DerivationPath>().is_ok()
}

/// Relies on `bip32::XPrv::derive_from_path`, with `bip32::DerivationPath`'s
/// `FromStr` to read the path: the derived extended key, and whether
/// derivation succeeds at all, depend on the seed and the path alone, and a
/// derived secp256k1 private key is 32 bytes.
#[verifier::external_body]
fn derive_key_bytes(seed: &Vec<u8>, path: &str) -> (r: Result<Vec<u8>, bip32::Error>)
    requires
        seed@.len() == 64,
        path_wf(path@),
    ensures
        r is Ok <==> derived_key_of(seed@, path@) is Some,
        r is Ok ==> Some(r->Ok_0@) == derived_key_of(seed@, path@) && r->Ok_0@.len() == 32,
{
    let parsed: bip32::DerivationPath = match path.parse() {
        Ok(p) => p,
        Err(e) => return Err(e),
    };
    let xprv = bip32::XPrv::derive_from_path(seed, &parsed)?;
    Ok(xprv.to_bytes().to_vec())
}

/// Relies on `base64::decode`: whether a string is valid standard base64,
/// and the bytes it decodes to, depend on the string alone.
#[verifier::external_body]
fn decode_base64(encoded: &str) -> (r: Result<Vec<u8>, base64::DecodeError>)
    ensures
        r is Ok <==> b64_decode_of(encoded@) is Some,
        r is Ok ==> Some(r->Ok_0@) == b64_decode_of(encoded@),
{
    base64::decode(encoded)
}

/// Relies on `cosmrs::crypto::secp256k1::SigningKey::from_slice`, which
/// accepts exactly the byte strings of 24 to 32 bytes whose big-endian value
/// is a non-zero scalar below the secp256k1 group order, reading shorter
/// strings as left-zero-padded: a function of the bytes alone.
#[verifier::external_body]
fn signing_key_bytes_ok(bytes: &Vec<u8>) -> (r: bool)
    ensures
        r == sk_bytes_wf(bytes@),
{
    cosmrs::crypto::secp256k1::SigningKey::from_slice(bytes).is_ok()
}

// ---------------------------------------------------------------------------
// Data model.
// ---------------------------------------------------------------------------
/// A secp256k1 signing key, held as its 32 raw secret bytes. The surrounding
/// tool turns it into its cryptographic library's key type when it signs.
pub struct SigningKey {
    bytes: Vec<u8>,
}

impl View for SigningKey {
    type V = Seq<u8>;

    closed spec fn view(&self) -> Seq<u8> {
        self.bytes@
    }
}

/// Why no signing key could be resolved.
#[derive(Debug, Clone, PartialEq, Eq)]
pub enum ResolveError {
    /// `signer_account` names an account the registry does not hold.
    UnknownAccount(String),
    /// The supplied phrase is not a valid BIP39 mnemonic.
    InvalidMnemonic,
    /// The configured derivation path is not BIP32 path notation.
    InvalidDerivationPath,
    /// No child key exists at the configured path for this seed.
    DerivationFailed,
    /// The supplied private key is not valid base64.
    InvalidPrivateKeyEncoding,
    /// The decoded private key bytes do not form a valid secp256k1 key.
    InvalidPrivateKeyBytes,
    /// None of the three credential fields is populated.
    NoCredentialSupplied,
}

impl ResolveError {
    /// The human-readable description of this failure.
    pub open spec fn spec_message(&self) -> Seq<char> {
        match self {
            ResolveError::UnknownAccount(name) => "signer account: `"@ + name@
                + "` is not defined"@,
            ResolveError::InvalidMnemonic => "signer mnemonic is not a valid BIP39 phrase"@,
            ResolveError::InvalidDerivationPath => "derivation path is not valid BIP32 notation"@,
            ResolveError::DerivationFailed => "no key could be derived at the derivation path"@,
            ResolveError::InvalidPrivateKeyEncoding => "signer private key is not valid base64"@,
            ResolveError::InvalidPrivateKeyBytes => "signer private key bytes are not a valid secp256k1 key"@,
            ResolveError::NoCredentialSupplied => "Unable to retrieve signer private key"@,
        }
    }

    /// Render the human-readable description of this failure.
    pub fn message(&self) -> (m: String)
        ensures
            m@ == self.spec_message(),
    {
        match self {
            ResolveError::UnknownAccount(name) => String::from_str("signer account: `").concat(
                name.as_str(),
            ).concat("` is not defined"),
            ResolveError::InvalidMnemonic => String::from_str(
                "signer mnemonic is not a valid BIP39 phrase",
            ),
            ResolveError::InvalidDerivationPath => String::from_str(
                "derivation path is not valid BIP32 notation",
            ),
            ResolveError::DerivationFailed => String::from_str(
                "no key could be derived at the derivation path",
            ),
            ResolveError::InvalidPrivateKeyEncoding => String::from_str(
                "signer private key is not valid base64",
            ),
            ResolveError::InvalidPrivateKeyBytes => String::from_str(
                "signer private key bytes are not a valid secp256k1 key",
            ),
            ResolveError::NoCredentialSupplied => String::from_str(
                "Unable to retrieve signer private key",
            ),
        }
    }
}

/// A pre-configured credential source out of the account registry.
#[derive(Debug, Clone, PartialEq, Eq)]
pub enum Account {
    FromMnemonic { mnemonic: String },
    FromPrivateKey { private_key: String },
}

/// A named collection of pre-configured credential sources, consulted
/// read-only during resolution. The first entry under a name wins.
pub struct AccountRegistry {
    entries: Vec<(String, Account)>,
}

/// The account stored under `name`: the first entry that carries it.
pub open spec fn spec_lookup(entries: Seq<(Seq<char>, Account)>, name: Seq<char>) -> Option<
    Account,
>
    decreases entries.len(),
{
    if entries.len() == 0 {
        None
    } else if entries[0].0 == name {
        Some(entries[0].1)
    } else {
        spec_lookup(entries.skip(1), name)
    }
}

impl View for AccountRegistry {
    type V = Seq<(Seq<char>, Account)>;

    closed spec fn view(&self) -> Seq<(Seq<char>, Account)> {
        Seq::new(self.entries@.len(), |i: int| (self.entries@[i].0@, self.entries@[i].1))
    }
}

/// A lookup skips past any leading entries under other names.
proof fn lemma_lookup_skip(entries: Seq<(Seq<char>, Account)>, name: Seq<char>, i: int)
    requires
        0 <= i <= entries.len(),
        forall|j: int| 0 <= j < i ==> entries[j].0 != name,
    ensures
        spec_lookup(entries, name) == spec_lookup(entries.skip(i), name),
    decreases i,
{
    if i == 0 {
        assert(entries.skip(0) =~= entries);
    } else {
        assert(entries[0].0 != name);
        assert(forall|j: int| 0 <= j < i - 1 ==> entries.skip(1)[j] == entries[j + 1]);
        lemma_lookup_skip(entries.skip(1), name, i - 1);
        assert(entries.skip(1).skip(i - 1) =~= entries.skip(i));
    }
}

impl AccountRegistry {
    /// An empty registry.
    pub fn new() -> (r: AccountRegistry)
        ensures
            r@ == Seq::<(Seq<char>, Account)>::empty(),
    {
        let r = AccountRegistry { entries: Vec::new() };
        proof {
            assert(r@ =~= Seq::<(Seq<char>, Account)>::empty());
        }
        r
    }

    /// Append an entry. A name already present keeps its earlier, winning
    /// entry.
    pub fn add(&mut self, name: String, account: Account)
        ensures
            final(self)@ == old(self)@.push((name@, account)),
    {
        self.entries.push((name, account));
        proof {
            assert(self@ =~= old(self)@.push((name@, account)));
        }
    }

    /// Look a name up: the first entry under it, or `None`.
    pub fn get<'a>(&'a self, name: &String) -> (r: Option<&'a Account>)
        ensures
            (match r {
                Some(a) => spec_lookup(self@, name@) == Some(*a),
                None => spec_lookup(self@, name@) is None,
            }),
    {
        let n: usize = self.entries.len();
        let mut i: usize = 0;
        while i < n
            invariant
                n == self.entries@.len(),
                self@.len() == n,
                i <= n,
                forall|j: int| 0 <= j < i ==> self@[j].0 != name@,
            decreases n - i,
        {
            if self.entries[i].0 == *name {
                proof {
                    lemma_lookup_skip(self@, name@, i as int);
                    assert(self@.skip(i as int)[0] == self@[i as int]);
                }
                return Some(&self.entries[i].1);
            }
            i += 1;
        }
        proof {
            lemma_lookup_skip(self@, name@, n as int);
            assert(self@.skip(n as int) =~= Seq::<(Seq<char>, Account)>::empty());
        }
        None
    }
}

// ---------------------------------------------------------------------------
// Resolution.
// ---------------------------------------------------------------------------
/// The key bytes that hierarchical deterministic derivation yields from a
/// mnemonic phrase and a derivation path: a function of the two inputs
/// alone, which is what makes derivation deterministic.
pub open spec fn hd_key_bytes(phrase: Seq<char>, path: Seq<char>) -> Option<Seq<u8>> {
    if mnemonic_wf(phrase) && path_wf(path) {
        derived_key_of(seed_of(phrase), path)
    } else {
        None
    }
}

/// What resolving a key from a mnemonic phrase returns: the derived key
/// where phrase and path are well-formed and a child key exists, and the
/// error that names the first step to fail otherwise. The phrase is checked
/// before the path.
pub open spec fn resolves_from_mnemonic(
    r: Result<SigningKey, ResolveError>,
    phrase: Seq<char>,
    path: Seq<char>,
) -> bool {
    match r {
        Ok(k) => hd_key_bytes(phrase, path) == Some(k@) && k@.len() == 32,
        Err(e) => match e {
            ResolveError::InvalidMnemonic => !mnemonic_wf(phrase),
            ResolveError::InvalidDerivationPath => mnemonic_wf(phrase) && !path_wf(path),
            ResolveError::DerivationFailed => {
                &&& mnemonic_wf(phrase)
                &&& path_wf(path)
                &&& derived_key_of(seed_of(phrase), path) is None
            },
            _ => false,
        },
    }
}

/// What resolving a key from a base64-encoded private key returns: the
/// decoded bytes where they decode to a full-length valid key, and the error
/// that names the failing step otherwise. A raw key is exactly 32 bytes
/// here: shorter strings, which the backend would silently left-pad, are
/// rejected as invalid key bytes.
pub open spec fn resolves_from_base64(
    r: Result<SigningKey, ResolveError>,
    encoded: Seq<char>,
) -> bool {
    match r {
        Ok(k) => b64_decode_of(encoded) == Some(k@) && k@.len() == 32 && sk_bytes_wf(k@),
        Err(e) => match e {
            ResolveError::InvalidPrivateKeyEncoding => b64_decode_of(encoded) is None,
            ResolveError::InvalidPrivateKeyBytes => (b64_decode_of(encoded) matches Some(b) && (
            b.len() != 32 || !sk_bytes_wf(b))),
            _ => false,
        },
    }
}

impl SigningKey {
    /// Borrow the raw secret key bytes.
    pub fn to_bytes(&self) -> (r: &Vec<u8>)
        ensures
            r@ == self@,
    {
        &self.bytes
    }

    /// Derive a signing key from a BIP39 mnemonic phrase and a BIP32
    /// derivation path, under an empty passphrase.
    pub fn from_mnemonic(phrase: &str, derivation_path: &str) -> (r: Result<
        SigningKey,
        ResolveError,
    >)
        ensures
            resolves_from_mnemonic(r, phrase@, derivation_path@),
    {
        let seed: Vec<u8> = match mnemonic_to_seed(phrase) {
            Ok(seed) => seed,
            Err(_) => {
                return Err(ResolveError::InvalidMnemonic);
            },
        };
        if !derivation_path_wf(derivation_path) {
            return Err(ResolveError::InvalidDerivationPath);
        }
        match derive_key_bytes(&seed, derivation_path) {
            Ok(bytes) => Ok(SigningKey { bytes }),
            Err(_) => Err(ResolveError::DerivationFailed),
        }
    }

    /// Decode a base64-encoded raw private key into a signing key. The
    /// decoded key must be exactly 32 bytes and a valid secp256k1 scalar.
    pub fn from_base64(encoded: &str) -> (r: Result<SigningKey, ResolveError>)
        ensures
            resolves_from_base64(r, encoded@),
    {
        let bytes: Vec<u8> = match decode_base64(encoded) {
            Ok(b) => b,
            Err(_) => {
                return Err(ResolveError::InvalidPrivateKeyEncoding);
            },
        };
        if bytes.len() != 32 {
            return Err(ResolveError::InvalidPrivateKeyBytes);
        }
        if !signing_key_bytes_ok(&bytes) {
            return Err(ResolveError::InvalidPrivateKeyBytes);
        }
        Ok(SigningKey { bytes })
    }
}

/// The three mutually exclusive credential inputs a signer may supply. The
/// command-line layer enforces that at most one is populated; resolution
/// enforces the same shape again through its fixed priority order.
pub struct SignerArgs {
    /// A predefined account out of the registry.
    pub signer_account: Option<String>,
    /// A raw BIP39 mnemonic phrase.
    pub signer_mnemonic: Option<String>,
    /// A base64-encoded raw private key.
    pub signer_private_key: Option<String>,
}

/// What resolution returns for a full credential specification: the branch
/// of the first populated field, in the fixed order account, mnemonic,
/// private key, and `NoCredentialSupplied` where none is populated.
pub open spec fn resolves(
    r: Result<SigningKey, ResolveError>,
    args: SignerArgs,
    accounts: Seq<(Seq<char>, Account)>,
    path: Seq<char>,
) -> bool {
    match args.signer_account {
        Some(name) => match spec_lookup(accounts, name@) {
            None => (r matches Err(ResolveError::UnknownAccount(missing)) && missing@ == name@),
            Some(Account::FromMnemonic { mnemonic }) => resolves_from_mnemonic(r, mnemonic@, path),
            Some(Account::FromPrivateKey { private_key }) => resolves_from_base64(
                r,
                private_key@,
            ),
        },
        None => match args.signer_mnemonic {
            Some(mnemonic) => resolves_from_mnemonic(r, mnemonic@, path),
            None => match args.signer_private_key {
                Some(private_key) => resolves_from_base64(r, private_key@),
                None => r matches Err(ResolveError::NoCredentialSupplied),
            },
        },
    }
}

impl SignerArgs {
    /// Resolve the signing key these credentials select, looking named
    /// accounts up in `accounts` and deriving mnemonic-based keys at
    /// `derivation_path`.
    pub fn private_key(&self, accounts: &AccountRegistry, derivation_path: &str) -> (r: Result<
        SigningKey,
        ResolveError,
    >)
        ensures
            resolves(r, *self, accounts@, derivation_path@),
    {
        if let Some(name) = &self.signer_account {
            match accounts.get(name) {
                None => Err(ResolveError::UnknownAccount(name.clone())),
                Some(Account::FromMnemonic { mnemonic }) => SigningKey::from_mnemonic(
                    mnemonic.as_str(),
                    derivation_path,
                ),
                Some(Account::FromPrivateKey { private_key }) => SigningKey::from_base64(
                    private_key.as_str(),
                ),
            }
        } else if let Some(mnemonic) = &self.signer_mnemonic {
            SigningKey::from_mnemonic(mnemonic.as_str(), derivation_path)
        } else if let Some(private_key) = &self.signer_private_key {
            SigningKey::from_base64(private_key.as_str())
        } else {
            Err(ResolveError::NoCredentialSupplied)
        }
    }
}

// ---------------------------------------------------------------------------
// Laws of resolution.
// ---------------------------------------------------------------------------
/// With none of the three credential fields populated, resolution fails with
/// `NoCredentialSupplied`, whatever the registry holds.
pub proof fn lemma_no_credential(
    r: Result<SigningKey, ResolveError>,
    args: SignerArgs,
    accounts: Seq<(Seq<char>, Account)>,
    path: Seq<char>,
)
    requires
        resolves(r, args, accounts, path),
        args.signer_account is None,
        args.signer_mnemonic is None,
        args.signer_private_key is None,
    ensures
        r matches Err(ResolveError::NoCredentialSupplied),
{
}

/// With `signer_account` set to a name the registry does not hold,
/// resolution fails with `UnknownAccount` naming it, even where the mnemonic
/// or private key fields are also populated: the priority chain wins.
pub proof fn lemma_unknown_account(
    r: Result<SigningKey, ResolveError>,
    args: SignerArgs,
    accounts: Seq<(Seq<char>, Account)>,
    path: Seq<char>,
)
    requires
        resolves(r, args, accounts, path),
        args.signer_account is Some,
        spec_lookup(accounts, args.signer_account->0@) is None,
    ensures
        r matches Err(ResolveError::UnknownAccount(missing)) && missing@ == args.signer_account
            ->0@,
{
}

/// Hierarchical deterministic derivation is deterministic: two resolutions
/// from the same mnemonic phrase and derivation path yield the same key
/// bytes.
pub proof fn lemma_mnemonic_derivation_deterministic(
    r1: Result<SigningKey, ResolveError>,
    r2: Result<SigningKey, ResolveError>,
    phrase: Seq<char>,
    path: Seq<char>,
)
    requires
        resolves_from_mnemonic(r1, phrase, path),
        resolves_from_mnemonic(r2, phrase, path),
        r1 is Ok,
    ensures
        r2 is Ok,
        r1->Ok_0@ == r2->Ok_0@,
{
}

/// With a well-formed mnemonic and a malformed derivation path, resolution
/// fails with `InvalidDerivationPath`. (A malformed mnemonic is reported
/// first: the phrase is validated before the path is read.)
pub proof fn lemma_malformed_path(
    r: Result<SigningKey, ResolveError>,
    args: SignerArgs,
    accounts: Seq<(Seq<char>, Account)>,
    path: Seq<char>,
)
    requires
        resolves(r, args, accounts, path),
        args.signer_account is None,
        args.signer_mnemonic is Some,
        mnemonic_wf(args.signer_mnemonic->0@),
        !path_wf(path),
    ensures
        r matches Err(ResolveError::InvalidDerivationPath),
{
}

/// With a private key that is not valid base64, resolution fails with
/// `InvalidPrivateKeyEncoding`.
pub proof fn lemma_undecodable_private_key(
    r: Result<SigningKey, ResolveError>,
    args: SignerArgs,
    accounts: Seq<(Seq<char>, Account)>,
    path: Seq<char>,
)
    requires
        resolves(r, args, accounts, path),
        args.signer_account is None,
        args.signer_mnemonic is None,
        args.signer_private_key is Some,
        b64_decode_of(args.signer_private_key->0@) is None,
    ensures
        r matches Err(ResolveError::InvalidPrivateKeyEncoding),
{
}

} // verus!
