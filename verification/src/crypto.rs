use vstd::prelude::*;
use vstd::pervasive::unreached;
use vstd::string::StrSliceExecFns;
use vstd::string::StringExecFns;

use crate::errors::BottleError;
use crate::strutil::split_and_vectorize;
use crate::strutil::split_spec;

verus! {

/// True of strings that age accepts as an x25519 identity (secret key).
pub uninterp spec fn is_identity_str(s: Seq<char>) -> bool;

/// True of strings that age accepts as an x25519 recipient (public key).
pub uninterp spec fn is_recipient_str(s: Seq<char>) -> bool;

/// The recipient string that age derives from an identity string.
pub uninterp spec fn public_of(id: Seq<char>) -> Seq<char>;

/// The plaintext age recovers from `cipher` under the identity `id`, or None
/// where age rejects the ciphertext or the identity does not match it.
pub uninterp spec fn age_decrypt_spec(id: Seq<char>, cipher: Seq<u8>) -> Option<Seq<u8>>;

/// True of recipient strings that age derived from some identity. Such a
/// recipient names a proper curve point, never the low-order points a crafted
/// string could smuggle in.
pub open spec fn derived_recipient(rec: Seq<char>) -> bool {
    exists|id: Seq<char>| is_identity_str(id) && #[trigger] public_of(id) == rec
}

/// True when `cipher` is bound to `recipient`: every identity whose derived
/// public key is `recipient` recovers exactly `plain` from it.
pub open spec fn cipher_for(recipient: Seq<char>, cipher: Seq<u8>, plain: Seq<u8>) -> bool {
    forall|id: Seq<char>|
        is_identity_str(id) && public_of(id) == recipient ==> age_decrypt_spec(id, cipher) == Some(
            plain,
        )
}

/// Relies on age's x25519 identity parser (`FromStr`): whether a string is a
/// valid Bech32 age identity depends on the string alone.
#[verifier::external_body]
fn identity_str_is_valid(s: &str) -> (r: bool)
    ensures
        r == is_identity_str(s@),
{
    s.parse::<age::x25519::Identity>().is_ok()
}

/// Relies on `age::x25519::Identity::to_public` and the recipient's `Display`:
/// the recipient string is a function of the identity string alone, and the
/// string so derived is itself a valid recipient.
#[verifier::external_body]
fn derive_public_str(id: &str) -> (r: Option<String>)
    ensures
        r is Some <==> is_identity_str(id@),
        r is Some ==> r.unwrap()@ == public_of(id@) && is_recipient_str(public_of(id@)),
{
    id.parse::<age::x25519::Identity>().ok().map(|i| i.to_public().to_string())
}

/// Relies on age's `Encryptor::with_recipients` and `StreamWriter`: for a
/// valid recipient that was derived from an identity, encryption into a
/// memory buffer succeeds (age's broken-RNG guard cannot fire for a proper
/// curve point), and the ciphertext it produces decrypts, under age, to
/// exactly the given plaintext for every identity whose derived public key
/// is `recipient`.
#[verifier::external_body]
fn age_encrypt(recipient: &str, plain: &[u8]) -> (r: Option<Vec<u8>>)
    requires
        derived_recipient(recipient@),
    ensures
        is_recipient_str(recipient@) ==> r is Some,
        r is Some ==> cipher_for(recipient@, r.unwrap()@, plain@),
{
    let rec: age::x25519::Recipient = recipient.parse().ok()?;
    let recipients: Vec<Box<dyn age::Recipient + Send>> = vec![Box::new(rec)];
    let encryptor = age::Encryptor::with_recipients(recipients)?;
    let mut out: Vec<u8> = vec![];
    let mut writer = encryptor.wrap_output(&mut out).ok()?;
    std::io::Write::write_all(&mut writer, plain).ok()?;
    writer.finish().ok()?;
    Some(out)
}

/// Relies on age's `Decryptor`: what decryption yields is a function of the
/// identity string and the ciphertext alone; `age_decrypt_spec` names it.
#[verifier::external_body]
fn age_decrypt(id: &str, cipher: &[u8]) -> (r: Option<Vec<u8>>)
    ensures
        is_identity_str(id@) ==> match age_decrypt_spec(id@, cipher@) {
            Some(p) => r is Some && r.unwrap()@ == p,
            None => r is None,
        },
{
    let key: age::x25519::Identity = id.parse().ok()?;
    let decryptor = match age::Decryptor::new(cipher).ok()? {
        age::Decryptor::Recipients(d) => d,
        age::Decryptor::Passphrase(_) => return None,
    };
    let mut reader = decryptor.decrypt(std::iter::once(&key as &dyn age::Identity)).ok()?;
    let mut out: Vec<u8> = vec![];
    std::io::Read::read_to_end(&mut reader, &mut out).ok()?;
    Some(out)
}

/// A private age identity, held in memory as its textual secret key; it is
/// never serialized by this library.
pub struct Identity {
    key: String,
}

/// The public key derived from an identity, used only to encrypt.
pub struct PublicKey {
    key: String,
}

impl View for Identity {
    type V = Seq<char>;

    closed spec fn view(&self) -> Seq<char> {
        self.key@
    }
}

impl View for PublicKey {
    type V = Seq<char>;

    closed spec fn view(&self) -> Seq<char> {
        self.key@
    }
}

impl Identity {
    #[verifier::type_invariant]
    spec fn wf(self) -> bool {
        is_identity_str(self.key@)
    }

    /// Wraps a textual age secret key; None exactly when age rejects the text.
    pub fn from_string(key: String) -> (r: Option<Identity>)
        ensures
            r is Some <==> is_identity_str(key@),
            r is Some ==> r.unwrap()@ == key@,
    {
        if identity_str_is_valid(key.as_str()) {
            Some(Identity { key })
        } else {
            None
        }
    }

    /// The public key belonging to this identity; total, because every
    /// `Identity` holds a key that age accepts — which this contract also
    /// states for the caller.
    pub fn to_public(&self) -> (r: PublicKey)
        ensures
            r@ == public_of(self@),
            is_identity_str(self@),
    {
        proof {
            use_type_invariant(self);
        }
        match derive_public_str(self.key.as_str()) {
            Some(k) => {
                proof {
                    assert(derived_recipient(k@)) by {
                        assert(is_identity_str(self@) && public_of(self@) == k@);
                    }
                }
                PublicKey { key: k }
            },
            None => unreached(),
        }
    }
}

impl PublicKey {
    #[verifier::type_invariant]
    spec fn wf(self) -> bool {
        is_recipient_str(self.key@) && derived_recipient(self.key@)
    }

    /// The key as text, for display and for key files.
    pub fn key_string(&self) -> (r: String)
        ensures
            r@ == self@,
    {
        self.key.clone()
    }
}

/// Encrypts bytes to the single recipient `pubkey`: the result is bound to
/// that recipient, and every identity whose public key it is recovers exactly
/// the plaintext from it.
pub fn encrypt_bytes(pubkey: &PublicKey, bytes_to_encrypt: &[u8]) -> (r: Vec<u8>)
    ensures
        cipher_for(pubkey@, r@, bytes_to_encrypt@),
{
    proof {
        use_type_invariant(pubkey);
    }
    match age_encrypt(pubkey.key.as_str(), bytes_to_encrypt) {
        Some(cipher) => cipher,
        None => unreached(),
    }
}

/// Decrypts bytes with the private identity `key`: returns exactly what age
/// recovers for this identity, and fails with `DecryptionFailed` exactly when
/// the ciphertext is invalid or was not produced for this identity.
pub fn decrypt_bytes(key: &Identity, encrypted_bytes: &[u8]) -> (r: Result<Vec<u8>, BottleError>)
    ensures
        match age_decrypt_spec(key@, encrypted_bytes@) {
            Some(p) => r is Ok && r.unwrap()@ == p,
            None => r == Err::<Vec<u8>, BottleError>(BottleError::DecryptionFailed),
        },
{
    proof {
        use_type_invariant(key);
    }
    match age_decrypt(key.key.as_str(), encrypted_bytes) {
        Some(plain) => Ok(plain),
        None => Err(BottleError::DecryptionFailed),
    }
}

/// Round-trip law: decrypting what was encrypted for one's own public key
/// yields the plaintext exactly, for every byte sequence — the empty one
/// included.
pub fn encrypt_decrypt_round_trip(key: &Identity, plain: &[u8]) -> (r: Vec<u8>)
    ensures
        r@ == plain@,
{
    proof {
        use_type_invariant(key);
    }
    let pubkey = key.to_public();
    let cipher = encrypt_bytes(&pubkey, plain);
    proof {
        assert(age_decrypt_spec(key@, cipher@) == Some(plain@));
    }
    match decrypt_bytes(key, cipher.as_slice()) {
        Ok(p) => p,
        Err(_) => unreached(),
    }
}

/// `line` with one trailing carriage return dropped, as a text read in binary
/// mode would need.
pub open spec fn strip_cr(line: Seq<char>) -> Seq<char> {
    if line.len() > 0 && line[line.len() - 1] == '\r' {
        line.drop_last()
    } else {
        line
    }
}

/// True of a key-file line that carries data: nonempty and not a `#` comment.
pub open spec fn data_line(line: Seq<char>) -> bool {
    line.len() > 0 && line[0] != '#'
}

/// The first data line among `lines`, carriage returns dropped.
pub open spec fn first_data_line(lines: Seq<Seq<char>>) -> Option<Seq<char>>
    decreases lines.len(),
{
    if lines.len() == 0 {
        None
    } else if data_line(strip_cr(lines[0])) {
        Some(strip_cr(lines[0]))
    } else {
        first_data_line(lines.drop_first())
    }
}

/// The line of a key file that holds the identity: the first line, split on
/// newlines, that is neither empty nor a `#` comment.
pub open spec fn key_line_of(text: Seq<char>) -> Option<Seq<char>> {
    first_data_line(split_spec(text, "\n"@))
}

/// Reads an identity out of key-file text: metadata lines start with `#`, and
/// the first data line must hold the secret key. Returns the identity exactly
/// when that line is one age accepts, and nothing when it is not or when the
/// text has no data line at all.
pub fn read_key_from_text(text: &str) -> (r: Option<Identity>)
    ensures
        match key_line_of(text@) {
            Some(line) => (r is Some <==> is_identity_str(line)) && (r is Some ==> r.unwrap()@
                == line),
            None => r is None,
        },
{
    proof {
        reveal_strlit("\n");
    }
    let lines = split_and_vectorize(text, "\n");
    let n = lines.len();
    let mut idx: usize = 0;
    proof {
        assert(lines.deep_view().subrange(0, n as int) =~= lines.deep_view());
    }
    while idx < n
        invariant
            n == lines.len(),
            idx <= n,
            lines.deep_view() == split_spec(text@, "\n"@),
            key_line_of(text@) == first_data_line(
                lines.deep_view().subrange(idx as int, n as int),
            ),
        decreases n - idx,
    {
        proof {
            assert(lines.deep_view().subrange(idx as int, n as int).drop_first()
                =~= lines.deep_view().subrange(idx + 1, n as int));
            assert(lines.deep_view().subrange(idx as int, n as int)[0] == lines.deep_view()[
                idx as int
            ]);
        }
        let raw: &str = lines[idx];
        let ll = raw.unicode_len();
        let line: &str = if ll > 0 && raw.get_char(ll - 1) == '\r' {
            raw.substring_char(0, ll - 1)
        } else {
            proof {
                assert(raw@.subrange(0, raw@.len() as int) =~= raw@);
            }
            raw.substring_char(0, ll)
        };
        proof {
            assert(raw@.len() > 0 && raw@[raw@.len() - 1] == '\r' ==> line@ =~= raw@.drop_last());
            assert(line@ == strip_cr(raw@));
        }
        if !line.is_empty() {
            if line.get_char(0) != '#' {
                return Identity::from_string(String::from_str(line));
            }
        }
        idx += 1;
    }
    proof {
        assert(lines.deep_view().subrange(n as int, n as int) =~= Seq::<Seq<char>>::empty());
    }
    None
}

} // verus!
