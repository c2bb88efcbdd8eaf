//! The first start: the only place where a Master key is made.

use vstd::prelude::*;
use vstd::utf8::*;

use crate::api::support;
use crate::api::support::{generate_random_key, hash_key, key_prefix};
use crate::config;
use crate::config::{
    validate_initial_master_key, validate_initial_master_signing_secret, InvalidInitialMasterKey,
    InvalidInitialMasterSigningSecret,
};
use crate::crypto;
use crate::crypto::{generate_signing_secret, CryptoError, SecretCipher};
use crate::entities::api_key;
use crate::text;
use crate::time::Timestamp;

verus! {

/// Networks of the bootstrap Master key: unrestricted, in both address families.
pub const BOOTSTRAP_SUBNET: &'static str = "0.0.0.0/0,::/0";

/// Why the Master key could not be made.
#[derive(Debug)]
pub enum BootstrapError {
    /// The supplied key is malformed.
    MasterKey(InvalidInitialMasterKey),
    /// The supplied signing secret is malformed.
    SigningSecret(InvalidInitialMasterSigningSecret),
    /// The signing secret cannot be sealed.
    Crypto(CryptoError),
}

impl BootstrapError {
    /// The text an operator reads.
    pub open spec fn text(self) -> Seq<char> {
        match self {
            BootstrapError::MasterKey(e) => e.text(),
            BootstrapError::SigningSecret(e) => e.text(),
            BootstrapError::Crypto(e) => e.text(),
        }
    }

    /// The text an operator reads.
    pub fn message(&self) -> (r: String)
        ensures
            r@ == self.text(),
    {
        match self {
            BootstrapError::MasterKey(e) => e.message(),
            BootstrapError::SigningSecret(e) => e.message(),
            BootstrapError::Crypto(e) => e.message().to_owned(),
        }
    }
}

/// The value that was supplied: an empty one counts as none.
pub open spec fn supplied(value: Option<String>) -> Option<String> {
    match value {
        Some(raw) if raw@.len() > 0 => Some(raw),
        _ => None,
    }
}

fn read_supplied(value: Option<String>) -> (r: Option<String>)
    ensures
        r == supplied(value),
{
    match value {
        Some(raw) => if raw.as_str().is_empty() {
            None
        } else {
            Some(raw)
        },
        None => None,
    }
}

/// A Master key that was made.
#[derive(Debug)]
pub struct BootstrappedMaster {
    /// The key's row.
    pub row: api_key::Model,
    /// The key itself, which is never known again.
    pub plaintext_key: String,
    /// Its signing secret, which is never known again.
    pub signing_secret: String,
    /// Whether the key was supplied, which is meant for tests only.
    pub key_was_supplied: bool,
    /// Whether the signing secret was supplied, which is meant for tests only.
    pub secret_was_supplied: bool,
}

/// Whether `row` is the row of a Master key with these credentials.
pub open spec fn is_master_row(
    row: api_key::Model,
    plaintext_key: Seq<char>,
    signing_secret: Seq<char>,
    cipher: SecretCipher,
    id: u128,
    now: Timestamp,
) -> bool {
    &&& row.id == id
    &&& row.name@ == "Master"@
    &&& row.key_hash@ == support::hashed(plaintext_key)
    &&& row.signing_secret matches Some(sealed) && cipher.seals(sealed@, signing_secret)
    &&& row.prefix@ == text::shortened(plaintext_key, 8)
    &&& row.is_master
    &&& row.can_manage_keys
    &&& row.can_manage_sources
    &&& row.can_manage_vaults
    &&& row.parent_key_id is None
    &&& row.bound_ips matches Some(networks) && networks@ == BOOTSTRAP_SUBNET@
    &&& row.created_at == now
    &&& row.updated_at == now
}

/// The row of a Master key with these credentials.
pub fn master_row(
    plaintext_key: &str,
    signing_secret: &str,
    cipher: &SecretCipher,
    id: u128,
    now: Timestamp,
) -> (r: Result<api_key::Model, CryptoError>)
    ensures
        if cipher.can_seal(signing_secret@) {
            r is Ok && is_master_row(
                r->Ok_0,
                plaintext_key@,
                signing_secret@,
                *cipher,
                id,
                now,
            )
        } else {
            r == Err::<api_key::Model, CryptoError>(CryptoError::EncryptionFailed)
        },
{
    let sealed = match cipher.seal(signing_secret) {
        Ok(sealed) => sealed,
        Err(e) => return Err(e),
    };
    Ok(
        api_key::Model {
            id,
            name: "Master".to_owned(),
            key_hash: hash_key(plaintext_key),
            signing_secret: Some(sealed),
            prefix: key_prefix(plaintext_key),
            is_master: true,
            can_manage_keys: true,
            can_manage_sources: true,
            can_manage_vaults: true,
            parent_key_id: None,
            bound_ips: Some(BOOTSTRAP_SUBNET.to_owned()),
            created_at: now,
            updated_at: now,
        },
    )
}

proof fn lemma_credential_fits(s: Seq<char>)
    requires
        config::is_bootstrap_credential(s),
    ensures
        crypto::fits_one_keystream(encode_utf8(s).len()),
{
    assert forall|i: int| 0 <= i < s.len() implies 0 <= (#[trigger] s[i]) as int && s[i] as int
        <= 127 by {
        assert(crypto::hex_value(s[i]) is Some);
    }
    assert(is_ascii_chars(s));
    is_ascii_chars_encode_utf8(s);
}

/// Makes the sole Master key on the first start, and nothing where there already is one. What is
/// not supplied is random. `cipher` is what the configured encryption key gave.
pub fn bootstrap_master_key(
    existing_masters: u64,
    key_value: Option<String>,
    cipher: Result<SecretCipher, CryptoError>,
    secret_value: Option<String>,
    id: u128,
    now: Timestamp,
) -> (r: Result<Option<BootstrappedMaster>, BootstrapError>)
    ensures
        if existing_masters > 0 {
            r matches Ok(None)
        } else if supplied(key_value) matches Some(raw) && !config::is_bootstrap_credential(raw@) {
            r matches Err(BootstrapError::MasterKey(e)) && e.got == supplied(
                key_value,
            )->Some_0@.len() && e.detail@ == config::refusal_detail(supplied(key_value)->Some_0@)
        } else if cipher is Err {
            r matches Err(BootstrapError::Crypto(e)) && e == cipher->Err_0
        } else if supplied(secret_value) matches Some(raw) && !config::is_bootstrap_credential(
            raw@,
        ) {
            r matches Err(BootstrapError::SigningSecret(e)) && e.got == supplied(
                secret_value,
            )->Some_0@.len() && e.detail@ == config::refusal_detail(
                supplied(secret_value)->Some_0@,
            )
        } else {
            r matches Ok(Some(made)) && {
                &&& is_master_row(
                    made.row,
                    made.plaintext_key@,
                    made.signing_secret@,
                    cipher->Ok_0,
                    id,
                    now,
                )
                &&& config::is_bootstrap_credential(made.plaintext_key@)
                &&& config::is_bootstrap_credential(made.signing_secret@)
                &&& made.key_was_supplied == supplied(key_value) is Some
                &&& made.secret_was_supplied == supplied(secret_value) is Some
                &&& if made.key_was_supplied {
                    made.plaintext_key == supplied(key_value)->Some_0
                } else {
                    crypto::is_generated(made.plaintext_key@)
                }
                &&& if made.secret_was_supplied {
                    made.signing_secret == supplied(secret_value)->Some_0
                } else {
                    crypto::is_generated(made.signing_secret@)
                }
            }
        },
{
    if existing_masters > 0 {
        return Ok(None);
    }
    let (plaintext_key, key_was_supplied) = match read_supplied(key_value) {
        Some(raw) => match validate_initial_master_key(raw.as_str()) {
            Ok(_) => (raw, true),
            Err(e) => return Err(BootstrapError::MasterKey(e)),
        },
        None => {
            let key = generate_random_key();
            proof {
                config::law_generated_secrets_are_valid(key@);
            }
            (key, false)
        },
    };
    let cipher = match cipher {
        Ok(cipher) => cipher,
        Err(e) => return Err(BootstrapError::Crypto(e)),
    };
    let (signing_secret, secret_was_supplied) = match read_supplied(secret_value) {
        Some(raw) => match validate_initial_master_signing_secret(raw.as_str()) {
            Ok(_) => (raw, true),
            Err(e) => return Err(BootstrapError::SigningSecret(e)),
        },
        None => {
            let secret = generate_signing_secret();
            proof {
                config::law_generated_secrets_are_valid(secret@);
            }
            (secret, false)
        },
    };
    proof {
        lemma_credential_fits(signing_secret@);
    }
    match master_row(plaintext_key.as_str(), signing_secret.as_str(), &cipher, id, now) {
        Ok(row) => Ok(
            Some(
                BootstrappedMaster {
                    row,
                    plaintext_key,
                    signing_secret,
                    key_was_supplied,
                    secret_was_supplied,
                },
            ),
        ),
        Err(e) => Err(BootstrapError::Crypto(e)),
    }
}

/// Inner width of the banner.
pub const BANNER_WIDTH: usize = 82;

/// A character, again and again.
pub open spec fn repeated(c: char, n: nat) -> Seq<char> {
    Seq::new(n, |i: int| c)
}

/// `s` with spaces behind it, up to a width.
pub open spec fn padded(s: Seq<char>, width: nat) -> Seq<char> {
    if s.len() < width {
        s + repeated(' ', (width - s.len()) as nat)
    } else {
        s
    }
}

/// One row of the banner.
pub open spec fn banner_row(row: Seq<char>) -> Seq<char> {
    "║ "@ + padded(row, BANNER_WIDTH as nat) + " ║\n"@
}

/// A border of the banner.
pub open spec fn banner_border(left: Seq<char>, right: Seq<char>) -> Seq<char> {
    left + repeated('═', BANNER_WIDTH as nat) + right
}

fn repeat(c: char, n: usize) -> (s: String)
    ensures
        s@ == repeated(c, n as nat),
{
    let mut s = String::new();
    let mut i: usize = 0;
    while i < n
        invariant
            i <= n,
            s@ == repeated(c, i as nat),
        decreases n - i,
    {
        s.push(c);
        i += 1;
        assert(s@ =~= repeated(c, i as nat));
    }
    s
}

fn row_text(row: &str) -> (s: String)
    ensures
        s@ == banner_row(row@),
{
    let len: usize = row.unicode_len();
    let body = if len < BANNER_WIDTH {
        text::concat(row, repeat(' ', BANNER_WIDTH - len).as_str())
    } else {
        row.to_owned()
    };
    text::concat3("║ ", body.as_str(), " ║\n")
}

fn border_text(left: &str, right: &str) -> (s: String)
    ensures
        s@ == banner_border(left@, right@),
{
    text::concat3(left, repeat('═', BANNER_WIDTH).as_str(), right)
}

/// What is shown once, when the Master key has been made: its credentials cannot be recovered
/// later.
pub fn banner(plaintext_key: &str, signing_secret: &str) -> (s: String)
    ensures
        s@ == banner_border("\n╔"@, "╗\n"@) + banner_row("BOOTSTRAP: Master API Key Generated"@)
            + banner_border("╠"@, "╣\n"@) + banner_row("X-API-Key      : "@ + plaintext_key@)
            + banner_row("Signing secret : "@ + signing_secret@) + banner_row(
            "Bound IPs      : "@ + BOOTSTRAP_SUBNET@,
        ) + banner_row(""@) + banner_row(
            "Both values are needed to sign requests (X-Timestamp + X-Signature-256)."@,
        ) + banner_row("They will NOT be shown again — store them securely!"@) + banner_border(
            "╚"@,
            "╝"@,
        ),
{
    let mut s = border_text("\n╔", "╗\n");
    s.append(row_text("BOOTSTRAP: Master API Key Generated").as_str());
    s.append(border_text("╠", "╣\n").as_str());
    s.append(row_text(text::concat("X-API-Key      : ", plaintext_key).as_str()).as_str());
    s.append(row_text(text::concat("Signing secret : ", signing_secret).as_str()).as_str());
    s.append(row_text(text::concat("Bound IPs      : ", BOOTSTRAP_SUBNET).as_str()).as_str());
    s.append(row_text("").as_str());
    s.append(
        row_text("Both values are needed to sign requests (X-Timestamp + X-Signature-256).").as_str(),
    );
    s.append(row_text("They will NOT be shown again — store them securely!").as_str());
    s.append(border_text("╚", "╝").as_str());
    s
}

/// What is supplied is taken as it is, unless it is empty.
pub proof fn law_empty_values_count_as_none(value: Option<String>)
    ensures
        supplied(value) is Some <==> value is Some && value->0@.len() > 0,
        supplied(value) is Some ==> supplied(value) == value,
{
}

/// The Master key may do everything, from everywhere, answers to no other key, and is stored as the
/// digest of the key and with its signing secret sealed.
pub proof fn law_the_master_may_do_everything(
    row: api_key::Model,
    plaintext_key: Seq<char>,
    signing_secret: Seq<char>,
    cipher: SecretCipher,
    id: u128,
    now: Timestamp,
)
    requires
        is_master_row(row, plaintext_key, signing_secret, cipher, id, now),
    ensures
        row.id == id,
        row.name@ == "Master"@,
        row.is_master && row.can_manage_keys && row.can_manage_sources && row.can_manage_vaults,
        row.parent_key_id is None,
        row.bound_ips is Some && row.bound_ips->0@ == "0.0.0.0/0,::/0"@,
        row.key_hash@ == support::hashed(plaintext_key),
        plaintext_key.len() >= 8 ==> row.prefix@ == plaintext_key.take(8),
        row.signing_secret is Some && cipher.opened(row.signing_secret->0@) == Ok::<
            Seq<char>,
            CryptoError,
        >(signing_secret),
        row.created_at == now && row.updated_at == now,
{
}

/// A row of the banner shows its text whole, and is as wide as every other where the text leaves room.
pub proof fn law_banner_rows_show_their_text(row: Seq<char>)
    ensures
        banner_row(row).len() == 5 + if row.len() < 82 {
            82
        } else {
            row.len() as int
        },
        banner_row(row).subrange(2, 2int + row.len()) == row,
        forall|i: int| 2 + row.len() <= i < 84 ==> #[trigger] banner_row(row)[i] == ' ',
        banner_row(row).last() == '\n',
{
    reveal_strlit("║ ");
    reveal_strlit(" ║\n");
    assert(banner_row(row).subrange(2, 2int + row.len()) =~= row);
}

/// A border of the banner is as wide as its rows.
pub proof fn law_banner_borders_are_as_wide_as_its_rows(left: Seq<char>, right: Seq<char>)
    ensures
        banner_border(left, right).len() == left.len() + 82 + right.len(),
        forall|i: int|
            left.len() <= i < left.len() + 82 ==> #[trigger] banner_border(left, right)[i] == '═',
        banner_border(left, right).take(left.len() as int) == left,
        banner_border(left, right).skip(left.len() + 82int) == right,
{
    assert(banner_border(left, right).take(left.len() as int) =~= left);
    assert(banner_border(left, right).skip(left.len() + 82int) =~= right);
}

/// What an operator reads is what stood against the credential.
pub proof fn law_bootstrap_errors_say_what_is_wrong(e: BootstrapError)
    ensures
        e matches BootstrapError::MasterKey(inner) ==> e.text() == inner.text(),
        e matches BootstrapError::SigningSecret(inner) ==> e.text() == inner.text(),
        e matches BootstrapError::Crypto(inner) ==> e.text() == inner.text(),
{
}

} // verus!
