//! The only values that come from the environment: what is needed to find, open and
//! decrypt the settings database, the instance's name, and an emergency mode. Everything
//! else that drives the relay is a setting in the database.

use crate::encoding::{b64_decode, b64_encode, base64url, decoded};
use crate::paths::{join, joined, System};
use crate::relay::crypto::random_bytes;
use crate::text;
use crate::text::{decimal, lowered, option_view, trimmed};
use vstd::prelude::*;

verus! {

pub const ENV_DATA_DIR: &'static str = "RELAY_DATA_DIR";

pub const ENV_DB_PATH: &'static str = "RELAY_DB_PATH";

pub const ENV_SECRET_KEY: &'static str = "RELAY_SECRET_KEY";

pub const ENV_SECRET_KEY_FILE: &'static str = "RELAY_SECRET_KEY_FILE";

pub const ENV_OPERATOR_TOKEN: &'static str = "RELAY_OPERATOR_TOKEN";

pub const ENV_INSTANCE_ID: &'static str = "RELAY_INSTANCE_ID";

pub const ENV_RECOVERY_MODE: &'static str = "RELAY_RECOVERY_MODE";

pub const ENV_RECOVERY_LISTEN: &'static str = "RELAY_RECOVERY_LISTEN";

pub const DEFAULT_DATA_DIR: &'static str = "/var/lib/terminal-relay";

/// Where a recovery listener binds unless told otherwise.
pub const DEFAULT_RECOVERY_LISTEN: &'static str = "127.0.0.1:8081";

/// Why the relay cannot start.
#[derive(Debug)]
pub enum BootstrapError<S = String> {
    Invalid(S),
    Io { path: S, source: S },
}

impl View for BootstrapError {
    type V = BootstrapError<Seq<char>>;

    open spec fn view(&self) -> BootstrapError<Seq<char>> {
        match self {
            BootstrapError::Invalid(message) => BootstrapError::Invalid(message@),
            BootstrapError::Io { path, source } => BootstrapError::Io {
                path: path@,
                source: source@,
            },
        }
    }
}

impl BootstrapError {
    /// The error in words.
    pub fn to_text(&self) -> (words: String)
        ensures
            words@ == (match self@ {
                BootstrapError::Invalid(message) => message,
                BootstrapError::Io { path, source } => "io error for "@ + path + ": "@ + source,
            }),
    {
        match self {
            BootstrapError::Invalid(message) => message.as_str().to_owned(),
            BootstrapError::Io { path, source } => "io error for ".to_owned().concat(
                path.as_str(),
            ).concat(": ").concat(source.as_str()),
        }
    }
}

/// The value of a variable, unless it is unset or blank.
pub open spec fn given(value: Option<Seq<char>>) -> Option<Seq<char>> {
    match value {
        Some(value) => if trimmed(value).len() > 0 {
            Some(trimmed(value))
        } else {
            None
        },
        None => None,
    }
}

/// The value of a variable, unless it is unset or blank.
pub fn env_opt(value: &Option<String>) -> (kept: Option<String>)
    ensures
        option_view(kept) == given(option_view(*value)),
{
    match value {
        Some(value) => {
            let kept = text::trim(value.as_str());
            if text::characters(kept.as_str()).len() > 0 {
                Some(kept)
            } else {
                None
            }
        },
        None => None,
    }
}

/// A word that switches something on.
pub open spec fn is_yes(word: Seq<char>) -> bool {
    word == "1"@ || word == "true"@ || word == "yes"@ || word == "on"@
}

/// Whether a variable switches something on.
pub fn env_bool(value: &Option<String>) -> (on: bool)
    ensures
        on == (given(option_view(*value)) matches Some(value) && is_yes(lowered(value))),
{
    match env_opt(value) {
        Some(value) => {
            let word = text::to_lower(value.as_str());
            text::same(word.as_str(), "1") || text::same(word.as_str(), "true") || text::same(
                word.as_str(),
                "yes",
            ) || text::same(word.as_str(), "on")
        },
        None => false,
    }
}

/// What key material in text comes to. `bytes` is what the text decodes to, if it does.
pub open spec fn read_key(bytes: Option<Seq<u8>>, source: Seq<char>) -> Result<
    Seq<u8>,
    BootstrapError<Seq<char>>,
> {
    match bytes {
        None => Err(
            BootstrapError::Invalid(source + " must be base64url-encoded key material"@),
        ),
        Some(bytes) => if bytes.len() == 32 {
            Ok(bytes)
        } else {
            Err(
                BootstrapError::Invalid(
                    source + " must decode to exactly 32 bytes, got "@ + decimal(bytes.len()),
                ),
            )
        },
    }
}

/// Takes decoded key material.
pub fn take_key(bytes: Option<Vec<u8>>, source: &str) -> (result: Result<
    [u8; 32],
    BootstrapError,
>)
    ensures
        match result {
            Ok(key) => read_key(option_view(bytes), source@) == Ok::<
                Seq<u8>,
                BootstrapError<Seq<char>>,
            >(key@),
            Err(error) => read_key(option_view(bytes), source@) == Err::<
                Seq<u8>,
                BootstrapError<Seq<char>>,
            >(error@),
        },
{
    let bytes = match bytes {
        Some(bytes) => bytes,
        None => return Err(
            BootstrapError::Invalid(
                source.to_owned().concat(" must be base64url-encoded key material"),
            ),
        ),
    };
    if bytes.len() != 32 {
        return Err(
            BootstrapError::Invalid(
                source.to_owned().concat(" must decode to exactly 32 bytes, got ").concat(
                    text::decimal_of(bytes.len() as u64).as_str(),
                ),
            ),
        );
    }
    let mut key: [u8; 32] = [0u8;32];
    let mut index: usize = 0;
    while index < 32
        invariant
            index <= 32,
            bytes@.len() == 32,
            forall|i: int| 0 <= i < index ==> key@[i] == bytes@[i],
        decreases 32 - index,
    {
        key[index] = bytes[index];
        index = index + 1;
    }
    assert(key@ =~= bytes@);
    Ok(key)
}

/// A character of base64 in the alphabet of base64url.
pub open spec fn url_safe_char(c: char) -> char {
    if c == '+' {
        '-'
    } else if c == '/' {
        '_'
    } else {
        c
    }
}

/// A base64 text in the alphabet of base64url.
pub open spec fn url_safe(text: Seq<char>) -> Seq<char> {
    text.map_values(|c: char| url_safe_char(c))
}

/// The bytes that key material in text stands for: it is base64url, or base64 in the
/// standard alphabet, but never a mixture of the two.
pub open spec fn key_bytes(raw: Seq<char>) -> Option<Seq<u8>> {
    match decoded(raw) {
        Some(bytes) => Some(bytes),
        None => if raw.contains('-') || raw.contains('_') {
            None
        } else {
            decoded(url_safe(raw))
        },
    }
}

/// A text in the alphabet of base64url, unless it holds characters of that alphabet alone.
fn standard_as_url_safe(raw: &str) -> (text: Option<String>)
    ensures
        text is None <==> raw@.contains('-') || raw@.contains('_'),
        text is Some ==> text->0@ == url_safe(raw@),
{
    let list = text::characters(raw);
    let mut text = String::new();
    let mut index: usize = 0;
    while index < list.len()
        invariant
            index <= list@.len(),
            list@ == raw@,
            text@ == url_safe(raw@).take(index as int),
            forall|i: int| 0 <= i < index ==> raw@[i] != '-' && raw@[i] != '_',
        decreases list@.len() - index,
    {
        let c: char = list[index];
        assert(raw@[index as int] == c);
        if c == '-' || c == '_' {
            return None;
        }
        if c == '+' {
            text.push('-');
        } else if c == '/' {
            text.push('_');
        } else {
            text.push(c);
        }
        index = index + 1;
        assert(text@ =~= url_safe(raw@).take(index as int));
    }
    assert(url_safe(raw@).take(index as int) =~= url_safe(raw@));
    Some(text)
}

/// Decodes key material. `source` names where it came from.
pub fn decode_key(raw: &str, source: &str) -> (result: Result<[u8; 32], BootstrapError>)
    ensures
        match result {
            Ok(key) => read_key(key_bytes(raw@), source@) == Ok::<
                Seq<u8>,
                BootstrapError<Seq<char>>,
            >(key@),
            Err(error) => read_key(key_bytes(raw@), source@) == Err::<
                Seq<u8>,
                BootstrapError<Seq<char>>,
            >(error@),
        },
{
    let bytes = match b64_decode(raw) {
        Some(bytes) => Some(bytes),
        None => match standard_as_url_safe(raw) {
            Some(text) => b64_decode(text.as_str()),
            None => None,
        },
    };
    take_key(bytes, source)
}

/// Draws key material, as it is written to the relay's own file. Which it is, is chance;
/// it reads back as thirty-two bytes.
pub fn generate_key() -> (text: String)
    ensures
        exists|key: Seq<u8>| #[trigger] base64url(key) + "\n"@ == text@ && key.len() == 32
            && decoded(base64url(key)) == Some(key),
{
    let key = random_bytes(32);
    let line = b64_encode(key.as_slice());
    let text = line.concat("\n");
    assert(base64url(key@) + "\n"@ == text@);
    text
}

/// Where key material comes from.
#[derive(Debug)]
pub enum KeySource<S = String> {
    /// From this text.
    Inline(S),
    /// From this file, which has to exist. `source` is what an error calls it.
    File { path: S, source: S },
    /// From this file, which is generated if it does not exist.
    Generated { path: S },
}

impl View for KeySource {
    type V = KeySource<Seq<char>>;

    open spec fn view(&self) -> KeySource<Seq<char>> {
        match self {
            KeySource::Inline(raw) => KeySource::Inline(raw@),
            KeySource::File { path, source } => KeySource::File { path: path@, source: source@ },
            KeySource::Generated { path } => KeySource::Generated { path: path@ },
        }
    }
}

/// Where key material comes from: the environment, a file that it names, or a file of
/// the relay's own. The last keeps development easy but is weaker, since the key then
/// lies beside the database that it protects.
pub fn load_secret_key(
    system: System,
    secret_key: &Option<String>,
    secret_key_file: &Option<String>,
    data_dir: &str,
) -> (source: KeySource)
    ensures
        source@ == (match given(option_view(*secret_key)) {
            Some(raw) => KeySource::Inline(raw),
            None => match given(option_view(*secret_key_file)) {
                Some(path) => KeySource::File { path, source: ENV_SECRET_KEY_FILE@ },
                None => KeySource::Generated { path: joined(system, data_dir@, "bootstrap.key"@) },
            },
        }),
{
    match env_opt(secret_key) {
        Some(raw) => KeySource::Inline(raw),
        None => match env_opt(secret_key_file) {
            Some(path) => KeySource::File { path, source: ENV_SECRET_KEY_FILE.to_owned() },
            None => KeySource::Generated { path: join(system, data_dir, "bootstrap.key") },
        },
    }
}

/// What the relay starts from.
#[derive(Debug, Clone)]
pub struct Bootstrap {
    pub data_dir: String,
    pub db_path: String,
    /// Key material that secret settings and signing keys are sealed with. Never stored
    /// in the database.
    pub secret_key: [u8; 32],
    /// Seeds the operator's credential when the database is first set up.
    pub operator_token_seed: Option<String>,
    pub instance_id: String,
    /// Ignore the stored listening and TLS settings, so that an operator can repair a
    /// bad revision.
    pub recovery_mode: bool,
    pub recovery_listen: String,
}

/// The variables that the relay reads.
#[derive(Debug)]
pub struct Environment {
    pub data_dir: Option<String>,
    pub db_path: Option<String>,
    pub operator_token: Option<String>,
    pub instance_id: Option<String>,
    pub hostname: Option<String>,
    pub recovery_mode: Option<String>,
    pub recovery_listen: Option<String>,
}

/// A value, or the one that stands in for it.
pub open spec fn either(value: Option<Seq<char>>, other: Seq<char>) -> Seq<char> {
    match value {
        Some(value) => value,
        None => other,
    }
}

fn or_else(value: Option<String>, other: &str) -> (kept: String)
    ensures
        kept@ == either(option_view(value), other@),
{
    match value {
        Some(value) => value,
        None => other.to_owned(),
    }
}

/// The directory that the relay keeps its data in.
pub fn data_dir(value: &Option<String>) -> (dir: String)
    ensures
        dir@ == either(given(option_view(*value)), DEFAULT_DATA_DIR@),
{
    or_else(env_opt(value), DEFAULT_DATA_DIR)
}

impl Bootstrap {
    /// What the relay starts from. An instance without a name is called after its host,
    /// and failing that `fresh_id`.
    pub fn from_env(
        system: System,
        environment: &Environment,
        secret_key: [u8; 32],
        fresh_id: &str,
    ) -> (bootstrap: Self)
        ensures
            bootstrap.data_dir@ == either(
                given(option_view(environment.data_dir)),
                DEFAULT_DATA_DIR@,
            ),
            bootstrap.db_path@ == either(
                given(option_view(environment.db_path)),
                joined(system, bootstrap.data_dir@, "relay.db"@),
            ),
            bootstrap.secret_key == secret_key,
            option_view(bootstrap.operator_token_seed) == given(
                option_view(environment.operator_token),
            ),
            bootstrap.instance_id@ == either(
                given(option_view(environment.instance_id)),
                either(option_view(environment.hostname), fresh_id@),
            ),
            bootstrap.recovery_mode == (given(option_view(environment.recovery_mode)) matches Some(
                value,
            ) && is_yes(lowered(value))),
            bootstrap.recovery_listen@ == either(
                given(option_view(environment.recovery_listen)),
                DEFAULT_RECOVERY_LISTEN@,
            ),
    {
        let data_dir = data_dir(&environment.data_dir);
        let default_path = join(system, data_dir.as_str(), "relay.db");
        let named = or_else(text::copy_option(&environment.hostname), fresh_id);
        Self {
            data_dir,
            db_path: or_else(env_opt(&environment.db_path), default_path.as_str()),
            secret_key,
            operator_token_seed: env_opt(&environment.operator_token),
            instance_id: or_else(env_opt(&environment.instance_id), named.as_str()),
            recovery_mode: env_bool(&environment.recovery_mode),
            recovery_listen: or_else(
                env_opt(&environment.recovery_listen),
                DEFAULT_RECOVERY_LISTEN,
            ),
        }
    }
}

} // verus!
