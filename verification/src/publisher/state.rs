//! What this machine remembers between runs.
//!
//! Two private keys live here: the identity's, which owns everything, and this machine's
//! device key. They are kept apart so that a device can be revoked without rotating the
//! identity, which only holds if the file that keeps them is private.

use crate::ed25519::ed25519_public_key;
use crate::encoding::{b64_decode, b64_encode, base64url, decoded};
use crate::publisher::crypto::{fingerprint_text, KeyPair, ALGORITHM_ED25519};
use crate::paths::{join, joined, System};
use crate::text;
use crate::text::{option_view, trimmed};
use vstd::prelude::*;

verus! {

/// Why the state could not be read or written.
#[derive(Debug)]
pub enum StateError<S = String> {
    Io(S),
    Malformed(S),
    Permissions(S),
}

impl View for StateError {
    type V = StateError<Seq<char>>;

    open spec fn view(&self) -> StateError<Seq<char>> {
        match self {
            StateError::Io(detail) => StateError::Io(detail@),
            StateError::Malformed(detail) => StateError::Malformed(detail@),
            StateError::Permissions(path) => StateError::Permissions(path@),
        }
    }
}

impl StateError<Seq<char>> {
    pub open spec fn words(self) -> Seq<char> {
        match self {
            StateError::Io(detail) => detail,
            StateError::Malformed(detail) => "state file is malformed: "@ + detail,
            StateError::Permissions(path) => "state file "@ + path
                + " is readable by other users; fix with: chmod 600 "@ + path,
        }
    }
}

impl StateError {
    /// What went wrong, in words.
    pub fn to_text(&self) -> (words: String)
        ensures
            words@ == self@.words(),
    {
        match self {
            StateError::Io(detail) => detail.as_str().to_owned(),
            StateError::Malformed(detail) => "state file is malformed: ".to_owned().concat(
                detail.as_str(),
            ),
            StateError::Permissions(path) => "state file ".to_owned().concat(path.as_str()).concat(
                " is readable by other users; fix with: chmod 600 ",
            ).concat(path.as_str()),
        }
    }
}

/// How many terminals a phone may hold open here unless the owner says otherwise.
pub const DEFAULT_MAX_TERMINALS: u32 = 4;

/// The machine owner's own policy for terminals that a phone asks for.
///
/// Captured explicitly rather than inherited: the daemon's environment is whichever
/// terminal happened to start it, and its working directory is the root. Neither is what
/// somebody means by "open me a shell".
#[derive(Debug)]
pub struct RemoteOpenConfig {
    pub enabled: bool,
    /// The program and arguments to host, one by one. Never a line for a shell to take
    /// apart.
    pub shell: Vec<String>,
    /// Working directory. Empty means the home directory.
    pub cwd: String,
    pub max_terminals: u32,
}

impl Default for RemoteOpenConfig {
    /// Off: nothing is opened for anybody until somebody at this machine says so.
    fn default() -> (config: Self)
        ensures
            !config.enabled,
            config.shell@.len() == 0,
            config.cwd@.len() == 0,
            config.max_terminals == DEFAULT_MAX_TERMINALS,
    {
        Self {
            enabled: false,
            shell: Vec::new(),
            cwd: String::new(),
            max_terminals: DEFAULT_MAX_TERMINALS,
        }
    }
}

/// What this machine remembers.
#[derive(Debug)]
pub struct State {
    /// The relay's base address.
    pub relay_url: String,
    /// Seed of the identity key, base64url. Empty until the machine is enrolled.
    pub identity_seed: String,
    pub identity_id: String,
    /// Seed of this machine's publisher device key, base64url.
    pub device_seed: String,
    pub device_id: String,
    pub device_name: String,
    /// Whether, and how, this machine opens a terminal because a paired phone asked.
    pub remote_open: RemoteOpenConfig,
}

impl Default for State {
    fn default() -> (state: Self)
        ensures
            state.relay_url@.len() == 0,
            state.identity_seed@.len() == 0,
            state.identity_id@.len() == 0,
            state.device_seed@.len() == 0,
            state.device_id@.len() == 0,
            state.device_name@.len() == 0,
            !state.remote_open.enabled,
            state.remote_open.shell@.len() == 0,
            state.remote_open.cwd@.len() == 0,
            state.remote_open.max_terminals == DEFAULT_MAX_TERMINALS,
    {
        Self {
            relay_url: String::new(),
            identity_seed: String::new(),
            identity_id: String::new(),
            device_seed: String::new(),
            device_id: String::new(),
            device_name: String::new(),
            remote_open: RemoteOpenConfig::default(),
        }
    }
}

/// The key pair that a stored seed stands for, if it does.
pub open spec fn stored_key(seed: Seq<char>) -> Option<Seq<u8>> {
    match decoded(seed) {
        Some(bytes) => if bytes.len() == 32 {
            Some(bytes)
        } else {
            None
        },
        None => None,
    }
}

fn read_key(seed: &str) -> (key: Option<KeyPair>)
    ensures
        option_view(key) == stored_key(seed@),
{
    match b64_decode(seed) {
        Some(bytes) => KeyPair::from_seed(bytes.as_slice()),
        None => None,
    }
}

impl State {
    pub fn identity_key(&self) -> (key: Option<KeyPair>)
        ensures
            option_view(key) == stored_key(self.identity_seed@),
    {
        read_key(self.identity_seed.as_str())
    }

    pub fn device_key(&self) -> (key: Option<KeyPair>)
        ensures
            option_view(key) == stored_key(self.device_seed@),
    {
        read_key(self.device_seed.as_str())
    }

    /// Remember the identity key. Reading it back gives the same key, and the identity's
    /// ID is its fingerprint.
    pub fn set_identity_key(&mut self, key: &KeyPair)
        ensures
            final(self).identity_seed@ == base64url(key@),
            stored_key(final(self).identity_seed@) == Some(key@),
            final(self).identity_id@ == fingerprint_text(
                ALGORITHM_ED25519@,
                ed25519_public_key(key@),
            ),
            *final(self) == (State {
                identity_seed: final(self).identity_seed,
                identity_id: final(self).identity_id,
                ..*old(self)
            }),
    {
        let seed = key.seed();
        assert(seed@.len() == 32);
        self.identity_seed = b64_encode(&seed);
        self.identity_id = key.fingerprint();
    }

    /// Remember the device key. Reading it back gives the same key.
    pub fn set_device_key(&mut self, key: &KeyPair)
        ensures
            final(self).device_seed@ == base64url(key@),
            stored_key(final(self).device_seed@) == Some(key@),
            *final(self) == (State { device_seed: final(self).device_seed, ..*old(self) }),
    {
        let seed = key.seed();
        assert(seed@.len() == 32);
        self.device_seed = b64_encode(&seed);
    }
}

/// The directory that a user's configuration is kept in. `config_home` is the variable
/// that names it, which elsewhere than on Windows counts only if it is not empty, and may
/// be left to the home directory.
pub open spec fn config_dir(
    system: System,
    config_home: Option<Seq<char>>,
    home: Option<Seq<char>>,
) -> Seq<char> {
    match (system, config_home, home) {
        (System::Windows, Some(dir), _) => dir,
        (System::Windows, None, _) => "."@,
        (System::Unix, Some(dir), _) if dir.len() > 0 => dir,
        (System::Unix, _, Some(home)) => joined(system, home, ".config"@),
        (System::Unix, _, None) => "."@,
    }
}

/// Where the state is kept unless the caller says otherwise.
pub open spec fn state_path(
    system: System,
    explicit: Option<Seq<char>>,
    config_home: Option<Seq<char>>,
    home: Option<Seq<char>>,
) -> Seq<char> {
    if explicit is Some && trimmed(explicit->0).len() > 0 {
        explicit->0
    } else {
        let base = config_dir(system, config_home, home);
        joined(system, joined(system, base, "hypeterm"@), "publisher.json"@)
    }
}

/// Where the state is kept: the explicit path first, so that a service can be pointed
/// elsewhere, then the user's configuration directory.
pub fn default_path(
    system: System,
    explicit: &Option<String>,
    config_home: &Option<String>,
    home: &Option<String>,
) -> (path: String)
    ensures
        path@ == state_path(
            system,
            option_view(*explicit),
            option_view(*config_home),
            option_view(*home),
        ),
{
    match explicit {
        Some(path) => {
            let rest = text::trim(path.as_str());
            if !rest.as_str().is_empty() {
                return path.as_str().to_owned();
            }
        },
        None => {},
    }
    let fallback = match (system, home) {
        (System::Unix, Some(home)) => join(system, home.as_str(), ".config"),
        _ => ".".to_owned(),
    };
    let base = match config_home {
        Some(config) => if matches!(system, System::Unix) && config.as_str().is_empty() {
            fallback
        } else {
            config.as_str().to_owned()
        },
        None => fallback,
    };
    join(system, join(system, base.as_str(), "hypeterm").as_str(), "publisher.json")
}

/// Refuses a state file that anybody but its owner can touch: it holds two private keys.
/// `mode` is its permission bits.
pub fn check_permissions(path: &str, mode: u32) -> (result: Result<(), StateError>)
    ensures
        match result {
            Ok(()) => mode % 64 == 0,
            Err(error) => mode % 64 != 0 && error@ == StateError::Permissions(path@),
        },
{
    if mode % 64 != 0 {
        return Err(StateError::Permissions(path.to_owned()));
    }
    Ok(())
}

} // verus!
