use vstd::prelude::*;

use crate::server::WhitelistEntry;

verus! {

/// The game version that this server speaks.
pub const MC_VERSION: &'static str = "1.20.4";

/// The data version of saved worlds.
pub const MC_DATA_VERSION: i32 = 3700;

/// The protocol version that a client must use to log in.
pub const PROTOCOL_VERSION: i32 = 765;

/// Why a client with another protocol version is turned away.
pub const MSG_VERSION_MISMATCH: &'static str = "Version mismatch, I'm on 1.20.4!";

/// Why a client that is not on the whitelist is turned away.
pub const MSG_NOT_WHITELISTED: &'static str = "You are not whitelisted on this server";

/// The channel on which the proxy forwards player data.
pub const FORWARDING_CHANNEL: &'static str = "velocity:player_info";

/// Packets larger than this many bytes are compressed once logged in.
pub const COMPRESSION_THRESHOLD: i32 = 256;

/// Length of the HMAC-SHA256 signature in front of forwarded data.
pub const SIGNATURE_LEN: usize = 32;

/// The stages of a connection.
#[derive(Clone, Copy, Debug, PartialEq, Eq, Structural)]
pub enum NetworkState {
    Handshaking,
    Status,
    Login,
    Configuration,
    Play,
}

/// What a handshake leads to.
#[derive(Clone, Copy, Debug, PartialEq, Eq, Structural)]
pub enum HandshakeOutcome {
    /// Move to the given state.
    Next(NetworkState),
    /// Send `MSG_VERSION_MISMATCH` and close the connection.
    VersionMismatch,
    /// An unknown next state: ignore the packet.
    Ignored,
}

/// Where a login goes after its start packet.
#[derive(Clone, Copy, Debug, PartialEq, Eq, Structural)]
pub enum LoginStep {
    /// Ask the proxy for the player's data with this message id, and wait.
    AwaitForwarding { message_id: i32 },
    /// Finish the login now.
    Complete,
}

/// Why forwarded player data was refused.
#[derive(Clone, Copy, Debug, PartialEq, Eq, Structural)]
pub enum ForwardingError {
    /// The response answers no request of this connection.
    UnknownMessageId,
    /// The client did not understand the forwarding channel.
    NotUnderstood,
    /// The data is too short to hold a signature.
    Malformed,
    /// The signature does not match the shared secret.
    BadSignature,
}

/// The HMAC-SHA256 tag of `msg` under `key`.
pub uninterp spec fn hmac_sha256_of(key: Seq<u8>, msg: Seq<u8>) -> Seq<u8>;

/// Relies on `hmac::Mac::verify_slice` for `Hmac<Sha256>` (keys of any length
/// are accepted): the tag is accepted exactly when it equals the HMAC-SHA256
/// of `msg` under `key`, which is 32 bytes long.
#[verifier::external_body]
fn hmac_sha256_verify(key: &[u8], msg: &[u8], tag: &[u8]) -> (r: bool)
    ensures
        r == (tag@ == hmac_sha256_of(key@, msg@)),
        r ==> tag@.len() == SIGNATURE_LEN,
{
    match <hmac::Hmac<sha2::Sha256> as hmac::Mac>::new_from_slice(key) {
        Ok(mut mac) => {
            hmac::Mac::update(&mut mac, msg);
            hmac::Mac::verify_slice(mac, tag).is_ok()
        },
        Err(_) => false,
    }
}

/// Relies on `rand::random::<i32>`: any value may come back.
#[verifier::external_body]
fn random_message_id() -> (r: i32) {
    rand::random::<i32>()
}

/// Where a handshake leads: `1` asks for the status, `2` logs in, which needs
/// the server's protocol version.
pub fn handle_handshake(next_state: i32, protocol_version: i32) -> (r: HandshakeOutcome)
    ensures
        next_state == 1 ==> r == HandshakeOutcome::Next(NetworkState::Status),
        next_state == 2 && protocol_version == PROTOCOL_VERSION ==> r == HandshakeOutcome::Next(NetworkState::Login),
        next_state == 2 && protocol_version != PROTOCOL_VERSION ==> r == HandshakeOutcome::VersionMismatch,
        next_state != 1 && next_state != 2 ==> r == HandshakeOutcome::Ignored,
{
    if next_state == 1 {
        HandshakeOutcome::Next(NetworkState::Status)
    } else if next_state == 2 {
        if protocol_version == PROTOCOL_VERSION {
            HandshakeOutcome::Next(NetworkState::Login)
        } else {
            HandshakeOutcome::VersionMismatch
        }
    } else {
        HandshakeOutcome::Ignored
    }
}

/// Whether a whitelist lets a player in: one known by uuid (from the proxy)
/// must be listed by uuid, any other by name.
pub open spec fn listed(w: Seq<WhitelistEntry>, uuid: Option<u128>, username: Seq<char>) -> bool {
    match uuid {
        Some(u) => exists|i: int| 0 <= i < w.len() && (#[trigger] w[i]).uuid == u,
        None => exists|i: int| 0 <= i < w.len() && (#[trigger] w[i]).name@ == username,
    }
}

/// The state of one connection that is logging in.
pub struct LoginSession {
    pub state: NetworkState,
    pub username: Option<String>,
    pub uuid: Option<u128>,
    pub forwarding_message_id: Option<i32>,
    pub compressed: bool,
}

impl LoginSession {
    /// A connection that has just opened.
    pub fn new() -> (r: LoginSession)
        ensures
            r.state == NetworkState::Handshaking,
            r.username.is_none(),
            r.uuid.is_none(),
            r.forwarding_message_id.is_none(),
            !r.compressed,
    {
        LoginSession {
            state: NetworkState::Handshaking,
            username: None,
            uuid: None,
            forwarding_message_id: None,
            compressed: false,
        }
    }

    /// The client sent its name. With proxy forwarding on, a request with a
    /// fresh random id goes out and the login waits for the answer; otherwise it
    /// completes.
    pub fn handle_login_start(&mut self, username: String, forwarding: bool) -> (r: LoginStep)
        ensures
            final(self).username == Some(username),
            forwarding ==> (r matches LoginStep::AwaitForwarding { message_id } && final(self).forwarding_message_id == Some(message_id)),
            !forwarding ==> r == LoginStep::Complete && final(self).forwarding_message_id == old(self).forwarding_message_id,
            final(self).uuid == old(self).uuid,
            final(self).state == old(self).state,
            final(self).compressed == old(self).compressed,
    {
        self.username = Some(username);
        if forwarding {
            let message_id = random_message_id();
            self.forwarding_message_id = Some(message_id);
            LoginStep::AwaitForwarding { message_id }
        } else {
            LoginStep::Complete
        }
    }

    /// Checks the proxy's answer to the forwarding request: it must answer this
    /// connection's request, be understood, hold a signature, and carry the
    /// HMAC-SHA256 of the rest of the data under `secret` as that signature.
    pub fn check_forwarding(&self, message_id: i32, successful: bool, data: &[u8], secret: &[u8]) -> (r: Result<(), ForwardingError>)
        ensures
            self.forwarding_message_id != Some(message_id) ==> r == Err::<(), ForwardingError>(ForwardingError::UnknownMessageId),
            self.forwarding_message_id == Some(message_id) && !successful ==> r == Err::<(), ForwardingError>(ForwardingError::NotUnderstood),
            self.forwarding_message_id == Some(message_id) && successful && data@.len() < SIGNATURE_LEN ==> r == Err::<(), ForwardingError>(ForwardingError::Malformed),
            self.forwarding_message_id == Some(message_id) && successful && data@.len() >= SIGNATURE_LEN ==> (r is Ok <==> data@.subrange(0, SIGNATURE_LEN as int)
                == hmac_sha256_of(secret@, data@.subrange(SIGNATURE_LEN as int, data@.len() as int))),
            r is Err ==> r == Err::<(), ForwardingError>(ForwardingError::UnknownMessageId) || r == Err::<(), ForwardingError>(ForwardingError::NotUnderstood)
                || r == Err::<(), ForwardingError>(ForwardingError::Malformed) || r == Err::<(), ForwardingError>(ForwardingError::BadSignature),
    {
        match self.forwarding_message_id {
            Some(id) => {
                if id != message_id {
                    return Err(ForwardingError::UnknownMessageId);
                }
            },
            None => {
                return Err(ForwardingError::UnknownMessageId);
            },
        }
        if !successful {
            return Err(ForwardingError::NotUnderstood);
        }
        if data.len() < SIGNATURE_LEN {
            return Err(ForwardingError::Malformed);
        }
        let tag = slice_range(data, 0, SIGNATURE_LEN);
        let payload = slice_range(data, SIGNATURE_LEN, data.len());
        if hmac_sha256_verify(secret, payload.as_slice(), tag.as_slice()) {
            Ok(())
        } else {
            Err(ForwardingError::BadSignature)
        }
    }

    /// Finishes a login: compression is switched on, the uuid is the one the
    /// proxy gave or else `offline_uuid`, and the result says whether the
    /// whitelist lets the player in.
    pub fn complete_login(&mut self, whitelist: &Option<Vec<WhitelistEntry>>, offline_uuid: u128) -> (allowed: bool)
        requires
            old(self).username.is_some(),
        ensures
            final(self).compressed,
            final(self).uuid == Some(match old(self).uuid {
                Some(u) => u,
                None => offline_uuid,
            }),
            allowed == match *whitelist {
                None => true,
                Some(w) => listed(w@, old(self).uuid, old(self).username.unwrap()@),
            },
            final(self).username == old(self).username,
            final(self).state == old(self).state,
            final(self).forwarding_message_id == old(self).forwarding_message_id,
    {
        let known = self.uuid;
        let allowed = match whitelist {
            None => true,
            Some(w) => {
                let mut found = false;
                let mut i: usize = 0;
                while i < w.len()
                    invariant
                        0 <= i <= w@.len(),
                        self.username == old(self).username,
                        known == old(self).uuid,
                        old(self).username.is_some(),
                        found == match known {
                            Some(u) => exists|j: int| 0 <= j < i && (#[trigger] w@[j]).uuid == u,
                            None => exists|j: int| 0 <= j < i && (#[trigger] w@[j]).name@ == old(self).username.unwrap()@,
                        },
                    decreases w@.len() - i,
                {
                    let hit = match known {
                        Some(u) => w[i].uuid == u,
                        None => match &self.username {
                            Some(name) => w[i].name == *name,
                            None => false,
                        },
                    };
                    if hit {
                        found = true;
                    }
                    i += 1;
                }
                proof {
                    assert(i == w@.len());
                    match known {
                        Some(u) => {
                            assert(found == exists|j: int| 0 <= j < w@.len() && (#[trigger] w@[j]).uuid == u);
                        },
                        None => {
                            assert(found == exists|j: int| 0 <= j < w@.len() && (#[trigger] w@[j]).name@ == old(self).username.unwrap()@);
                        },
                    }
                }
                found
            },
        };

        self.compressed = true;
        if self.uuid.is_none() {
            self.uuid = Some(offline_uuid);
        }
        allowed
    }
}

/// A copy of `data[start..end]`.
fn slice_range(data: &[u8], start: usize, end: usize) -> (r: Vec<u8>)
    requires
        start <= end <= data@.len(),
    ensures
        r@ == data@.subrange(start as int, end as int),
{
    let mut r: Vec<u8> = Vec::new();
    let mut i = start;
    while i < end
        invariant
            start <= i <= end,
            end <= data@.len(),
            r@ == data@.subrange(start as int, i as int),
        decreases end - i,
    {
        r.push(data[i]);
        i += 1;
        assert(r@ =~= data@.subrange(start as int, i as int));
    }
    r
}

} // verus!
