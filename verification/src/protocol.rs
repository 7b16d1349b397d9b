//! The wire protocol's data model: the closed request and response unions
//! carried over the socket, and the profile record they speak about.
//!
//! Positions are fixed-point integers ("position units"), timestamps are
//! microseconds since an arbitrary epoch, and a horizontal input is one of
//! -1, 0 and 1. Each type with heap contents has a mathematical view used
//! by every contract.

use vstd::prelude::*;

use crate::ids::{AccountId, InstallationId};

verus! {

/// The controls a client reports for its player.
#[derive(Clone, Copy, PartialEq, Eq, Structural, Debug)]
pub struct Inputs {
    /// -1 while walking left, 1 while walking right, 0 at rest.
    pub horizontal_movement: i64,
    pub interact: bool,
}

/// Authoritative per-account state, owned by the server and mirrored
/// read-only on clients.
#[derive(Debug)]
pub struct UserProfile {
    pub id: AccountId,
    pub username: String,
    /// Horizontal position in position units.
    pub x_offset: i64,
    /// Last reported horizontal input: -1, 0 or 1.
    pub horizontal_input: i64,
    /// When the server last advanced this profile, in microseconds.
    pub last_update_timestamp: Option<i64>,
}

/// Mathematical image of a [`UserProfile`].
pub struct UserProfileView {
    pub id: i64,
    pub username: Seq<char>,
    pub x_offset: i64,
    pub horizontal_input: i64,
    pub last_update_timestamp: Option<i64>,
}

impl View for UserProfile {
    type V = UserProfileView;

    open spec fn view(&self) -> UserProfileView {
        UserProfileView {
            id: self.id,
            username: self.username@,
            x_offset: self.x_offset,
            horizontal_input: self.horizontal_input,
            last_update_timestamp: self.last_update_timestamp,
        }
    }
}

/// The views of a sequence of profiles, in order.
pub open spec fn profile_seq_view(s: Seq<UserProfile>) -> Seq<UserProfileView> {
    s.map_values(|p: UserProfile| p@)
}

impl UserProfile {
    /// A field-for-field copy.
    pub fn duplicate(&self) -> (r: UserProfile)
        ensures
            r@ == self@,
    {
        UserProfile {
            id: self.id,
            username: self.username.clone(),
            x_offset: self.x_offset,
            horizontal_input: self.horizontal_input,
            last_update_timestamp: self.last_update_timestamp,
        }
    }
}

/// Copies every profile in order.
pub fn duplicate_profiles(profiles: &Vec<UserProfile>) -> (r: Vec<UserProfile>)
    ensures
        profile_seq_view(r@) == profile_seq_view(profiles@),
{
    let mut out: Vec<UserProfile> = Vec::new();
    let mut i: usize = 0;
    while i < profiles.len()
        invariant
            i <= profiles.len(),
            out@.len() == i,
            forall|j: int| 0 <= j < i ==> out@[j]@ == profiles@[j]@,
        decreases profiles.len() - i,
    {
        out.push(profiles[i].duplicate());
        i = i + 1;
    }
    proof {
        assert(profile_seq_view(out@) =~= profile_seq_view(profiles@));
    }
    out
}

/// Everything a client may say to the server.
#[derive(Debug)]
pub enum ServerRequest {
    /// First message on every fresh connection: the protocol version and
    /// the stored installation id, if one was ever adopted.
    Authenticate { version: String, installation_id: Option<InstallationId> },
    /// Ask for a login link to upgrade this installation to an account.
    AuthenticationUrl,
    /// Rate-limited report of the player's inputs and position.
    Update { new_inputs: Option<Inputs>, x_offset: i64, timestamp: i64 },
    /// Immediate reply to a `Ping`.
    Pong { original_timestamp: i64, timestamp: i64 },
}

/// Mathematical image of a [`ServerRequest`].
pub enum RequestView {
    Authenticate { version: Seq<char>, installation_id: Option<InstallationId> },
    AuthenticationUrl,
    Update { new_inputs: Option<Inputs>, x_offset: i64, timestamp: i64 },
    Pong { original_timestamp: i64, timestamp: i64 },
}

impl View for ServerRequest {
    type V = RequestView;

    open spec fn view(&self) -> RequestView {
        match self {
            ServerRequest::Authenticate { version, installation_id } => {
                RequestView::Authenticate {
                    version: version@,
                    installation_id: *installation_id,
                }
            },
            ServerRequest::AuthenticationUrl => RequestView::AuthenticationUrl,
            ServerRequest::Update { new_inputs, x_offset, timestamp } => {
                RequestView::Update {
                    new_inputs: *new_inputs,
                    x_offset: *x_offset,
                    timestamp: *timestamp,
                }
            },
            ServerRequest::Pong { original_timestamp, timestamp } => {
                RequestView::Pong {
                    original_timestamp: *original_timestamp,
                    timestamp: *timestamp,
                }
            },
        }
    }
}

impl ServerRequest {
    /// A structural copy.
    pub fn duplicate(&self) -> (r: ServerRequest)
        ensures
            r@ == self@,
    {
        match self {
            ServerRequest::Authenticate { version, installation_id } => {
                ServerRequest::Authenticate {
                    version: version.clone(),
                    installation_id: *installation_id,
                }
            },
            ServerRequest::AuthenticationUrl => ServerRequest::AuthenticationUrl,
            ServerRequest::Update { new_inputs, x_offset, timestamp } => {
                ServerRequest::Update {
                    new_inputs: *new_inputs,
                    x_offset: *x_offset,
                    timestamp: *timestamp,
                }
            },
            ServerRequest::Pong { original_timestamp, timestamp } => {
                ServerRequest::Pong {
                    original_timestamp: *original_timestamp,
                    timestamp: *timestamp,
                }
            },
        }
    }
}

/// Everything the server may say to a client.
#[derive(Debug)]
pub enum ServerResponse {
    /// A fresh identity for an installation that connected without one.
    AdoptInstallationId { installation_id: InstallationId },
    /// Where the user can log in to link this installation to an account.
    AuthenticateAtUrl { url: String },
    /// The installation is linked to this account.
    Authenticated { profile: UserProfile },
    /// The request was refused; the connection stays up.
    Error { message: Option<String> },
    /// A broadcast snapshot of every tracked profile.
    WorldUpdate { timestamp: i64, profiles: Vec<UserProfile> },
    /// Periodic clock probe carrying the server's rolling estimates.
    Ping { timestamp: i64, average_server_timestamp_delta: i64, average_roundtrip: u64 },
}

/// Mathematical image of a [`ServerResponse`].
pub enum ResponseView {
    AdoptInstallationId { installation_id: InstallationId },
    AuthenticateAtUrl { url: Seq<char> },
    Authenticated { profile: UserProfileView },
    Error { message: Option<Seq<char>> },
    WorldUpdate { timestamp: i64, profiles: Seq<UserProfileView> },
    Ping { timestamp: i64, average_server_timestamp_delta: i64, average_roundtrip: u64 },
}

impl View for ServerResponse {
    type V = ResponseView;

    open spec fn view(&self) -> ResponseView {
        match self {
            ServerResponse::AdoptInstallationId { installation_id } => {
                ResponseView::AdoptInstallationId { installation_id: *installation_id }
            },
            ServerResponse::AuthenticateAtUrl { url } => {
                ResponseView::AuthenticateAtUrl { url: url@ }
            },
            ServerResponse::Authenticated { profile } => {
                ResponseView::Authenticated { profile: profile@ }
            },
            ServerResponse::Error { message } => {
                ResponseView::Error {
                    message: match message {
                        Some(m) => Some(m@),
                        None => None,
                    },
                }
            },
            ServerResponse::WorldUpdate { timestamp, profiles } => {
                ResponseView::WorldUpdate {
                    timestamp: *timestamp,
                    profiles: profile_seq_view(profiles@),
                }
            },
            ServerResponse::Ping {
                timestamp,
                average_server_timestamp_delta,
                average_roundtrip,
            } => {
                ResponseView::Ping {
                    timestamp: *timestamp,
                    average_server_timestamp_delta: *average_server_timestamp_delta,
                    average_roundtrip: *average_roundtrip,
                }
            },
        }
    }
}

impl ServerResponse {
    /// A structural copy, used when one response fans out to several
    /// connections.
    pub fn duplicate(&self) -> (r: ServerResponse)
        ensures
            r@ == self@,
    {
        match self {
            ServerResponse::AdoptInstallationId { installation_id } => {
                ServerResponse::AdoptInstallationId { installation_id: *installation_id }
            },
            ServerResponse::AuthenticateAtUrl { url } => {
                ServerResponse::AuthenticateAtUrl { url: url.clone() }
            },
            ServerResponse::Authenticated { profile } => {
                ServerResponse::Authenticated { profile: profile.duplicate() }
            },
            ServerResponse::Error { message } => {
                ServerResponse::Error {
                    message: match message {
                        Some(m) => Some(m.clone()),
                        None => None,
                    },
                }
            },
            ServerResponse::WorldUpdate { timestamp, profiles } => {
                ServerResponse::WorldUpdate {
                    timestamp: *timestamp,
                    profiles: duplicate_profiles(profiles),
                }
            },
            ServerResponse::Ping {
                timestamp,
                average_server_timestamp_delta,
                average_roundtrip,
            } => {
                ServerResponse::Ping {
                    timestamp: *timestamp,
                    average_server_timestamp_delta: *average_server_timestamp_delta,
                    average_roundtrip: *average_roundtrip,
                }
            },
        }
    }
}

/// One row of the server's installation store: an installation and the
/// account it is linked to, if any.
#[derive(Debug)]
pub struct Installation {
    pub id: InstallationId,
    pub account_id: Option<AccountId>,
}

} // verus!
