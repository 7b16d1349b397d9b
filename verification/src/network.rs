//! The client's side of the connection: login state machine, reconnect
//! policy, clock correction and snapshot cell.
//!
//! A background task owns the socket; the update loop and the task share
//! one `Network` value. The update loop enqueues requests on the outbound
//! queue; the task feeds every received response through
//! [`Network::handle_response`], which is the only writer of the login
//! state, and hands back an action for the things only the host process
//! can do (persist the adopted id, open a browser).

use vstd::prelude::*;

use crossbeam::channel::{Receiver, Sender};

use crate::channel::{channel_send, channel_try_recv, new_channel, RecvAttempt};
use crate::ids::InstallationId;
use crate::protocol::{
    profile_seq_view, RequestView, ResponseView, ServerRequest, ServerResponse, UserProfile,
    UserProfileView,
};
use crate::spec_protocol_version;

verus! {

/// How long the supervisor waits after a failed connection attempt
/// before trying again, in microseconds.
pub const RECONNECT_DELAY_MICROS: u64 = 100_000;

/// Where the client stands with the server.
#[derive(Debug)]
pub enum LoginState {
    /// Nothing established yet.
    LoggedOut,
    /// The server knows this installation; no account is linked.
    Connected,
    /// The installation is linked to this account.
    Authenticated { profile: UserProfile },
    /// The last exchange failed; shown to the user, retried forever.
    Error { message: Option<String> },
}

/// Mathematical image of a [`LoginState`].
pub enum LoginStateView {
    LoggedOut,
    Connected,
    Authenticated { profile: UserProfileView },
    Error { message: Option<Seq<char>> },
}

impl View for LoginState {
    type V = LoginStateView;

    open spec fn view(&self) -> LoginStateView {
        match self {
            LoginState::LoggedOut => LoginStateView::LoggedOut,
            LoginState::Connected => LoginStateView::Connected,
            LoginState::Authenticated { profile } => LoginStateView::Authenticated {
                profile: profile@,
            },
            LoginState::Error { message } => LoginStateView::Error {
                message: match message {
                    Some(m) => Some(m@),
                    None => None,
                },
            },
        }
    }
}

impl LoginState {
    /// A structural copy, taken so readers never hold the shared value.
    pub fn duplicate(&self) -> (r: LoginState)
        ensures
            r@ == self@,
    {
        match self {
            LoginState::LoggedOut => LoginState::LoggedOut,
            LoginState::Connected => LoginState::Connected,
            LoginState::Authenticated { profile } => LoginState::Authenticated {
                profile: profile.duplicate(),
            },
            LoginState::Error { message } => LoginState::Error {
                message: match message {
                    Some(m) => Some(m.clone()),
                    None => None,
                },
            },
        }
    }
}

/// What the host process must do after a response was applied; everything
/// else already happened inside the library.
#[derive(Debug)]
pub enum ClientAction {
    /// Nothing left to do.
    Idle,
    /// Store this adopted id so later connections replay it.
    PersistInstallationId { installation_id: InstallationId },
    /// Show the login page at this address.
    OpenUrl { url: String },
}

/// Mathematical image of a [`ClientAction`].
pub enum ClientActionView {
    Idle,
    PersistInstallationId { installation_id: InstallationId },
    OpenUrl { url: Seq<char> },
}

impl View for ClientAction {
    type V = ClientActionView;

    open spec fn view(&self) -> ClientActionView {
        match self {
            ClientAction::Idle => ClientActionView::Idle,
            ClientAction::PersistInstallationId { installation_id } => {
                ClientActionView::PersistInstallationId { installation_id: *installation_id }
            },
            ClientAction::OpenUrl { url } => ClientActionView::OpenUrl { url: url@ },
        }
    }
}

/// The client's shared network state.
pub struct Network {
    /// Where the client stands; written only by [`Network::handle_response`].
    pub login_state: LoginState,
    /// The stored identity, replayed on every reconnect once adopted.
    pub installation_id: Option<InstallationId>,
    /// Outbound queue, update loop towards socket task.
    pub sender: Sender<ServerRequest>,
    /// The socket task's end of the outbound queue.
    pub receiver: Receiver<ServerRequest>,
    /// Latest rolling round-trip estimate received, in microseconds.
    pub roundtrip: u64,
    /// Latest server-minus-client clock delta received, in microseconds.
    pub server_timestamp_delta: i64,
    /// Timestamp of the retained snapshot, already clock-corrected.
    pub world_timestamp: i64,
    /// The single most recent unconsumed snapshot, if any.
    pub profiles: Option<Vec<UserProfile>>,
}

/// Mathematical image of a [`Network`], channels aside.
pub struct NetworkView {
    pub login_state: LoginStateView,
    pub installation_id: Option<InstallationId>,
    pub roundtrip: u64,
    pub server_timestamp_delta: i64,
    pub world_timestamp: i64,
    pub profiles: Option<Seq<UserProfileView>>,
}

impl View for Network {
    type V = NetworkView;

    open spec fn view(&self) -> NetworkView {
        NetworkView {
            login_state: self.login_state@,
            installation_id: self.installation_id,
            roundtrip: self.roundtrip,
            server_timestamp_delta: self.server_timestamp_delta,
            world_timestamp: self.world_timestamp,
            profiles: match self.profiles {
                Some(ref ps) => Some(profile_seq_view(ps@)),
                None => None,
            },
        }
    }
}

/// Difference clamped into the `i64` range.
pub open spec fn spec_sat_sub(a: i64, b: i64) -> i64 {
    if a - b < i64::MIN {
        i64::MIN
    } else if a - b > i64::MAX {
        i64::MAX
    } else {
        (a - b) as i64
    }
}

/// `a - b`, clamped instead of wrapping: a snapshot timestamp corrected
/// by an extreme clock delta saturates rather than overflowing.
pub fn sat_sub(a: i64, b: i64) -> (r: i64)
    ensures
        r == spec_sat_sub(a, b),
{
    let wide = a as i128 - b as i128;
    if wide < i64::MIN as i128 {
        i64::MIN
    } else if wide > i64::MAX as i128 {
        i64::MAX
    } else {
        wide as i64
    }
}

/// The state [`Network::handle_response`] leaves behind: each response
/// kind touches exactly the fields it is about.
pub open spec fn spec_apply_response(pre: NetworkView, response: ResponseView, now: i64) -> NetworkView {
    match response {
        ResponseView::Error { message } => NetworkView {
            login_state: LoginStateView::Error { message },
            ..pre
        },
        ResponseView::AdoptInstallationId { installation_id } => NetworkView {
            login_state: LoginStateView::Connected,
            installation_id: Some(installation_id),
            ..pre
        },
        ResponseView::Authenticated { profile } => NetworkView {
            login_state: LoginStateView::Authenticated { profile },
            ..pre
        },
        ResponseView::AuthenticateAtUrl { url: _ } => pre,
        ResponseView::WorldUpdate { timestamp, profiles } => NetworkView {
            world_timestamp: spec_sat_sub(timestamp, pre.server_timestamp_delta),
            profiles: Some(profiles),
            ..pre
        },
        ResponseView::Ping { timestamp: _, average_server_timestamp_delta, average_roundtrip } => NetworkView {
            server_timestamp_delta: average_server_timestamp_delta,
            roundtrip: average_roundtrip,
            ..pre
        },
    }
}

/// The action each response kind leaves for the host process.
pub open spec fn spec_response_action(response: ResponseView) -> ClientActionView {
    match response {
        ResponseView::AdoptInstallationId { installation_id } => {
            ClientActionView::PersistInstallationId { installation_id }
        },
        ResponseView::AuthenticateAtUrl { url } => ClientActionView::OpenUrl { url },
        _ => ClientActionView::Idle,
    }
}

/// The reply each response kind puts on the outbound queue: only a
/// `Ping` is answered, with a `Pong` echoing its timestamp beside the
/// client clock.
pub open spec fn spec_response_echo(response: ResponseView, now: i64) -> Option<RequestView> {
    match response {
        ResponseView::Ping { timestamp, .. } => Some(
            RequestView::Pong { original_timestamp: timestamp, timestamp: now },
        ),
        _ => None,
    }
}

impl Network {
    /// Fresh client state carrying the installation id loaded from disk,
    /// if one was ever adopted.
    pub fn new(installation_id: Option<InstallationId>) -> (r: Network)
        ensures
            r@.login_state == LoginStateView::LoggedOut,
            r@.installation_id == installation_id,
            r@.roundtrip == 0u64,
            r@.server_timestamp_delta == 0i64,
            r@.world_timestamp == 0i64,
            r@.profiles is None,
    {
        let (sender, receiver) = new_channel();
        Network {
            login_state: LoginState::LoggedOut,
            installation_id,
            sender,
            receiver,
            roundtrip: 0,
            server_timestamp_delta: 0,
            world_timestamp: 0,
            profiles: None,
        }
    }

    /// A copy of the login state, for the render loop to read without
    /// holding anything.
    pub fn login_state(&self) -> (r: LoginState)
        ensures
            r@ == self@.login_state,
    {
        self.login_state.duplicate()
    }

    /// Enqueues a request towards the socket task, best-effort.
    pub fn request(&self, request: ServerRequest) -> (queued: bool) {
        channel_send(&self.sender, request)
    }

    /// The latest rolling round-trip estimate, for the ping display.
    pub fn ping(&self) -> (r: u64)
        ensures
            r == self@.roundtrip,
    {
        self.roundtrip
    }

    /// Takes the single most recent unconsumed snapshot, leaving none:
    /// older snapshots were already overwritten, never queued.
    pub fn last_world_update(&mut self) -> (r: Option<(i64, Vec<UserProfile>)>)
        ensures
            final(self).sender == old(self).sender,
            final(self).receiver == old(self).receiver,
            final(self)@.profiles is None,
            final(self)@ == (NetworkView { profiles: None, ..old(self)@ }),
            match r {
                Some(taken) => old(self)@.profiles == Some(profile_seq_view(taken.1@))
                    && taken.0 == old(self)@.world_timestamp,
                None => old(self)@.profiles is None,
            },
    {
        let taken = self.profiles.take();
        match taken {
            Some(ps) => Some((self.world_timestamp, ps)),
            None => None,
        }
    }

    /// Applies one received response to the shared state and reports
    /// what is left for the host process to do. A `Ping` is answered at
    /// once with a `Pong` on the outbound queue, echoing the server's
    /// timestamp beside our clock reading `now`; the reply placed there
    /// is also returned, so callers can see exactly what went out.
    pub fn handle_response(&mut self, response: ServerResponse, now: i64) -> (r: (
        ClientAction,
        Option<ServerRequest>,
    ))
        ensures
            final(self).sender == old(self).sender,
            final(self).receiver == old(self).receiver,
            final(self)@ == spec_apply_response(old(self)@, response@, now),
            r.0@ == spec_response_action(response@),
            match r.1 {
                Some(echo) => spec_response_echo(response@, now) == Some(echo@),
                None => spec_response_echo(response@, now) is None,
            },
    {
        match response {
            ServerResponse::Error { message } => {
                self.login_state = LoginState::Error { message };
                (ClientAction::Idle, None)
            },
            ServerResponse::AdoptInstallationId { installation_id } => {
                self.installation_id = Some(installation_id);
                self.login_state = LoginState::Connected;
                (ClientAction::PersistInstallationId { installation_id }, None)
            },
            ServerResponse::Authenticated { profile } => {
                self.login_state = LoginState::Authenticated { profile };
                (ClientAction::Idle, None)
            },
            ServerResponse::AuthenticateAtUrl { url } => (ClientAction::OpenUrl { url }, None),
            ServerResponse::WorldUpdate { timestamp, profiles } => {
                self.world_timestamp = sat_sub(timestamp, self.server_timestamp_delta);
                self.profiles = Some(profiles);
                (ClientAction::Idle, None)
            },
            ServerResponse::Ping { timestamp, average_server_timestamp_delta, average_roundtrip } => {
                self.server_timestamp_delta = average_server_timestamp_delta;
                self.roundtrip = average_roundtrip;
                let reply = ServerRequest::Pong { original_timestamp: timestamp, timestamp: now };
                let _queued = channel_send(&self.sender, reply.duplicate());
                (ClientAction::Idle, Some(reply))
            },
        }
    }

    /// The supervisor failed to connect: shows the degraded state and
    /// says how long to wait before the next attempt. The stored
    /// installation id is untouched, so the retry replays it.
    pub fn on_connect_failed(&mut self) -> (delay_micros: u64)
        ensures
            final(self).sender == old(self).sender,
            final(self).receiver == old(self).receiver,
            final(self)@ == (NetworkView {
                login_state: LoginStateView::Error { message: None },
                ..old(self)@
            }),
            delay_micros == RECONNECT_DELAY_MICROS,
    {
        self.login_state = LoginState::Error { message: None };
        RECONNECT_DELAY_MICROS
    }

    /// The supervisor established a fresh connection: builds and
    /// enqueues the authenticate handshake, replaying the stored
    /// installation id — never inventing one — with the protocol
    /// version. Returns the request that was enqueued.
    pub fn on_connected(&mut self) -> (r: ServerRequest)
        ensures
            *final(self) == *old(self),
            r@ == (RequestView::Authenticate {
                version: spec_protocol_version(),
                installation_id: old(self)@.installation_id,
            }),
    {
        let request = ServerRequest::Authenticate {
            version: crate::protocol_version().to_owned(),
            installation_id: self.installation_id,
        };
        let _queued = channel_send(&self.sender, request.duplicate());
        request
    }

    /// Drains the outbound queue for the socket task: the requests
    /// waiting right now, oldest first, and whether the queue's sending
    /// side is gone, which tears the connection down. At most a fixed
    /// batch is taken per call, so one call always returns.
    pub fn drain_outgoing(&self) -> (r: (Vec<ServerRequest>, bool)) {
        let mut drained: Vec<ServerRequest> = Vec::new();
        let mut disconnected = false;
        let mut done = false;
        let mut budget: usize = 4096;
        while !done && budget > 0
            invariant
                budget <= 4096,
            decreases budget,
        {
            budget = budget - 1;
            match channel_try_recv(&self.receiver) {
                RecvAttempt::Received(request) => {
                    drained.push(request);
                },
                RecvAttempt::Empty => {
                    done = true;
                },
                RecvAttempt::Disconnected => {
                    disconnected = true;
                    done = true;
                },
            }
        }
        (drained, disconnected)
    }
}

} // verus!
