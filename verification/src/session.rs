//! One server-side connection, from handshake to teardown.
//!
//! The socket task decodes each frame and calls in here; the database
//! sits between the two authentication phases, so the caller does the
//! lookup and hands its result to [`ConnectedClient::finish_authenticate`].
//! Teardown goes through [`ConnectedClient::release`], which the caller
//! runs on every exit path so the registry entry never outlives the
//! connection.

use vstd::prelude::*;

use crossbeam::channel::Sender;

use crate::channel::channel_send;
use crate::clock::{ClockStats, MAX_TIMESTAMP};
use crate::ids::InstallationId;
use crate::motion::MAX_POSITION;
use crate::protocol::{
    Inputs, Installation, ResponseView, ServerResponse, UserProfile, UserProfileView,
};
use crate::registry::ConnectedClients;
use crate::spec_protocol_version;

verus! {

/// The connection-scoped state: which installation spoke, once it has
/// authenticated.
pub struct ConnectedClient {
    pub installation_id: Option<InstallationId>,
}

impl Default for ConnectedClient {
    /// A connection that has not authenticated yet.
    fn default() -> (r: Self)
        ensures
            r.installation_id is None,
    {
        ConnectedClient { installation_id: None }
    }
}

impl ConnectedClient {
    /// First phase of the handshake. A mismatched protocol version is
    /// answered with an error and refused — never silently served. An
    /// installation that brought its stored id keeps it: `fresh_id` is
    /// adopted, and announced to the client, only when none was brought.
    /// Returns the identity the connection now speaks for — the caller
    /// looks it up and calls [`Self::finish_authenticate`] with the
    /// result — beside an echo of the reply handed to the responder
    /// channel, if one was.
    pub fn begin_authenticate(
        &mut self,
        version: &String,
        installation_id: Option<InstallationId>,
        fresh_id: InstallationId,
        responder: &Sender<ServerResponse>,
    ) -> (r: (Option<InstallationId>, Option<ServerResponse>))
        ensures
            version@ != spec_protocol_version() ==> (r.0 is None) && *final(self) == *old(self)
                && (r.1 matches Some(echo) && echo@ == (ResponseView::Error {
                message: Some("unsupported protocol version"@),
            })),
            version@ == spec_protocol_version() ==> r.0 == Some(
                match installation_id {
                    Some(id) => id,
                    None => fresh_id,
                },
            ) && final(self).installation_id == r.0 && (match installation_id {
                Some(_) => r.1 is None,
                None => r.1 matches Some(echo) && echo@ == (
                ResponseView::AdoptInstallationId { installation_id: fresh_id }),
            }),
    {
        let expected = crate::protocol_version().to_owned();
        if *version != expected {
            let refusal = ServerResponse::Error {
                message: Some("unsupported protocol version".to_owned()),
            };
            let _sent = channel_send(responder, refusal.duplicate());
            return (None, Some(refusal));
        }
        match installation_id {
            Some(id) => {
                self.installation_id = Some(id);
                (Some(id), None)
            },
            None => {
                let adoption = ServerResponse::AdoptInstallationId { installation_id: fresh_id };
                let _sent = channel_send(responder, adoption.duplicate());
                self.installation_id = Some(fresh_id);
                (Some(fresh_id), Some(adoption))
            },
        }
    }

    /// [`Self::begin_authenticate`] with a freshly generated identity on
    /// hand, for the caller with no opinion about ids: whatever the
    /// generator returns is adopted only when the client brought
    /// nothing, and a brought id always wins.
    pub fn begin_authenticate_fresh(
        &mut self,
        version: &String,
        installation_id: Option<InstallationId>,
        responder: &Sender<ServerResponse>,
    ) -> (r: (Option<InstallationId>, Option<ServerResponse>))
        ensures
            version@ != spec_protocol_version() ==> (r.0 is None) && *final(self) == *old(self)
                && (r.1 matches Some(echo) && echo@ == (ResponseView::Error {
                message: Some("unsupported protocol version"@),
            })),
            version@ == spec_protocol_version() ==> (r.0 is Some)
                && final(self).installation_id == r.0 && (match installation_id {
                Some(id) => r.0 == Some(id) && (r.1 is None),
                None => r.0 matches Some(chosen) && r.1 matches Some(echo) && echo@ == (
                ResponseView::AdoptInstallationId { installation_id: chosen }),
            }),
    {
        let fresh_id = crate::ids::fresh_installation_id();
        self.begin_authenticate(version, installation_id, fresh_id, responder)
    }

    /// Second phase of the handshake, after the installation store was
    /// consulted: registers the connection's channel and, when the store
    /// says the installation belongs to an account, links it and tells
    /// the client who it is.
    pub fn finish_authenticate(
        &mut self,
        registry: &mut ConnectedClients,
        record: Installation,
        profile: Option<UserProfile>,
        responder: Sender<ServerResponse>,
    )
        requires
            old(registry).wf(),
            old(self).installation_id == Some(record.id),
            match record.account_id {
                Some(a) => match profile {
                    Some(p) => p@.id == a,
                    None => false,
                },
                None => profile is None,
            },
        ensures
            *final(self) == *old(self),
            final(registry).wf(),
            final(registry).channels() == old(registry).channels().insert(record.id, responder),
            match record.account_id {
                Some(a) => final(registry).account_of() == old(registry).account_of().insert(
                    record.id,
                    a,
                ),
                None => final(registry).account_of() == old(registry).account_of(),
            },
    {
        registry.connect(record.id, responder);
        match record.account_id {
            Some(account_id) => {
                let linked = registry.associate_account(record.id, account_id);
                proof {
                    assert(linked);
                }
                match profile {
                    Some(p) => {
                        let _attempted = registry.send_to_installation_id(
                            record.id,
                            ServerResponse::Authenticated { profile: p },
                        );
                    },
                    None => {},
                }
            },
            None => {},
        }
    }

    /// Answers a login-link request: only a connection that already
    /// speaks for an installation gets the address. Returns whether the
    /// reply was handed to the channel.
    pub fn handle_auth_url(&self, url: String, responder: &Sender<ServerResponse>) -> (replied:
        bool)
        ensures
            replied == (self.installation_id is Some),
    {
        match self.installation_id {
            Some(_id) => {
                let _sent = channel_send(responder, ServerResponse::AuthenticateAtUrl { url });
                true
            },
            None => false,
        }
    }

    /// Connection teardown: takes the installation out of the registry,
    /// however the connection ended. Safe to run more than once — after
    /// the first time the session no longer speaks for anything.
    pub fn release(&mut self, registry: &mut ConnectedClients)
        requires
            old(registry).wf(),
        ensures
            final(self).installation_id is None,
            final(registry).wf(),
            match old(self).installation_id {
                Some(id) => final(registry).channels() == old(registry).channels().remove(id)
                    && final(registry).account_of() == old(registry).account_of().remove(id)
                    && final(registry).links() == old(registry).links_after_disconnect(id),
                None => *final(registry) == *old(registry),
            },
    {
        match self.installation_id {
            Some(id) => {
                registry.disconnect(id);
                self.installation_id = None;
            },
            None => {
                self.installation_id = None;
            },
        }
    }
}

/// What the server's copy of a profile looks like after one `Update`
/// report: the reported position pulled into the world band, the input
/// reduced to a direction, and the profile stamped with the server's
/// receipt time, so the broadcast tick measures elapsed walking time on
/// the server's clock alone.
pub open spec fn spec_profile_after_update(
    p: UserProfileView,
    new_inputs: Option<Inputs>,
    x_offset: i64,
    now: i64,
) -> UserProfileView {
    UserProfileView {
        x_offset: if x_offset < -MAX_POSITION {
            (-MAX_POSITION) as i64
        } else if x_offset > MAX_POSITION {
            MAX_POSITION
        } else {
            x_offset
        },
        horizontal_input: match new_inputs {
            Some(inputs) => if inputs.horizontal_movement < -1 {
                -1i64
            } else if inputs.horizontal_movement > 1 {
                1i64
            } else {
                inputs.horizontal_movement
            },
            None => p.horizontal_input,
        },
        last_update_timestamp: if 0 <= now <= MAX_TIMESTAMP {
            Some(now)
        } else {
            p.last_update_timestamp
        },
        ..p
    }
}

/// Applies one client `Update` report to the authoritative profile.
/// Everything in the report came off the wire, so it is clamped rather
/// than trusted; `now` is the server's receipt time — the report's own
/// timestamp stays with the message, so a skewed client clock cannot
/// stretch the next walking step.
pub fn handle_update(
    profile: &mut UserProfile,
    new_inputs: Option<Inputs>,
    x_offset: i64,
    now: i64,
)
    ensures
        final(profile)@ == spec_profile_after_update(old(profile)@, new_inputs, x_offset, now),
{
    profile.x_offset = if x_offset < -MAX_POSITION {
        -MAX_POSITION
    } else if x_offset > MAX_POSITION {
        MAX_POSITION
    } else {
        x_offset
    };
    match new_inputs {
        Some(inputs) => {
            profile.horizontal_input = if inputs.horizontal_movement < -1 {
                -1
            } else if inputs.horizontal_movement > 1 {
                1
            } else {
                inputs.horizontal_movement
            };
        },
        None => {},
    }
    if 0 <= now && now <= MAX_TIMESTAMP {
        profile.last_update_timestamp = Some(now);
    }
}

/// Folds one client `Pong` into the clock statistics, if its timestamps
/// are plausible; an implausible reply is dropped as malformed, never
/// fatal. Returns whether the sample was taken.
pub fn handle_pong(
    clock: &mut ClockStats,
    original_timestamp: i64,
    client_timestamp: i64,
    now: i64,
) -> (accepted: bool)
    requires
        old(clock).wf(),
    ensures
        final(clock).wf(),
        accepted == (0 <= original_timestamp <= now <= MAX_TIMESTAMP && -MAX_TIMESTAMP
            <= client_timestamp <= MAX_TIMESTAMP),
        !accepted ==> *final(clock) == *old(clock),
        accepted ==> final(clock).roundtrips@ == crate::clock::slide_window(
            old(clock).roundtrips@,
            (now - original_timestamp) as u64,
            crate::clock::CLOCK_WINDOW as int,
        ),
        accepted ==> final(clock).deltas@ == crate::clock::slide_window(
            old(clock).deltas@,
            ((original_timestamp + (now - original_timestamp) / 2) - client_timestamp) as i64,
            crate::clock::CLOCK_WINDOW as int,
        ),
{
    if 0 <= original_timestamp && original_timestamp <= now && now <= MAX_TIMESTAMP
        && -MAX_TIMESTAMP <= client_timestamp && client_timestamp <= MAX_TIMESTAMP {
        clock.record_pong(original_timestamp, client_timestamp, now);
        true
    } else {
        false
    }
}

/// An account just linked to an installation, reported by the external
/// login listener: records the link in the registry and tells exactly
/// that installation who it now is — a sibling installation of the same
/// account hears nothing from this call. An installation that
/// disconnected in the meantime makes both halves a no-op. Returns
/// whether the message was handed to the installation's channel.
pub fn handle_login_notification(
    registry: &mut ConnectedClients,
    installation_id: InstallationId,
    profile: UserProfile,
) -> (delivered: bool)
    requires
        old(registry).wf(),
    ensures
        final(registry).wf(),
        final(registry).channels() == old(registry).channels(),
        delivered == old(registry).channels().contains_key(installation_id),
        delivered ==> final(registry).account_of() == old(registry).account_of().insert(
            installation_id,
            profile@.id,
        ),
        !delivered ==> final(registry).account_of() == old(registry).account_of(),
{
    let account_id = profile.id;
    let linked = registry.associate_account(installation_id, account_id);
    let attempted = registry.send_to_installation_id(
        installation_id,
        ServerResponse::Authenticated { profile },
    );
    proof {
        assert(attempted == linked);
    }
    attempted
}

} // verus!
