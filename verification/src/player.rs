//! Who listens and who connects, and which side each of the two plays.
//!
//! An endpoint first tries to connect to the session's address. If a peer is
//! listening there, the endpoint is the guest and plays White. If nobody is
//! listening yet, it listens itself and waits for one peer: it is the host
//! and plays Black. Any other failure ends the attempt. The transport work is
//! the caller's; what follows from its outcome is decided here.

use vstd::prelude::*;
use crate::board::Side;
use crate::error::ConnectionError;

verus! {

/// The part an endpoint played when the session was set up.
#[derive(Clone, Copy, Debug, PartialEq, Eq, Structural)]
pub enum Role {
    /// The endpoint that listened and accepted its peer.
    Host,
    /// The endpoint that connected to a listening peer.
    Guest,
}

impl Role {
    /// The side that goes with a role: the guest moves first.
    pub open spec fn side(self) -> Side {
        match self {
            Role::Host => Side::Black,
            Role::Guest => Side::White,
        }
    }

    /// The side that goes with a role.
    pub fn assigned_side(self) -> (side: Side)
        ensures
            side == self.side(),
    {
        match self {
            Role::Host => Side::Black,
            Role::Guest => Side::White,
        }
    }
}

/// How the attempt to connect to the session's address ended.
#[derive(Clone, Copy, Debug, PartialEq, Eq, Structural)]
pub enum ConnectOutcome {
    /// A peer was listening, and the connection stands.
    Connected,
    /// Nobody is listening at the address.
    Refused,
    /// The attempt failed for any other reason.
    Failed,
}

/// How listening at the session's address ended.
#[derive(Clone, Copy, Debug, PartialEq, Eq, Structural)]
pub enum ListenOutcome {
    /// One peer connected and was accepted.
    Accepted,
    /// Binding the address or accepting the peer failed.
    Failed,
}

/// One endpoint of a session: the role it played in setting the session up,
/// and the side it plays.
#[derive(Clone, Copy, Debug, PartialEq, Eq, Structural)]
pub struct NetworkPlayer {
    pub role: Role,
    pub color: Side,
}

/// What an endpoint does after its attempt to connect.
#[derive(Clone, Copy, Debug, PartialEq, Eq, Structural)]
pub enum Negotiation {
    /// The session stands: switch the channel to non-blocking reads and play.
    Established(NetworkPlayer),
    /// Listen at the address, wait for one peer, and report the outcome to
    /// `NetworkPlayer::accepted`.
    Listen,
    /// Give the session up.
    Failed(ConnectionError),
}

impl NetworkPlayer {
    /// The endpoint that played `role`, on the side that goes with it.
    pub open spec fn of(role: Role) -> NetworkPlayer {
        NetworkPlayer { role, color: role.side() }
    }

    /// What follows from each outcome of the attempt to connect.
    pub open spec fn negotiated(attempt: ConnectOutcome) -> Negotiation {
        match attempt {
            ConnectOutcome::Connected => Negotiation::Established(NetworkPlayer::of(Role::Guest)),
            ConnectOutcome::Refused => Negotiation::Listen,
            ConnectOutcome::Failed => Negotiation::Failed(ConnectionError::ConnectFailed),
        }
    }

    /// What follows from each outcome of listening.
    pub open spec fn listened(outcome: ListenOutcome) -> Result<NetworkPlayer, ConnectionError> {
        match outcome {
            ListenOutcome::Accepted => Ok(NetworkPlayer::of(Role::Host)),
            ListenOutcome::Failed => Err(ConnectionError::ListenFailed),
        }
    }

    /// Decides, from the outcome of the attempt to connect, whether this
    /// endpoint is the guest, has to listen, or gives up.
    pub fn auto(attempt: ConnectOutcome) -> (next: Negotiation)
        ensures
            next == NetworkPlayer::negotiated(attempt),
    {
        match attempt {
            ConnectOutcome::Connected => Negotiation::Established(
                NetworkPlayer { role: Role::Guest, color: Role::Guest.assigned_side() },
            ),
            ConnectOutcome::Refused => Negotiation::Listen,
            ConnectOutcome::Failed => Negotiation::Failed(ConnectionError::ConnectFailed),
        }
    }

    /// Decides, from the outcome of listening, whether this endpoint is the
    /// host or gives up.
    pub fn accepted(outcome: ListenOutcome) -> (player: Result<NetworkPlayer, ConnectionError>)
        ensures
            player == NetworkPlayer::listened(outcome),
    {
        match outcome {
            ListenOutcome::Accepted => Ok(
                NetworkPlayer { role: Role::Host, color: Role::Host.assigned_side() },
            ),
            ListenOutcome::Failed => Err(ConnectionError::ListenFailed),
        }
    }
}

/// Whoever comes out of the negotiation plays the side of its role: the
/// endpoint that connected is the guest, the endpoint that listened is the
/// host, and the two roles never share a side.
pub proof fn lemma_roles_and_sides(
    attempt: ConnectOutcome,
    outcome: ListenOutcome,
    first: Role,
    second: Role,
)
    ensures
        NetworkPlayer::negotiated(attempt) matches Negotiation::Established(player) ==> player.role
            == Role::Guest && player.color == player.role.side(),
        NetworkPlayer::listened(outcome) matches Ok(player) ==> player.role == Role::Host
            && player.color == player.role.side(),
        first != second ==> first.side() != second.side(),
{
}

} // verus!
