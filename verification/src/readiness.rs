//! What a physical connection can do now.

use vstd::prelude::*;

use crate::did::Did;
use crate::error::Error;

verus! {

/// The state of a peer connection.
#[derive(Clone, Copy, Debug, PartialEq, Eq, Hash, Structural)]
pub enum WebrtcConnectionState {
    /// The backend gave no state.
    Unspecified,
    /// Nothing has been negotiated.
    New,
    /// Candidates are being checked.
    Connecting,
    /// A candidate pair works.
    Connected,
    /// The working pair is silent; it may recover.
    Disconnected,
    /// No pair works.
    Failed,
    /// The connection is closed.
    Closed,
}

impl WebrtcConnectionState {
    /// The connection never works again.
    pub open spec fn terminal(self) -> bool {
        self is Failed || self is Closed
    }

    /// The connection is negotiating or working.
    pub open spec fn live(self) -> bool {
        self is Connecting || self is Connected
    }

    /// Whether the connection never works again.
    pub fn is_terminal(self) -> (terminal: bool)
        ensures
            terminal == self.terminal(),
    {
        match self {
            WebrtcConnectionState::Failed | WebrtcConnectionState::Closed => true,
            _ => false,
        }
    }
}

/// One coherent observation of a connection and its data channel.
#[derive(Clone, Copy, Debug, PartialEq, Eq, Hash, Structural)]
pub struct ConnectionStateSnapshot {
    /// The connection's state.
    pub webrtc: WebrtcConnectionState,
    /// Whether the data channel was open.
    pub data_channel_open: bool,
}

impl ConnectionStateSnapshot {
    /// The observation of `webrtc` beside `data_channel_open`.
    pub fn new(webrtc: WebrtcConnectionState, data_channel_open: bool) -> (snapshot: Self)
        ensures
            snapshot == (ConnectionStateSnapshot { webrtc, data_channel_open }),
    {
        ConnectionStateSnapshot { webrtc, data_channel_open }
    }
}

/// The reading of one observation.
#[derive(Clone, Copy, Debug, PartialEq, Eq, Hash, Structural)]
pub enum TransportReadinessState {
    /// Frames can be sent.
    Ready(ConnectionStateSnapshot),
    /// The connection is live and its data channel is not open yet.
    AwaitingDataChannel(ConnectionStateSnapshot),
    /// The connection may still come to work.
    Recovering(ConnectionStateSnapshot),
    /// The connection never works again.
    Terminal(ConnectionStateSnapshot),
}

/// The ability of a connection to make progress, read from one coherent observation.
#[derive(Clone, Copy, Debug, PartialEq, Eq, Hash, Structural)]
pub struct TransportReadiness(pub TransportReadinessState);

/// The reading of `snapshot`: an open channel makes a live connection ready, and nothing else
/// does.
pub open spec fn readiness_of(snapshot: ConnectionStateSnapshot) -> TransportReadiness {
    TransportReadiness(
        if snapshot.webrtc.terminal() {
            TransportReadinessState::Terminal(snapshot)
        } else if !snapshot.webrtc.live() {
            TransportReadinessState::Recovering(snapshot)
        } else if snapshot.data_channel_open {
            TransportReadinessState::Ready(snapshot)
        } else {
            TransportReadinessState::AwaitingDataChannel(snapshot)
        },
    )
}

impl TransportReadiness {
    /// The observation that was read.
    pub open spec fn observed(self) -> ConnectionStateSnapshot {
        match self.0 {
            TransportReadinessState::Ready(snapshot) => snapshot,
            TransportReadinessState::AwaitingDataChannel(snapshot) => snapshot,
            TransportReadinessState::Recovering(snapshot) => snapshot,
            TransportReadinessState::Terminal(snapshot) => snapshot,
        }
    }

    /// Frames can be sent.
    pub open spec fn ready(self) -> bool {
        self.0 is Ready
    }

    /// The error of a send over a connection that is not ready.
    pub open spec fn refusal(self) -> Error {
        Error::TransportNotReady {
            state: self.observed().webrtc,
            data_channel_open: self.observed().data_channel_open,
        }
    }

    /// Read one observation.
    pub fn from_snapshot(snapshot: ConnectionStateSnapshot) -> (readiness: Self)
        ensures
            readiness == readiness_of(snapshot),
    {
        TransportReadiness(
            match snapshot.webrtc {
                WebrtcConnectionState::Connecting | WebrtcConnectionState::Connected => {
                    if snapshot.data_channel_open {
                        TransportReadinessState::Ready(snapshot)
                    } else {
                        TransportReadinessState::AwaitingDataChannel(snapshot)
                    }
                },
                WebrtcConnectionState::Unspecified
                | WebrtcConnectionState::New
                | WebrtcConnectionState::Disconnected => TransportReadinessState::Recovering(
                    snapshot,
                ),
                WebrtcConnectionState::Failed
                | WebrtcConnectionState::Closed => TransportReadinessState::Terminal(snapshot),
            },
        )
    }

    /// Whether frames can be sent.
    pub fn can_make_progress(self) -> (ready: bool)
        ensures
            ready == self.ready(),
    {
        matches!(self.0, TransportReadinessState::Ready(_))
    }

    /// Whether the connection never works again.
    pub fn is_terminal(self) -> (terminal: bool)
        ensures
            terminal == (self.0 is Terminal),
    {
        matches!(self.0, TransportReadinessState::Terminal(_))
    }

    /// The observation that was read.
    pub fn snapshot(self) -> (snapshot: ConnectionStateSnapshot)
        ensures
            snapshot == self.observed(),
    {
        match self.0 {
            TransportReadinessState::Ready(snapshot)
            | TransportReadinessState::AwaitingDataChannel(snapshot)
            | TransportReadinessState::Recovering(snapshot)
            | TransportReadinessState::Terminal(snapshot) => snapshot,
        }
    }

    /// The observed connection state.
    pub fn state(self) -> (state: WebrtcConnectionState)
        ensures
            state == self.observed().webrtc,
    {
        self.snapshot().webrtc
    }

    /// Whether the data channel was observed open.
    pub fn data_channel_open(self) -> (open: bool)
        ensures
            open == self.observed().data_channel_open,
    {
        self.snapshot().data_channel_open
    }

    /// The reading's name.
    pub fn as_str(self) -> (name: &'static str)
        ensures
            name@ == match self.0 {
                TransportReadinessState::Ready(_) => "ready"@,
                TransportReadinessState::AwaitingDataChannel(_) => "awaiting_data_channel"@,
                TransportReadinessState::Recovering(_) => "recovering"@,
                TransportReadinessState::Terminal(_) => "terminal"@,
            },
    {
        match self.0 {
            TransportReadinessState::Ready(_) => "ready",
            TransportReadinessState::AwaitingDataChannel(_) => "awaiting_data_channel",
            TransportReadinessState::Recovering(_) => "recovering",
            TransportReadinessState::Terminal(_) => "terminal",
        }
    }

    /// Fail unless frames can be sent.
    pub fn ensure_can_make_progress(self) -> (checked: Result<(), Error>)
        ensures
            checked == (if self.ready() {
                Ok(())
            } else {
                Err(self.refusal())
            }),
    {
        if self.can_make_progress() {
            return Ok(());
        }
        Err(Error::TransportNotReady {
            state: self.state(),
            data_channel_open: self.data_channel_open(),
        })
    }
}

/// What a look at a connection one waits for comes to.
#[derive(Debug)]
pub enum ReadinessPoll {
    /// It is ready.
    Ready,
    /// It never will be, for this reason.
    Failed(Error),
    /// Look again later.
    Again,
}

impl TransportReadiness {
    /// What this reading means for one who waits for the connection.
    pub fn poll(self) -> (poll: ReadinessPoll)
        ensures
            poll == (if self.ready() {
                ReadinessPoll::Ready
            } else if self.0 is Terminal {
                ReadinessPoll::Failed(self.refusal())
            } else {
                ReadinessPoll::Again
            }),
    {
        match self.ensure_can_make_progress() {
            Ok(()) => ReadinessPoll::Ready,
            Err(error) => if self.is_terminal() {
                ReadinessPoll::Failed(error)
            } else {
                ReadinessPoll::Again
            },
        }
    }
}

/// A physical connection to a peer: the backend's object, and what was observed of it.
#[derive(Clone, Copy, Debug, PartialEq, Eq, Hash, Structural)]
pub struct SwarmConnection {
    /// The peer at the other end.
    pub peer: Did,
    /// The backend's number for this object; a replacement has another.
    pub handle: u64,
    /// The latest observation.
    pub snapshot: ConnectionStateSnapshot,
}

impl SwarmConnection {
    /// What the connection can do.
    pub open spec fn reading(self) -> TransportReadiness {
        readiness_of(self.snapshot)
    }

    /// What the connection can do.
    pub fn readiness(&self) -> (readiness: TransportReadiness)
        ensures
            readiness == self.reading(),
    {
        TransportReadiness::from_snapshot(self.snapshot)
    }
}

/// A connection is ready exactly when it is live with an open channel; in particular an open
/// channel does not make a disconnected transport ready.
pub proof fn law_ready_is_live_and_open(snapshot: ConnectionStateSnapshot)
    ensures
        readiness_of(snapshot).ready() <==> snapshot.webrtc.live() && snapshot.data_channel_open,
        readiness_of(snapshot).0 is Terminal <==> snapshot.webrtc.terminal(),
        readiness_of(snapshot).observed() == snapshot,
{
}

/// Among the errors of a connection that is not ready, exactly those of a terminal one count
/// against the peer, and all of them leave the send free to be made again.
pub proof fn law_only_terminal_readiness_degrades_the_peer(snapshot: ConnectionStateSnapshot)
    ensures
        readiness_of(snapshot).refusal().peer_failure() <==> readiness_of(snapshot).0 is Terminal,
        crate::error::class_of(readiness_of(snapshot).refusal()) is Deferrable,
{
}

/// A connection is ready exactly if it is live and its data channel is open; it never works again
/// exactly if it failed or was closed; a live one without its channel awaits it; any other may
/// recover. The reading keeps the snapshot it was made from.
pub proof fn law_readiness_of_a_connection(
    snapshot: ConnectionStateSnapshot,
    readiness: TransportReadiness,
    ready: bool,
    terminal: bool,
    kept: ConnectionStateSnapshot,
)
    requires
        call_ensures(TransportReadiness::from_snapshot, (snapshot,), readiness),
        call_ensures(TransportReadiness::can_make_progress, (readiness,), ready),
        call_ensures(TransportReadiness::is_terminal, (readiness,), terminal),
        call_ensures(TransportReadiness::snapshot, (readiness,), kept),
    ensures
        ready <==> snapshot.data_channel_open && (snapshot.webrtc is Connecting
            || snapshot.webrtc is Connected),
        terminal <==> snapshot.webrtc is Failed || snapshot.webrtc is Closed,
        kept == snapshot,
        readiness.0 is AwaitingDataChannel <==> !snapshot.data_channel_open && (
        snapshot.webrtc is Connecting || snapshot.webrtc is Connected),
        readiness.0 is Recovering <==> snapshot.webrtc is Unspecified || snapshot.webrtc is New
            || snapshot.webrtc is Disconnected,
{
}

/// A wait for a connection ends well exactly if it is ready, ends badly exactly if it never works
/// again, and goes on otherwise. What refuses it names the state it was found in.
pub proof fn law_readiness_decides_a_wait(
    snapshot: ConnectionStateSnapshot,
    readiness: TransportReadiness,
    poll: ReadinessPoll,
    checked: Result<(), Error>,
)
    requires
        call_ensures(TransportReadiness::from_snapshot, (snapshot,), readiness),
        call_ensures(TransportReadiness::poll, (readiness,), poll),
        call_ensures(TransportReadiness::ensure_can_make_progress, (readiness,), checked),
    ensures
        poll is Ready <==> snapshot.data_channel_open && (snapshot.webrtc is Connecting
            || snapshot.webrtc is Connected),
        poll is Failed <==> snapshot.webrtc is Failed || snapshot.webrtc is Closed,
        checked is Ok <==> poll is Ready,
        checked is Err ==> checked->Err_0 == (Error::TransportNotReady {
            state: snapshot.webrtc,
            data_channel_open: snapshot.data_channel_open,
        }),
        poll is Failed ==> poll->Failed_0 == checked->Err_0,
{
}

/// A connection is read by its own latest snapshot.
pub proof fn law_connection_is_read_by_its_snapshot(
    connection: SwarmConnection,
    readiness: TransportReadiness,
    ready: bool,
)
    requires
        call_ensures(SwarmConnection::readiness, (&connection,), readiness),
        call_ensures(TransportReadiness::can_make_progress, (readiness,), ready),
    ensures
        ready <==> connection.snapshot.data_channel_open && (connection.snapshot.webrtc
            is Connecting || connection.snapshot.webrtc is Connected),
{
}

} // verus!
