//! Shared RFC 4571 ICE/TCP listener multiplexing.
//!
//! A [`TcpMux`] stands behind one passive TCP listener and dispatches each newly
//! accepted ICE/TCP connection to the peer connection named by the local
//! username fragment in its first STUN binding request.

use crate::buffer::bytes_mut_from_slice;
use crate::error::Error;
use crate::peer_connection::stun::destination_ufrag;
use bytes::BytesMut;
use std::time::Duration;
use vstd::hash_map::StringHashMap;
use vstd::prelude::*;
use vstd::string::*;

verus! {

/// The seconds that a remote peer is given for its first frame by default.
pub const DEFAULT_INITIAL_FRAME_TIMEOUT_SECS: u64 = 5;

/// The connections that may await their first frame at once by default.
pub const DEFAULT_MAX_INITIAL_DISPATCHES: usize = 128;

/// The duration of a whole number of seconds.
pub uninterp spec fn duration_of_secs(secs: u64) -> Duration;

/// `Duration::from_secs`: the duration of the given number of seconds.
pub assume_specification[ Duration::from_secs ](secs: u64) -> (duration: Duration)
    ensures
        duration == duration_of_secs(secs),
;

/// Configuration for a shared [`TcpMux`].
///
/// The defaults allow a remote peer five seconds to provide its first RFC 4571
/// STUN frame and permit 128 concurrent connections awaiting that frame. These
/// bounds prevent idle TCP clients from retaining unbounded tasks and sockets
/// while leaving enough headroom for normal ICE/TCP connection bursts.
#[derive(Clone, Copy, Debug)]
pub struct TcpMuxConfig {
    initial_frame_timeout: Duration,
    max_initial_dispatches: usize,
}

/// What a [`TcpMuxConfig`] sets.
pub struct TcpMuxConfigView {
    pub initial_frame_timeout: Duration,
    pub max_initial_dispatches: nat,
}

impl View for TcpMuxConfig {
    type V = TcpMuxConfigView;

    closed spec fn view(&self) -> TcpMuxConfigView {
        TcpMuxConfigView {
            initial_frame_timeout: self.initial_frame_timeout,
            max_initial_dispatches: self.max_initial_dispatches as nat,
        }
    }
}

/// The default configuration.
pub open spec fn default_config() -> TcpMuxConfigView {
    TcpMuxConfigView {
        initial_frame_timeout: duration_of_secs(DEFAULT_INITIAL_FRAME_TIMEOUT_SECS),
        max_initial_dispatches: DEFAULT_MAX_INITIAL_DISPATCHES as nat,
    }
}

impl Default for TcpMuxConfig {
    fn default() -> (config: Self)
        ensures
            config@ == default_config(),
            config@.initial_frame_timeout == duration_of_secs(5),
            config@.max_initial_dispatches == 128,
    {
        TcpMuxConfig {
            initial_frame_timeout: Duration::from_secs(DEFAULT_INITIAL_FRAME_TIMEOUT_SECS),
            max_initial_dispatches: DEFAULT_MAX_INITIAL_DISPATCHES,
        }
    }
}

impl TcpMuxConfig {
    /// Sets the maximum time to receive the first complete RFC 4571 frame.
    pub fn with_initial_frame_timeout(self, timeout: Duration) -> (config: Self)
        ensures
            config@ == (TcpMuxConfigView { initial_frame_timeout: timeout, ..self@ }),
    {
        TcpMuxConfig { initial_frame_timeout: timeout, ..self }
    }

    /// Sets the maximum number of connections awaiting their initial frame.
    ///
    /// A value of zero is rejected by [`TcpMux::bind_with_config`].
    pub fn with_max_initial_dispatches(self, max_initial_dispatches: usize) -> (config: Self)
        ensures
            config@ == (TcpMuxConfigView {
                max_initial_dispatches: max_initial_dispatches as nat,
                ..self@
            }),
    {
        TcpMuxConfig { max_initial_dispatches, ..self }
    }

    /// Rejects a configuration that would let no connection await its initial
    /// frame. A listener is bound for a configuration that passes only.
    pub fn check(&self) -> (checked: Result<(), InvalidInput>)
        ensures
            checked is Ok <==> self@.max_initial_dispatches > 0,
            checked matches Err(error) ==> error.message@ == zero_limit_message(),
            checked matches Err(error) ==> error.message@
                == "TCP mux initial dispatch limit must be greater than zero"@,
    {
        if self.max_initial_dispatches == 0 {
            return Err(
                InvalidInput {
                    message: "TCP mux initial dispatch limit must be greater than zero".to_owned(),
                },
            );
        }
        Ok(())
    }
}

/// A configuration that no mux can work with.
#[derive(Clone, Debug, PartialEq, Eq)]
pub struct InvalidInput {
    pub message: String,
}

/// What is said of a configuration without room for a single connection.
pub open spec fn zero_limit_message() -> Seq<char> {
    "TCP mux initial dispatch limit must be greater than zero"@
}

/// What is said of a username fragment that is registered already.
pub open spec fn duplicate_ufrag_message(ufrag: Seq<char>) -> Seq<char> {
    "TCP mux already has an ICE ufrag registered: "@ + ufrag
}

/// The dispatcher behind a passive TCP listener that several peer connections
/// share.
///
/// Each peer connection registers the route to its driver, of type `S`, under
/// its local ICE username fragment, and publishes the listener's address, of
/// type `A`, as its passive ICE/TCP candidate. For each accepted connection the
/// first RFC 4571 frame decides: the destination ufrag in its STUN `USERNAME`
/// attribute names the route that the stream is handed to. Unregistering a peer
/// connection affects no other registered peer connection.
#[verifier::reject_recursive_types(S)]
pub struct TcpMux<A, S> {
    local_addr: A,
    initial_frame_timeout: Duration,
    max_initial_dispatches: usize,
    initial_dispatches: usize,
    routes: StringHashMap<S>,
}

/// The state of a [`TcpMux`]: its address and bounds, the number of connections
/// that await their initial frame, and the route of each username fragment.
#[verifier::ext_equal]
pub struct TcpMuxView<A, S> {
    pub local_addr: A,
    pub initial_frame_timeout: Duration,
    pub max_initial_dispatches: nat,
    pub initial_dispatches: nat,
    pub routes: Map<Seq<char>, S>,
}

impl<A, S> View for TcpMux<A, S> {
    type V = TcpMuxView<A, S>;

    closed spec fn view(&self) -> TcpMuxView<A, S> {
        TcpMuxView {
            local_addr: self.local_addr,
            initial_frame_timeout: self.initial_frame_timeout,
            max_initial_dispatches: self.max_initial_dispatches as nat,
            initial_dispatches: self.initial_dispatches as nat,
            routes: self.routes@,
        }
    }
}

impl<A, S> TcpMuxView<A, S> {
    /// A mux at `local_addr` to which nothing has happened yet.
    pub open spec fn fresh(local_addr: A, config: TcpMuxConfigView) -> Self {
        TcpMuxView {
            local_addr,
            initial_frame_timeout: config.initial_frame_timeout,
            max_initial_dispatches: config.max_initial_dispatches,
            initial_dispatches: 0,
            routes: Map::empty(),
        }
    }

    /// At least one connection may await its initial frame, and never do more
    /// than the limit.
    pub open spec fn well_formed(self) -> bool {
        &&& self.max_initial_dispatches > 0
        &&& self.initial_dispatches <= self.max_initial_dispatches
    }

    /// Whether one more connection may await its initial frame.
    pub open spec fn has_capacity(self) -> bool {
        self.initial_dispatches < self.max_initial_dispatches
    }

    /// One more connection awaits its initial frame.
    pub open spec fn acquired(self) -> Self {
        TcpMuxView { initial_dispatches: self.initial_dispatches + 1, ..self }
    }

    /// One more connection awaits its initial frame if there is capacity.
    pub open spec fn asked(self) -> Self {
        if self.has_capacity() {
            self.acquired()
        } else {
            self
        }
    }

    /// One connection less awaits its initial frame.
    pub open spec fn released(self) -> Self {
        TcpMuxView { initial_dispatches: (self.initial_dispatches - 1) as nat, ..self }
    }

    /// `ufrag` leads to `sender`.
    pub open spec fn registered(self, ufrag: Seq<char>, sender: S) -> Self {
        TcpMuxView { routes: self.routes.insert(ufrag, sender), ..self }
    }

    /// `ufrag` leads nowhere.
    pub open spec fn unregistered(self, ufrag: Seq<char>) -> Self {
        TcpMuxView { routes: self.routes.remove(ufrag), ..self }
    }

    /// The route of a connection whose initial frame came out as `frame`, or
    /// why the connection is dropped.
    pub open spec fn route(self, frame: InitialFrame) -> Result<S, DropReason> {
        match frame {
            InitialFrame::Rejected => Err(DropReason::NoFrame),
            InitialFrame::TimedOut => Err(DropReason::TimedOut),
            InitialFrame::Received(packet) =>
                match crate::peer_connection::stun::addressed_ufrag(packet@) {
                    None => Err(DropReason::NoUsername),
                    Some(ufrag) => if self.routes.contains_key(ufrag) {
                        Ok(self.routes[ufrag])
                    } else {
                        Err(DropReason::UnknownUfrag)
                    },
                },
        }
    }
}

/// The right to keep one connection waiting for its initial frame.
pub struct InitialDispatchPermit {
    granted: (),
}

/// The registration of one username fragment.
pub struct TcpMuxRegistration {
    ufrag: String,
}

impl View for TcpMuxRegistration {
    type V = Seq<char>;

    /// The registered username fragment.
    closed spec fn view(&self) -> Seq<char> {
        self.ufrag@
    }
}

impl TcpMuxRegistration {
    /// The registered username fragment.
    pub fn ufrag(&self) -> (ufrag: &str)
        ensures
            ufrag@ == self@,
    {
        self.ufrag.as_str()
    }
}

/// How reading a connection's initial frame came out.
pub enum InitialFrame {
    /// The frame arrived in time; this is its payload.
    Received(Vec<u8>),
    /// The stream failed or ended before a frame, or the frame was empty.
    Rejected,
    /// The frame did not arrive in time.
    TimedOut,
}

/// Why a connection is dropped.
#[derive(Clone, Copy, Debug, PartialEq, Eq, Structural)]
pub enum DropReason {
    /// There was no initial frame.
    NoFrame,
    /// The initial frame did not arrive in time.
    TimedOut,
    /// The initial frame is no STUN message with a usable `USERNAME`.
    NoUsername,
    /// No peer connection is registered for the named username fragment.
    UnknownUfrag,
}

/// The local and the remote address of a connection.
#[derive(Clone, Copy, Debug, PartialEq, Eq)]
pub struct FourTuple<A> {
    pub local_addr: A,
    pub peer_addr: A,
}

/// An explicit congestion notification codepoint.
#[derive(Clone, Copy, Debug, PartialEq, Eq, Structural)]
pub enum EcnCodepoint {
    Ect0,
    Ect1,
    Ce,
}

/// The protocol that a packet came over.
#[derive(Clone, Copy, Debug, PartialEq, Eq, Structural)]
pub enum TransportProtocol {
    UDP,
    TCP,
}

/// Where a packet came from, and how.
#[derive(Clone, Copy, Debug, PartialEq, Eq)]
pub struct TransportContext<A> {
    pub local_addr: A,
    pub peer_addr: A,
    pub transport_protocol: TransportProtocol,
    pub ecn: Option<EcnCodepoint>,
}

/// A packet with its transport context and the moment, of type `N`, of its
/// arrival.
pub struct TaggedBytesMut<A, N> {
    pub now: N,
    pub transport: TransportContext<A>,
    pub message: BytesMut,
}

/// What the driver of a peer connection is told of a new connection: its
/// addresses, its stream, of type `T`, and the packet that was read from it.
pub struct IncomingTcpStream<A, T, N> {
    pub four_tuple: FourTuple<A>,
    pub stream: T,
    pub initial_packet: Option<TaggedBytesMut<A, N>>,
}

/// What becomes of a connection.
pub enum InitialDispatch<'a, A, T, N, S> {
    /// `event` goes to `sender`.
    Deliver { sender: &'a S, event: IncomingTcpStream<A, T, N> },
    /// The connection is dropped.
    Dropped(DropReason),
}

/// Whether `event` hands over `stream`, read at `now`, with exactly `packet` as
/// the first thing that came over it.
pub open spec fn announces<A, T, N>(
    event: IncomingTcpStream<A, T, N>,
    packet: Seq<u8>,
    stream: T,
    local_addr: A,
    peer_addr: A,
    now: N,
) -> bool {
    &&& event.four_tuple == (FourTuple { local_addr, peer_addr })
    &&& event.stream == stream
    &&& event.initial_packet matches Some(tagged)
    &&& tagged.now == now
    &&& tagged.transport == (TransportContext {
        local_addr,
        peer_addr,
        transport_protocol: TransportProtocol::TCP,
        ecn: None,
    })
    &&& crate::buffer::bytes_mut_contents(tagged.message) == packet
}

impl<A, S> TcpMux<A, S> {
    /// At least one connection may await its initial frame, and never do more than
    /// the limit.
    #[verifier::type_invariant]
    closed spec fn bounded(self) -> bool {
        self@.well_formed()
    }
}

impl<A: Copy, S> TcpMux<A, S> {
    /// A mux for the listener at `local_addr` with [`TcpMuxConfig::default`] bounds.
    pub fn bind(local_addr: A) -> (mux: Result<Self, InvalidInput>)
        ensures
            mux matches Ok(mux) && mux@ == TcpMuxView::<A, S>::fresh(local_addr, default_config())
                && mux@.well_formed(),
            mux matches Ok(mux) ==> {
                &&& mux@.local_addr == local_addr
                &&& mux@.initial_frame_timeout == duration_of_secs(5)
                &&& mux@.max_initial_dispatches == 128
                &&& mux@.initial_dispatches == 0
                &&& mux@.routes == Map::<Seq<char>, S>::empty()
            },
    {
        Self::bind_with_config(local_addr, TcpMuxConfig::default())
    }

    /// A mux for the listener at `local_addr` with explicit initial-dispatch bounds.
    pub fn bind_with_config(local_addr: A, config: TcpMuxConfig) -> (mux: Result<
        Self,
        InvalidInput,
    >)
        ensures
            mux is Ok <==> config@.max_initial_dispatches > 0,
            mux matches Ok(mux) ==> {
                &&& mux@ == TcpMuxView::<A, S>::fresh(local_addr, config@)
                &&& mux@.well_formed()
                &&& mux@.local_addr == local_addr
                &&& mux@.initial_frame_timeout == config@.initial_frame_timeout
                &&& mux@.max_initial_dispatches == config@.max_initial_dispatches
                &&& mux@.initial_dispatches == 0
                &&& mux@.routes == Map::<Seq<char>, S>::empty()
            },
            mux matches Err(error) ==> error.message@ == zero_limit_message(),
    {
        match config.check() {
            Ok(()) => Ok(
                TcpMux {
                    local_addr,
                    initial_frame_timeout: config.initial_frame_timeout,
                    max_initial_dispatches: config.max_initial_dispatches,
                    initial_dispatches: 0,
                    routes: StringHashMap::new(),
                },
            ),
            Err(error) => Err(error),
        }
    }

    /// Returns the local address published in passive ICE/TCP candidates.
    pub fn local_addr(&self) -> (local_addr: A)
        ensures
            local_addr == self@.local_addr,
    {
        self.local_addr
    }

    /// The time that a remote peer is given for its first frame.
    pub fn initial_frame_timeout(&self) -> (timeout: Duration)
        ensures
            timeout == self@.initial_frame_timeout,
    {
        self.initial_frame_timeout
    }

    /// The number of connections that await their initial frame.
    pub fn initial_dispatches(&self) -> (count: usize)
        ensures
            count == self@.initial_dispatches,
    {
        self.initial_dispatches
    }

    /// Lets one more connection await its initial frame, unless the limit is
    /// reached.
    pub fn try_acquire_initial_dispatch(&mut self) -> (permit: Option<InitialDispatchPermit>)
        ensures
            final(self)@.well_formed(),
            permit is Some <==> old(self)@.has_capacity(),
            permit is Some <==> old(self)@.initial_dispatches < old(self)@.max_initial_dispatches,
            final(self)@ == old(self)@.asked(),
            permit is None ==> final(self)@ == old(self)@,
            permit is Some ==> final(self)@ == (TcpMuxView {
                initial_dispatches: old(self)@.initial_dispatches + 1,
                ..old(self)@
            }),
    {
        proof {
            use_type_invariant(&*self);
        }
        if self.initial_dispatches >= self.max_initial_dispatches {
            return None;
        }
        self.initial_dispatches = self.initial_dispatches + 1;
        Some(InitialDispatchPermit { granted: () })
    }

    /// Gives back the right to keep a connection waiting.
    pub fn release_initial_dispatch(&mut self, permit: InitialDispatchPermit)
        requires
            old(self)@.initial_dispatches > 0,
        ensures
            final(self)@.well_formed(),
            final(self)@ == old(self)@.released(),
            final(self)@.initial_dispatches + 1 == old(self)@.initial_dispatches,
            final(self)@ == (TcpMuxView {
                initial_dispatches: final(self)@.initial_dispatches,
                ..old(self)@
            }),
    {
        proof {
            use_type_invariant(&*self);
        }
        self.initial_dispatches = self.initial_dispatches - 1;
    }

    /// Routes connections for `ufrag` to `sender`, unless `ufrag` has a route.
    pub fn register(&mut self, ufrag: String, sender: S) -> (registration: Result<
        TcpMuxRegistration,
        Error,
    >)
        ensures
            final(self)@.well_formed(),
            registration is Ok <==> !old(self)@.routes.contains_key(ufrag@),
            registration matches Ok(registration) ==> {
                &&& registration@ == ufrag@
                &&& final(self)@ == old(self)@.registered(ufrag@, sender)
                &&& final(self)@ == (TcpMuxView {
                    routes: old(self)@.routes.insert(ufrag@, sender),
                    ..old(self)@
                })
            },
            registration matches Err(error) ==> {
                &&& error@ == crate::error::ErrorView::Other(duplicate_ufrag_message(ufrag@))
                &&& error matches Error::Other(text) && text@
                    == "TCP mux already has an ICE ufrag registered: "@ + ufrag@
                &&& final(self)@ == old(self)@
            },
    {
        proof {
            use_type_invariant(&*self);
        }
        if self.routes.contains_key(ufrag.as_str()) {
            let mut message = "TCP mux already has an ICE ufrag registered: ".to_owned();
            message.append(ufrag.as_str());
            return Err(Error::Other(message));
        }
        let mut routes = StringHashMap::new();
        std::mem::swap(&mut routes, &mut self.routes);
        routes.insert(ufrag.clone(), sender);
        self.routes = routes;
        Ok(TcpMuxRegistration { ufrag })
    }

    /// Takes back a registration. No other route changes.
    pub fn unregister(&mut self, registration: TcpMuxRegistration)
        ensures
            final(self)@.well_formed(),
            final(self)@ == old(self)@.unregistered(registration@),
            final(self)@ == (TcpMuxView {
                routes: old(self)@.routes.remove(registration@),
                ..old(self)@
            }),
    {
        proof {
            use_type_invariant(&*self);
        }
        let mut routes = StringHashMap::new();
        std::mem::swap(&mut routes, &mut self.routes);
        routes.remove(registration.ufrag.as_str());
        self.routes = routes;
    }

    /// Decides on a connection from `peer_addr` once reading its initial frame
    /// came out as `frame` at the moment `now`. `stream_local_addr` is the local
    /// address that the stream reports, if it does; else the listener's counts.
    pub fn dispatch_initial_frame<T, N>(
        &self,
        frame: InitialFrame,
        stream: T,
        stream_local_addr: Option<A>,
        peer_addr: A,
        now: N,
    ) -> (dispatch: InitialDispatch<'_, A, T, N, S>)
        ensures
            match self@.route(frame) {
                Ok(route) => {
                    &&& dispatch matches InitialDispatch::Deliver { sender, event }
                    &&& *sender == route
                    &&& frame matches InitialFrame::Received(packet)
                    &&& announces(
                        event,
                        packet@,
                        stream,
                        match stream_local_addr {
                            Some(local_addr) => local_addr,
                            None => self@.local_addr,
                        },
                        peer_addr,
                        now,
                    )
                },
                Err(reason) => {
                    &&& dispatch matches InitialDispatch::Dropped(given)
                    &&& given == reason
                },
            },
            dispatch matches InitialDispatch::Deliver { sender, event } ==> {
                &&& frame matches InitialFrame::Received(packet)
                &&& event.initial_packet matches Some(tagged)
                &&& crate::buffer::bytes_mut_contents(tagged.message) == packet@
                &&& event.stream == stream
                &&& event.four_tuple.peer_addr == peer_addr
                &&& event.four_tuple.local_addr == match stream_local_addr {
                    Some(local_addr) => local_addr,
                    None => self@.local_addr,
                }
                &&& tagged.now == now
                &&& tagged.transport.peer_addr == event.four_tuple.peer_addr
                &&& tagged.transport.local_addr == event.four_tuple.local_addr
                &&& tagged.transport.transport_protocol is TCP
                &&& tagged.transport.ecn is None
            },
    {
        let packet = match frame {
            InitialFrame::Received(packet) => packet,
            InitialFrame::Rejected => {
                return InitialDispatch::Dropped(DropReason::NoFrame);
            },
            InitialFrame::TimedOut => {
                return InitialDispatch::Dropped(DropReason::TimedOut);
            },
        };
        let ufrag = match destination_ufrag(packet.as_slice()) {
            Some(ufrag) => ufrag,
            None => {
                return InitialDispatch::Dropped(DropReason::NoUsername);
            },
        };
        let sender = match self.routes.get(ufrag) {
            Some(sender) => sender,
            None => {
                return InitialDispatch::Dropped(DropReason::UnknownUfrag);
            },
        };
        let local_addr = match stream_local_addr {
            Some(local_addr) => local_addr,
            None => self.local_addr,
        };
        let initial_packet = TaggedBytesMut {
            now,
            transport: TransportContext {
                local_addr,
                peer_addr,
                transport_protocol: TransportProtocol::TCP,
                ecn: None,
            },
            message: bytes_mut_from_slice(packet.as_slice()),
        };
        InitialDispatch::Deliver {
            sender,
            event: IncomingTcpStream {
                four_tuple: FourTuple { local_addr, peer_addr },
                stream,
                initial_packet: Some(initial_packet),
            },
        }
    }
}

/// Capacity that a connection took is there again once the connection gave it
/// back, and taking it never exceeds the limit.
pub proof fn law_released_capacity_returns<A, S>(mux: TcpMuxView<A, S>)
    requires
        mux.well_formed(),
        mux.has_capacity(),
    ensures
        mux.acquired().well_formed(),
        mux.acquired().released() == mux,
{
}

/// A mux at its limit admits a connection again as soon as one gives back its
/// capacity, and is then at its limit once more.
pub proof fn law_full_mux_recovers<A, S>(mux: TcpMuxView<A, S>)
    requires
        mux.well_formed(),
        !mux.has_capacity(),
    ensures
        mux.released().well_formed(),
        mux.released().has_capacity(),
        !mux.released().acquired().has_capacity(),
{
}

/// Something that happens to a mux.
pub enum TcpMuxStep<S> {
    /// A connection asks for a permit.
    Ask,
    /// A connection gives its permit back.
    Release,
    /// A peer connection registers a route, where the username fragment is free.
    Register(Seq<char>, S),
    /// A peer connection takes back its route.
    Unregister(Seq<char>),
}

/// A mux that `steps` have happened to, and the permits that are out after them.
pub open spec fn after_steps<A, S>(mux: TcpMuxView<A, S>, steps: Seq<TcpMuxStep<S>>) -> (
    TcpMuxView<A, S>,
    int,
)
    decreases steps.len(),
{
    if steps.len() == 0 {
        (mux, 0)
    } else {
        let (before, permits) = after_steps(mux, steps.drop_last());
        match steps.last() {
            TcpMuxStep::Ask => (
                before.asked(),
                if before.has_capacity() {
                    permits + 1
                } else {
                    permits
                },
            ),
            TcpMuxStep::Release => (before.released(), permits - 1),
            TcpMuxStep::Register(ufrag, sender) => (
                if before.routes.contains_key(ufrag) {
                    before
                } else {
                    before.registered(ufrag, sender)
                },
                permits,
            ),
            TcpMuxStep::Unregister(ufrag) => (before.unregistered(ufrag), permits),
        }
    }
}

/// Whether a permit is given back only while one is out.
pub open spec fn releases_held_permits<A, S>(
    mux: TcpMuxView<A, S>,
    steps: Seq<TcpMuxStep<S>>,
) -> bool {
    forall|i: int|
        0 <= i < steps.len() && (#[trigger] steps[i]) is Release ==> after_steps(
            mux,
            steps.take(i),
        ).1 > 0
}

/// In whatever order connections take permits and give them back, and peer
/// connections come and go: at every moment the count of waiting connections is
/// that of the permits that are out, and is not above the limit.
pub proof fn law_count_is_permits_out<A, S>(
    local_addr: A,
    config: TcpMuxConfigView,
    steps: Seq<TcpMuxStep<S>>,
    moment: int,
)
    requires
        config.max_initial_dispatches > 0,
        releases_held_permits(TcpMuxView::<A, S>::fresh(local_addr, config), steps),
        0 <= moment <= steps.len(),
    ensures
        ({
            let (mux, permits) = after_steps(
                TcpMuxView::<A, S>::fresh(local_addr, config),
                steps.take(moment),
            );
            &&& mux.initial_dispatches == permits
            &&& 0 <= permits <= config.max_initial_dispatches
            &&& mux.max_initial_dispatches == config.max_initial_dispatches
            &&& mux.well_formed()
        }),
    decreases moment,
{
    if moment > 0 {
        law_count_is_permits_out(local_addr, config, steps, moment - 1);
        assert(steps.take(moment).drop_last() == steps.take(moment - 1));
        assert(steps.take(moment).last() == steps[moment - 1]);
    }
}

/// Taking back the registration of `ufrag` undoes it, and leaves the route of
/// every other username fragment, and all else, as it is.
pub proof fn law_unregistering_affects_one_route<A, S>(
    mux: TcpMuxView<A, S>,
    ufrag: Seq<char>,
    sender: S,
    other: Seq<char>,
)
    requires
        !mux.routes.contains_key(ufrag),
        other != ufrag,
    ensures
        mux.registered(ufrag, sender).unregistered(ufrag) == mux,
        mux.registered(ufrag, sender).routes.contains_key(other) == mux.routes.contains_key(other),
        mux.unregistered(ufrag).routes.contains_key(other) == mux.routes.contains_key(other),
        mux.routes.contains_key(other) ==> {
            &&& mux.registered(ufrag, sender).routes[other] == mux.routes[other]
            &&& mux.unregistered(ufrag).routes[other] == mux.routes[other]
        },
{
    assert(mux.routes.insert(ufrag, sender).remove(ufrag) =~= mux.routes);
}

/// A connection that is handed over brings the payload of its first frame in full,
/// byte for byte and however long it is, along with its stream, its two addresses and
/// the moment that the payload arrived. The packet is told to come over TCP between
/// the same two addresses, with nothing known of congestion.
pub proof fn law_delivered_packet_is_whole<A, T, N>(
    event: IncomingTcpStream<A, T, N>,
    packet: Seq<u8>,
    stream: T,
    local_addr: A,
    peer_addr: A,
    now: N,
)
    requires
        announces(event, packet, stream, local_addr, peer_addr, now),
    ensures
        event.initial_packet matches Some(tagged) && {
            let message = crate::buffer::bytes_mut_contents(tagged.message);
            &&& message.len() == packet.len()
            &&& forall|i: int| 0 <= i < packet.len() ==> #[trigger] message[i] == packet[i]
            &&& tagged.now == now
            &&& tagged.transport.local_addr == local_addr
            &&& tagged.transport.peer_addr == peer_addr
            &&& tagged.transport.transport_protocol is TCP
            &&& tagged.transport.ecn is None
        },
        event.stream == stream,
        event.four_tuple.local_addr == local_addr,
        event.four_tuple.peer_addr == peer_addr,
{
}

/// Two payloads that differ in a single byte, or in length, are never handed over by
/// the same event.
pub proof fn law_events_tell_packets_apart<A, T, N>(
    event: IncomingTcpStream<A, T, N>,
    packet: Seq<u8>,
    other: Seq<u8>,
    stream: T,
    local_addr: A,
    peer_addr: A,
    now: N,
)
    requires
        announces(event, packet, stream, local_addr, peer_addr, now),
        announces(event, other, stream, local_addr, peer_addr, now),
    ensures
        packet == other,
{
}

/// However many connections ask for a permit of a fresh mux: as many get one as the
/// limit admits, and no more.
pub proof fn law_limit_is_what_is_admitted<A, S>(
    local_addr: A,
    config: TcpMuxConfigView,
    asking: nat,
)
    ensures
        ({
            let asks = Seq::new(asking, |i: int| TcpMuxStep::<S>::Ask);
            let (mux, permits) = after_steps(TcpMuxView::<A, S>::fresh(local_addr, config), asks);
            &&& permits == if asking <= config.max_initial_dispatches {
                asking
            } else {
                config.max_initial_dispatches
            }
            &&& mux.initial_dispatches == permits
            &&& mux.local_addr == local_addr
            &&& mux.initial_frame_timeout == config.initial_frame_timeout
            &&& mux.max_initial_dispatches == config.max_initial_dispatches
            &&& mux.routes == Map::<Seq<char>, S>::empty()
        }),
    decreases asking,
{
    if asking > 0 {
        let fewer = (asking - 1) as nat;
        law_limit_is_what_is_admitted::<A, S>(local_addr, config, fewer);
        assert(Seq::new(asking, |i: int| TcpMuxStep::<S>::Ask).drop_last() =~= Seq::new(
            fewer,
            |i: int| TcpMuxStep::<S>::Ask,
        ));
    }
}

/// A registered username fragment leads to its route, one that was taken back leads
/// nowhere, and neither touches the permits or what the mux was set up with.
pub proof fn law_registration_leads_to_its_route<A, S>(
    mux: TcpMuxView<A, S>,
    ufrag: Seq<char>,
    sender: S,
)
    ensures
        mux.registered(ufrag, sender).routes.contains_key(ufrag),
        mux.registered(ufrag, sender).routes[ufrag] == sender,
        !mux.unregistered(ufrag).routes.contains_key(ufrag),
        mux.registered(ufrag, sender) == (TcpMuxView {
            routes: mux.registered(ufrag, sender).routes,
            ..mux
        }),
        mux.unregistered(ufrag) == (TcpMuxView { routes: mux.unregistered(ufrag).routes, ..mux }),
{
}

/// A connection is dropped for what is wrong with it: for a frame that never came, or
/// came too late, for a payload that is addressed to nobody, or for a username
/// fragment without a route. Any other connection goes to the route of the fragment
/// that its payload is addressed to.
pub proof fn law_drops_tell_what_is_wrong<A, S>(mux: TcpMuxView<A, S>, packet: Vec<u8>)
    ensures
        mux.route(InitialFrame::Rejected) == Err::<S, DropReason>(DropReason::NoFrame),
        mux.route(InitialFrame::TimedOut) == Err::<S, DropReason>(DropReason::TimedOut),
        match mux.route(InitialFrame::Received(packet)) {
            Ok(sender) => exists|ufrag: Seq<char>|
                {
                    &&& crate::peer_connection::stun::addressed_ufrag(packet@) == Some(ufrag)
                    &&& #[trigger] mux.routes.contains_key(ufrag)
                    &&& mux.routes[ufrag] == sender
                },
            Err(DropReason::NoUsername) => crate::peer_connection::stun::addressed_ufrag(
                packet@,
            ) is None,
            Err(DropReason::UnknownUfrag) =>
                crate::peer_connection::stun::addressed_ufrag(packet@) matches Some(ufrag)
                    && !mux.routes.contains_key(ufrag),
            Err(_) => false,
        },
{
    if let Some(ufrag) = crate::peer_connection::stun::addressed_ufrag(packet@) {
        assert(mux.routes.contains_key(ufrag) || !mux.routes.contains_key(ufrag));
    }
}

/// A connection whose first frame is a STUN message for the user name
/// `remote:local` is handed to the peer connection registered for `local`, and
/// dropped where there is none.
pub proof fn law_request_reaches_registered_peer<A, S>(
    mux: TcpMuxView<A, S>,
    packet: Vec<u8>,
    kind: u16,
    transaction_id: Seq<u8>,
    attributes: Seq<crate::peer_connection::stun::StunAttribute>,
    remote: Seq<char>,
    local: Seq<char>,
)
    requires
        crate::peer_connection::stun::stun_parts(kind, transaction_id, attributes),
        packet@ == crate::peer_connection::stun::stun_message(kind, transaction_id, attributes),
        crate::peer_connection::stun::first_username(attributes) == Some(
            vstd::utf8::encode_utf8(remote + seq![':'] + local),
        ),
        !local.contains(':'),
    ensures
        mux.route(InitialFrame::Received(packet)) == if mux.routes.contains_key(local) {
            Ok(mux.routes[local])
        } else {
            Err(DropReason::UnknownUfrag)
        },
{
    crate::peer_connection::stun::law_request_reaches_local_ufrag(
        kind,
        transaction_id,
        attributes,
        remote,
        local,
    );
}

} // verus!
