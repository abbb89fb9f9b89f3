//! A local track that takes RTP packets as they are.

use crate::error::{flatten_errs, Error};
use crate::media_stream::track_local::extensions;
use crate::media_stream::track_local::extensions::{
    attach_extensions, check_extensions_fit, find_negotiated_id, marshal_extensions,
};
use crate::media_stream::track_local::{Outgoing, TrackLocal, TrackLocalContext};
use crate::media_stream::{
    MediaStreamId, MediaTrack, MediaStreamTrackId, MediaStreamTrackState,
};
use crate::peer_connection::driver::PeerConnectionDriverEvent;
use crate::rtp::extension::HeaderExtension;
use crate::rtp::{set_extension, Header, Packet};
use crate::rtp_transceiver::rtp_sender::{RTCRtpCodec, RTCRtpEncodingParameters, RtpCodecKind};
use crate::rtp_transceiver::{PayloadType, RtpStreamId, SSRC};
use bytes::Bytes;
use rtc::media_stream::{MediaTrackCapabilities, MediaTrackConstraints, MediaTrackSettings};
use vstd::prelude::*;

verus! {

/// The URI of the header extension that carries a media section's MID.
pub const SDES_MID_URI: &'static str = "urn:ietf:params:rtp-hdrext:sdes:mid";

/// Outcome of binding a static RTP track to a negotiated sender context.
#[derive(Clone, Copy, Debug, PartialEq, Eq, Structural)]
pub enum TrackLocalStaticRtpBindResult {
    /// No sender context has bound this track.
    Pending,
    /// The negotiated context has a compatible codec and selected payload type.
    Compatible {
        /// Payload type selected from the remote peer's negotiated codec parameters.
        payload_type: PayloadType,
    },
    /// The negotiated context contains no compatible codec.
    UnsupportedCodec,
}

/// The context that a track is bound to.
pub struct TrackLocalStaticRtpBinding<S> {
    pub context: TrackLocalContext<S>,
    /// The id negotiated for the MID extension when the track was bound.
    pub mid_extension_id: Option<u8>,
}

/// A local track with a pre-set codec that accepts RTP packets. `S` is the
/// sending end of the driver's queue, `R` the receiving end of the queue that
/// delivers RTCP feedback about the track.
pub struct TrackLocalStaticRTP<S, R> {
    pub track: MediaTrack,
    pub ctx: Option<TrackLocalStaticRtpBinding<S>>,
    pub evt_rx: Option<R>,
    pub bind_result: TrackLocalStaticRtpBindResult,
}

impl<S> TrackLocalStaticRtpBinding<S> {
    /// Whether `event` asks to send `packet` as the context prescribes.
    pub open spec fn sends<C>(
        self,
        event: PeerConnectionDriverEvent<C>,
        packet: crate::rtp::PacketView,
    ) -> bool {
        match self.context.prepared_rtp {
            Some(prepared) => event matches PeerConnectionDriverEvent::SenderRtpPrepared {
                sender_id,
                packet: sent,
                ssrc,
                payload_type,
            } && sender_id == prepared.rtp_sender_id && sent@ == packet && ssrc == prepared.ssrc
                && payload_type == prepared.payload_type,
            None => event matches PeerConnectionDriverEvent::SenderRtp(sender_id, sent)
                && sender_id == self.context.rtp_sender_id && sent@ == packet,
        }
    }

    /// The request to send `packet`.
    fn outgoing<'a, C>(&'a self, packet: Packet) -> (outgoing: Outgoing<'a, S, C>)
        ensures
            *outgoing.driver_event_tx == self.context.driver_event_tx,
            self.sends(outgoing.event, packet@),
    {
        let event = match self.context.prepared_rtp {
            Some(prepared) => PeerConnectionDriverEvent::SenderRtpPrepared {
                sender_id: prepared.rtp_sender_id,
                packet,
                ssrc: prepared.ssrc,
                payload_type: prepared.payload_type,
            },
            None => PeerConnectionDriverEvent::SenderRtp(self.context.rtp_sender_id, packet),
        };
        Outgoing { driver_event_tx: &self.context.driver_event_tx, event }
    }

    /// The header that a packet with header `header` leaves with, once `mid` is
    /// set: the name of the codec's error where it refuses.
    pub open spec fn header_with_mid(
        self,
        header: crate::rtp::HeaderView,
        mid: Seq<u8>,
    ) -> Result<crate::rtp::HeaderView, Seq<char>> {
        match self.mid_extension_id {
            Some(id) => match header.set_error(id, mid.len()) {
                Some(kind) => Err(kind.error().name),
                None => Ok(header.with_set(id, mid)),
            },
            None => Ok(header),
        }
    }
}

impl<S, R> TrackLocalStaticRTP<S, R> {
    /// The outcome of the last bind fits what is bound: a context exactly where a
    /// codec was found compatible, and feedback unless the track is pending.
    pub open spec fn well_formed(self) -> bool {
        match self.bind_result {
            TrackLocalStaticRtpBindResult::Pending => self.ctx is None && self.evt_rx is None,
            TrackLocalStaticRtpBindResult::Compatible { payload_type } => {
                &&& self.evt_rx is Some
                &&& self.ctx matches Some(binding)
                &&& binding.context.prepared_rtp matches Some(prepared)
                &&& prepared.payload_type == payload_type
            },
            TrackLocalStaticRtpBindResult::UnsupportedCodec => self.ctx is None
                && self.evt_rx is Some,
        }
    }

    /// A track that no sender has bound.
    pub fn new(track: MediaTrack) -> (local: TrackLocalStaticRTP<S, R>)
        ensures
            local.well_formed(),
            local.track == track,
            local.ctx is None,
            local.evt_rx is None,
            local.bind_result == TrackLocalStaticRtpBindResult::Pending,
    {
        TrackLocalStaticRTP {
            track,
            ctx: None,
            evt_rx: None,
            bind_result: TrackLocalStaticRtpBindResult::Pending,
        }
    }

    /// Returns the most recent negotiated sender binding outcome.
    pub fn bind_result(&self) -> (result: TrackLocalStaticRtpBindResult)
        ensures
            result == self.bind_result,
    {
        self.bind_result
    }

    /// What binding the track to a sender makes of it. Only a context with a
    /// resolved payload type makes it ready to send.
    pub open spec fn bound(self, ctx: TrackLocalContext<S>, evt_rx: R) -> TrackLocalStaticRTP<
        S,
        R,
    > {
        match ctx.prepared_rtp {
            Some(prepared) => TrackLocalStaticRTP {
                track: self.track,
                ctx: Some(
                    TrackLocalStaticRtpBinding {
                        context: ctx,
                        mid_extension_id: extensions::negotiated_id(
                            ctx.rtp_parameters.header_extensions@,
                            SDES_MID_URI@,
                        ),
                    },
                ),
                evt_rx: Some(evt_rx),
                bind_result: TrackLocalStaticRtpBindResult::Compatible {
                    payload_type: prepared.payload_type,
                },
            },
            None => TrackLocalStaticRTP {
                track: self.track,
                ctx: None,
                evt_rx: Some(evt_rx),
                bind_result: TrackLocalStaticRtpBindResult::UnsupportedCodec,
            },
        }
    }

    /// What unbinding the track from its sender makes of it.
    pub open spec fn unbound(self) -> TrackLocalStaticRTP<S, R> {
        TrackLocalStaticRTP {
            track: self.track,
            ctx: None,
            evt_rx: None,
            bind_result: TrackLocalStaticRtpBindResult::Pending,
        }
    }

    /// What comes of sending `packet`.
    pub open spec fn rtp_write<C>(
        self,
        packet: crate::rtp::PacketView,
        outgoing: Result<Outgoing<'_, S, C>, Error>,
    ) -> bool {
        match self.ctx {
            Some(binding) => {
                &&& outgoing matches Ok(outgoing)
                &&& *outgoing.driver_event_tx == binding.context.driver_event_tx
                &&& binding.sends(outgoing.event, packet)
            },
            None => outgoing matches Err(error) && error@ == crate::error::ErrorView::Other(
                "track is not binding yet"@,
            ),
        }
    }

    /// What comes of sending the RTCP packets `packets`.
    pub open spec fn rtcp_write<C>(
        self,
        packets: C,
        outgoing: Result<Outgoing<'_, S, C>, Error>,
    ) -> bool {
        match self.ctx {
            Some(binding) => {
                &&& outgoing matches Ok(outgoing)
                &&& *outgoing.driver_event_tx == binding.context.driver_event_tx
                &&& outgoing.event == PeerConnectionDriverEvent::SenderRtcp(
                    binding.context.rtp_sender_id,
                    packets,
                )
            },
            None => outgoing matches Err(error) && error@ == crate::error::ErrorView::Other(
                "track is not binding yet"@,
            ),
        }
    }

    /// Whether the codec can count the padding when a MID of `len` bytes is set in a
    /// header. Where the track is not bound, the MID was not negotiated or the other
    /// extensions go, nothing is counted.
    pub open spec fn mid_fits(
        self,
        header: crate::rtp::HeaderView,
        len: nat,
        preserve_existing_extensions: bool,
    ) -> bool {
        match self.ctx {
            Some(binding) => match binding.mid_extension_id {
                Some(id) => preserve_existing_extensions ==> header.settable(id, len),
                None => true,
            },
            None => true,
        }
    }

    /// Checks that the codec can count the padding when a MID of `len` bytes is set
    /// in a header.
    pub fn check_mid_fits(
        &self,
        header: &Header,
        len: usize,
        preserve_existing_extensions: bool,
    ) -> (fits: bool)
        ensures
            fits == self.mid_fits(header@, len as nat, preserve_existing_extensions),
    {
        match &self.ctx {
            Some(binding) => match binding.mid_extension_id {
                Some(id) => !preserve_existing_extensions || header.check_settable(id, len),
                None => true,
            },
            None => true,
        }
    }

    /// Sends an RTP packet with the MID extension set to `mid`, if that extension
    /// was negotiated. The other extensions go, unless they are to be preserved.
    pub fn write_rtp_with_sdes_mid_bytes<'a, C>(
        &'a self,
        pkt: Packet,
        mid: Bytes,
        preserve_existing_extensions: bool,
    ) -> (outgoing: Result<Outgoing<'a, S, C>, Error>)
        requires
            self.mid_fits(
                pkt@.header,
                crate::buffer::bytes_contents(mid).len(),
                preserve_existing_extensions,
            ),
        ensures
            self.mid_write(
                pkt@,
                crate::buffer::bytes_contents(mid),
                preserve_existing_extensions,
                outgoing,
            ),
    {
        let ghost packet = pkt@;
        let mut pkt = pkt;
        if !preserve_existing_extensions {
            pkt.header.extension = false;
            pkt.header.extension_profile = 0;
            pkt.header.extensions.clear();
            pkt.header.extensions_padding = 0;
            assert(pkt.header@ =~= packet.header.without_extensions());
        }
        match &self.ctx {
            Some(binding) => {
                if let Some(id) = binding.mid_extension_id {
                    if let Err(error) = set_extension(&mut pkt.header, id, mid) {
                        return Err(Error::Other(error.name));
                    }
                }
                Ok(binding.outgoing(pkt))
            },
            None => Err(Error::ErrBindFailed),
        }
    }

    /// What comes of sending `packet` with the MID extension set to `mid`.
    pub open spec fn mid_write<C>(
        self,
        packet: crate::rtp::PacketView,
        mid: Seq<u8>,
        preserve_existing_extensions: bool,
        outgoing: Result<Outgoing<'_, S, C>, Error>,
    ) -> bool {
        let header = if preserve_existing_extensions {
            packet.header
        } else {
            packet.header.without_extensions()
        };
        match self.ctx {
            Some(binding) => match binding.header_with_mid(header, mid) {
                Ok(header) => {
                    &&& outgoing matches Ok(outgoing)
                    &&& *outgoing.driver_event_tx == binding.context.driver_event_tx
                    &&& binding.sends(
                        outgoing.event,
                        crate::rtp::PacketView { header, payload: packet.payload },
                    )
                },
                Err(name) => outgoing matches Err(error) && error@
                    == crate::error::ErrorView::Other(name),
            },
            None => outgoing matches Err(error) && error@
                == crate::error::ErrorView::ErrBindFailed,
        }
    }

    /// Sends an RTP packet with the MID extension set to a copy of `mid`.
    pub fn write_rtp_with_sdes_mid<'a, C>(
        &'a self,
        pkt: Packet,
        mid: &[u8],
        preserve_existing_extensions: bool,
    ) -> (outgoing: Result<Outgoing<'a, S, C>, Error>)
        requires
            self.mid_fits(pkt@.header, mid@.len(), preserve_existing_extensions),
        ensures
            self.mid_write(pkt@, mid@, preserve_existing_extensions, outgoing),
    {
        self.write_rtp_with_sdes_mid_bytes(
            pkt,
            Bytes::copy_from_slice(mid),
            preserve_existing_extensions,
        )
    }
}

impl<S, R> TrackLocal<S, R> for TrackLocalStaticRTP<S, R> {
    open spec fn is_bound(&self) -> bool {
        self.ctx is Some
    }

    fn track(&self) -> (track: &MediaTrack)
        ensures
            *track == self.track,
    {
        &self.track
    }

    fn bind(&mut self, ctx: TrackLocalContext<S>, evt_rx: R)
        ensures
            *final(self) == old(self).bound(ctx, evt_rx),
    {
        let mid_uri = SDES_MID_URI.to_owned();
        let mid_extension_id = find_negotiated_id(&ctx.rtp_parameters.header_extensions, &mid_uri);
        match ctx.prepared_rtp {
            Some(prepared) => {
                self.bind_result = TrackLocalStaticRtpBindResult::Compatible {
                    payload_type: prepared.payload_type,
                };
                self.ctx = Some(TrackLocalStaticRtpBinding { context: ctx, mid_extension_id });
            },
            None => {
                self.bind_result = TrackLocalStaticRtpBindResult::UnsupportedCodec;
                self.ctx = None;
            },
        }
        self.evt_rx = Some(evt_rx);
    }

    fn unbind(&mut self)
        ensures
            *final(self) == old(self).unbound(),
    {
        self.bind_result = TrackLocalStaticRtpBindResult::Pending;
        self.ctx = None;
        self.evt_rx = None;
    }

    fn write_rtp<'a, C>(&'a self, packet: Packet) -> (outgoing: Result<Outgoing<'a, S, C>, Error>)
        ensures
            self.rtp_write(packet@, outgoing),
    {
        match &self.ctx {
            Some(binding) => Ok(binding.outgoing(packet)),
            None => Err(Error::Other("track is not binding yet".to_owned())),
        }
    }

    fn write_rtcp<'a, C>(&'a self, packets: C) -> (outgoing: Result<Outgoing<'a, S, C>, Error>)
        ensures
            self.rtcp_write(packets, outgoing),
    {
        match &self.ctx {
            Some(binding) => Ok(
                Outgoing {
                    driver_event_tx: &binding.context.driver_event_tx,
                    event: PeerConnectionDriverEvent::SenderRtcp(
                        binding.context.rtp_sender_id,
                        packets,
                    ),
                },
            ),
            None => Err(Error::Other("track is not binding yet".to_owned())),
        }
    }

    fn poll(&self) -> (evt_rx: Option<&R>)
        ensures
            match evt_rx {
                Some(evt_rx) => self.evt_rx == Some(*evt_rx),
                None => self.evt_rx is None,
            },
    {
        self.evt_rx.as_ref()
    }
}

/// An RTP packet with extensions: the request to send it, and the messages for
/// the extensions that it goes without.
pub struct OutgoingWithExtensions<'a, S, C> {
    pub outgoing: Outgoing<'a, S, C>,
    pub errors: Vec<String>,
}

impl<S, R> TrackLocalStaticRTP<S, R> {
    /// What comes of sending `packet` with `extensions`.
    pub open spec fn extensions_write<C>(
        self,
        packet: crate::rtp::PacketView,
        extensions: Seq<HeaderExtension>,
        written: Result<OutgoingWithExtensions<'_, S, C>, Error>,
    ) -> bool {
        match self.ctx {
            Some(binding) => {
                let negotiated = binding.context.rtp_parameters.header_extensions@;
                let data = extensions::wire_forms(extensions);
                &&& written matches Ok(written)
                &&& *written.outgoing.driver_event_tx == binding.context.driver_event_tx
                &&& binding.sends(
                    written.outgoing.event,
                    crate::rtp::PacketView {
                        header: extensions::header_with_extensions(
                            packet.header,
                            negotiated,
                            data,
                        ),
                        payload: packet.payload,
                    },
                )
                &&& extensions::texts_view(written.errors@) == extensions::wire_form_errors(
                    extensions,
                ) + extensions::set_errors(packet.header, negotiated, data)
            },
            None => written matches Err(error) && error@
                == crate::error::ErrorView::ErrBindFailed,
        }
    }

    /// Whether the codec can count the padding whenever one of `extensions` is set
    /// that was negotiated. Where the track is not bound, nothing is counted.
    pub open spec fn extensions_fit(
        self,
        header: crate::rtp::HeaderView,
        extensions: Seq<HeaderExtension>,
    ) -> bool {
        match self.ctx {
            Some(binding) => extensions::extensions_fit(
                header,
                binding.context.rtp_parameters.header_extensions@,
                extensions::wire_forms(extensions),
            ),
            None => true,
        }
    }

    /// Checks that the codec can count the padding whenever one of `extensions` is
    /// set that was negotiated.
    pub fn check_extensions_fit(&self, header: &Header, extensions: &[HeaderExtension]) -> (fit:
        bool)
        ensures
            fit == self.extensions_fit(header@, extensions@),
    {
        match &self.ctx {
            Some(binding) => check_extensions_fit(
                header,
                &binding.context.rtp_parameters.header_extensions,
                extensions,
            ),
            None => true,
        }
    }

    /// Sends an RTP packet with the specified header extensions, as far as they
    /// were negotiated. Where one cannot be encoded or set, the packet goes
    /// without it, and [`finish_write`] reports that.
    pub fn write_rtp_with_extensions<'a, C>(
        &'a self,
        pkt: Packet,
        extensions: &[HeaderExtension],
    ) -> (written: Result<OutgoingWithExtensions<'a, S, C>, Error>)
        requires
            self.extensions_fit(pkt@.header, extensions@),
        ensures
            self.extensions_write(pkt@, extensions@, written),
    {
        let mut pkt = pkt;
        let (data, mut errors) = marshal_extensions(extensions);
        match &self.ctx {
            Some(binding) => {
                attach_extensions(
                    &mut pkt.header,
                    &binding.context.rtp_parameters.header_extensions,
                    data,
                    &mut errors,
                );
                Ok(OutgoingWithExtensions { outgoing: binding.outgoing(pkt), errors })
            },
            None => Err(Error::ErrBindFailed),
        }
    }
}

/// The outcome of a write with extensions, once the packet was sent: all that
/// went wrong, one message per line.
pub fn finish_write(errors: Vec<String>, sent: Result<(), String>) -> (outcome: Result<(), Error>)
    ensures
        match sent {
            Ok(_) => match outcome {
                Ok(_) => errors@.len() == 0,
                Err(error) => errors@.len() > 0 && error@ == crate::error::ErrorView::Other(
                    crate::error::joined_lines(extensions::texts_view(errors@)),
                ),
            },
            Err(text) => outcome matches Err(error) && error@ == crate::error::ErrorView::Other(
                crate::error::joined_lines(extensions::texts_view(errors@).push(text@)),
            ),
        },
{
    let ghost before = errors@;
    let mut errors = errors;
    if let Err(text) = sent {
        errors.push(text);
        assert(extensions::texts_view(errors@) == extensions::texts_view(before).push(text@));
    }
    flatten_errs(errors)
}

impl<S, R> TrackLocalStaticRTP<S, R> {
    /// The stream that the track belongs to.
    pub fn stream_id(&self) -> (stream_id: &MediaStreamId)
        ensures
            *stream_id == self.track.stream_id,
    {
        &self.track.stream_id
    }

    /// The name of the track.
    pub fn track_id(&self) -> (track_id: &MediaStreamTrackId)
        ensures
            *track_id == self.track.track_id,
    {
        &self.track.track_id
    }

    /// What the track is called.
    pub fn label(&self) -> (label: &String)
        ensures
            *label == self.track.label,
    {
        &self.track.label
    }

    /// The kind of media that the track carries.
    pub fn kind(&self) -> (kind: RtpCodecKind)
        ensures
            kind == self.track.kind,
    {
        self.track.kind
    }

    /// The simulcast layer of a stream of the track.
    pub fn rid(&self, ssrc: SSRC) -> (rid: Option<&RtpStreamId>)
        ensures
            match rid {
                Some(rid) => MediaTrack::spec_rid(self.track.codings@, ssrc) == Some(*rid),
                None => MediaTrack::spec_rid(self.track.codings@, ssrc) is None,
            },
    {
        self.track.rid(ssrc)
    }

    /// The codec of a stream of the track.
    pub fn codec(&self, ssrc: SSRC) -> (codec: Option<&RTCRtpCodec>)
        ensures
            match codec {
                Some(codec) => MediaTrack::spec_codec(self.track.codings@, ssrc) == Some(
                    *codec,
                ),
                None => MediaTrack::spec_codec(self.track.codings@, ssrc) is None,
            },
    {
        self.track.codec(ssrc)
    }

    /// The streams of the track.
    pub fn ssrcs(&self) -> (ssrcs: Vec<SSRC>)
        ensures
            ssrcs@ == MediaTrack::spec_ssrcs(self.track.codings@),
    {
        self.track.ssrcs()
    }

    /// Whether the track carries media.
    pub fn enabled(&self) -> (enabled: bool)
        ensures
            enabled == self.track.enabled,
    {
        self.track.enabled
    }

    /// Sets whether the track carries media.
    pub fn set_enabled(&mut self, enabled: bool)
        ensures
            *final(self) == (TrackLocalStaticRTP {
                track: MediaTrack { enabled, ..old(self).track },
                ..*old(self)
            }),
    {
        self.track.enabled = enabled;
    }

    /// Whether the source of the track is unable to provide media.
    pub fn muted(&self) -> (muted: bool)
        ensures
            muted == self.track.muted,
    {
        self.track.muted
    }

    /// Sets whether the source of the track is unable to provide media.
    pub fn set_muted(&mut self, muted: bool)
        ensures
            *final(self) == (TrackLocalStaticRTP {
                track: MediaTrack { muted, ..old(self).track },
                ..*old(self)
            }),
    {
        self.track.muted = muted;
    }

    /// Whether the track still has a source.
    pub fn ready_state(&self) -> (ready_state: MediaStreamTrackState)
        ensures
            ready_state == self.track.ready_state,
    {
        self.track.ready_state
    }

    /// Ends the track.
    pub fn stop(&mut self)
        ensures
            *final(self) == (TrackLocalStaticRTP {
                track: MediaTrack {
                    ready_state: MediaStreamTrackState::Ended,
                    ..old(self).track
                },
                ..*old(self)
            }),
    {
        self.track.stop();
    }

    /// What the source of the track can do.
    pub fn get_capabilities(&self) -> (capabilities: &MediaTrackCapabilities)
        ensures
            *capabilities == self.track.capabilities,
    {
        &self.track.capabilities
    }

    /// The constraints on the track.
    pub fn get_constraints(&self) -> (constraints: &MediaTrackConstraints)
        ensures
            *constraints == self.track.constraints,
    {
        &self.track.constraints
    }

    /// The settings of the track.
    pub fn get_settings(&self) -> (settings: &MediaTrackSettings)
        ensures
            *settings == self.track.settings,
    {
        &self.track.settings
    }

    /// Replaces the constraints on a live track, if any are given.
    pub fn apply_constraints(&mut self, constraints: Option<MediaTrackConstraints>)
        ensures
            *final(self) == (match constraints {
                Some(constraints) if old(self).track.ready_state != MediaStreamTrackState::Ended =>
                    TrackLocalStaticRTP {
                        track: MediaTrack { constraints, ..old(self).track },
                        ..*old(self)
                    },
                _ => *old(self),
            }),
    {
        self.track.apply_constraints(constraints);
    }

    /// The codings of the track.
    pub fn codings(&self) -> (codings: &[RTCRtpEncodingParameters])
        ensures
            codings@ == self.track.codings@,
    {
        self.track.codings.as_slice()
    }

    /// Adds a coding to the track.
    pub fn add_coding(&mut self, coding: RTCRtpEncodingParameters)
        ensures
            final(self).track.codings@ == old(self).track.codings@.push(coding),
            *final(self) == (TrackLocalStaticRTP {
                track: MediaTrack { codings: final(self).track.codings, ..old(self).track },
                ..*old(self)
            }),
    {
        self.track.codings.push(coding);
    }
}

/// A track that was bound to a sender with a resolved stream and payload type
/// sends its packets with these. One that was bound to a sender without a codec in
/// common sends nothing.
pub proof fn law_bound_track_sends_as_resolved<S, R, C>(
    track: TrackLocalStaticRTP<S, R>,
    ctx: TrackLocalContext<S>,
    evt_rx: R,
    packet: crate::rtp::PacketView,
    outgoing: Result<Outgoing<'_, S, C>, Error>,
)
    requires
        track.bound(ctx, evt_rx).rtp_write(packet, outgoing),
    ensures
        match ctx.prepared_rtp {
            Some(prepared) => {
                &&& outgoing matches Ok(outgoing)
                &&& *outgoing.driver_event_tx == ctx.driver_event_tx
                &&& outgoing.event matches PeerConnectionDriverEvent::SenderRtpPrepared {
                    sender_id,
                    packet: sent,
                    ssrc,
                    payload_type,
                }
                &&& sender_id == prepared.rtp_sender_id
                &&& ssrc == prepared.ssrc
                &&& payload_type == prepared.payload_type
                &&& sent@ == packet
            },
            None => outgoing is Err,
        },
{
}

/// The outcome of a bind tells whether the track sends: exactly the tracks whose
/// codec was found compatible do. Whatever was before, binding and unbinding leave
/// an outcome that fits.
pub proof fn law_bind_result_tells_readiness<S, R>(
    track: TrackLocalStaticRTP<S, R>,
    ctx: TrackLocalContext<S>,
    evt_rx: R,
)
    ensures
        track.bound(ctx, evt_rx).well_formed(),
        track.bound(ctx, evt_rx).bind_result is Compatible <==> ctx.prepared_rtp is Some,
        track.unbound().well_formed(),
        track.unbound().bind_result is Pending,
        track.well_formed() ==> (track.bind_result is Compatible <==> track.is_bound()),
{
}

/// Unbinding undoes a bind: nothing is sent any more, and of what was bound
/// nothing is left.
pub proof fn law_unbound_track_sends_nothing<S, R, C>(
    track: TrackLocalStaticRTP<S, R>,
    ctx: TrackLocalContext<S>,
    evt_rx: R,
    packet: crate::rtp::PacketView,
    mid: Seq<u8>,
    preserve_existing_extensions: bool,
    extensions: Seq<HeaderExtension>,
    packets: C,
    outgoing: Result<Outgoing<'_, S, C>, Error>,
    written: Result<OutgoingWithExtensions<'_, S, C>, Error>,
)
    ensures
        track.bound(ctx, evt_rx).unbound() == track.unbound(),
        track.unbound().rtp_write(packet, outgoing) ==> outgoing is Err,
        track.unbound().rtcp_write(packets, outgoing) ==> outgoing is Err,
        track.unbound().mid_write(packet, mid, preserve_existing_extensions, outgoing)
            ==> outgoing is Err,
        track.unbound().extensions_write(packet, extensions, written) ==> written is Err,
{
}

/// A write with the MID alone always succeeds on a bound track, and the packet
/// carries that one extension, or none where it was not negotiated. Nothing else
/// of the packet changes.
pub proof fn law_mid_is_the_only_extension<S, R, C>(
    track: TrackLocalStaticRTP<S, R>,
    packet: crate::rtp::PacketView,
    mid: Seq<u8>,
    outgoing: Result<Outgoing<'_, S, C>, Error>,
)
    requires
        track.is_bound(),
        track.mid_write(packet, mid, false, outgoing),
    ensures
        outgoing is Ok,
        exists|sent: crate::rtp::PacketView|
                {
                    &&& #[trigger] (track.ctx->0).sends((outgoing->Ok_0).event, sent)
                    &&& sent.payload == packet.payload
                    &&& sent.header.without_extensions() == packet.header.without_extensions()
                    &&& match (track.ctx->0).mid_extension_id {
                        Some(id) => {
                            &&& sent.header.extension
                            &&& sent.header.extensions == seq![
                                crate::rtp::ExtensionView { id, payload: mid },
                            ]
                            &&& mid.len() <= 16 ==> sent.header.extension_profile
                                == crate::rtp::EXTENSION_PROFILE_ONE_BYTE
                        },
                        None => sent.header == packet.header.without_extensions(),
                    }
                },
{
    let binding = track.ctx->0;
    let bare = packet.header.without_extensions();
    let header = match binding.mid_extension_id {
        Some(id) => bare.with_set(id, mid),
        None => bare,
    };
    let sent = crate::rtp::PacketView { header, payload: packet.payload };
    assert(binding.sends(outgoing->Ok_0.event, sent));
    if let Some(id) = binding.mid_extension_id {
        assert(sent.header.extensions == seq![crate::rtp::ExtensionView { id, payload: mid }]);
    }
    assert(sent.header.without_extensions() == bare);
}

/// A write with the MID beside the extensions that are there sets that one
/// extension and keeps the others, wherever the profile in use admits it. Only where
/// a header without extensions has one under that id all the same, that one stays in
/// front of the MID.
pub proof fn law_mid_is_added_to_extensions<S, R, C>(
    track: TrackLocalStaticRTP<S, R>,
    packet: crate::rtp::PacketView,
    mid: Seq<u8>,
    outgoing: Result<Outgoing<'_, S, C>, Error>,
)
    requires
        track.is_bound(),
        track.mid_write(packet, mid, true, outgoing),
    ensures
        match (track.ctx->0).mid_extension_id {
                Some(id) => if packet.header.set_error(id, mid.len()) is Some {
                    outgoing is Err
                } else {
                    outgoing is Ok && exists|sent: crate::rtp::PacketView|
                        {
                            &&& #[trigger] (track.ctx->0).sends((outgoing->Ok_0).event, sent)
                            &&& sent.payload == packet.payload
                            &&& sent.header.without_extensions()
                                == packet.header.without_extensions()
                            &&& sent.header.extensions.contains(
                                crate::rtp::ExtensionView { id, payload: mid },
                            )
                            &&& packet.header.extension || crate::rtp::value_of(
                                packet.header.extensions,
                                id,
                            ) is None ==> crate::rtp::value_of(sent.header.extensions, id) == Some(
                                mid,
                            )
                            &&& forall|other: u8|
                                other != id ==> #[trigger] crate::rtp::value_of(
                                    sent.header.extensions,
                                    other,
                                ) == crate::rtp::value_of(packet.header.extensions, other)
                        }
                },
                None => outgoing matches Ok(outgoing) && (track.ctx->0).sends(
                    outgoing.event,
                    packet,
                ),
            },
{
    let binding = track.ctx->0;
    if let Some(id) = binding.mid_extension_id {
        if packet.header.set_error(id, mid.len()) is None {
            crate::rtp::law_set_extension_is_held(packet.header, id, mid);
            crate::rtp::lemma_set_contains(packet.header, id, mid);
            let sent = crate::rtp::PacketView {
                header: packet.header.with_set(id, mid),
                payload: packet.payload,
            };
            assert(binding.sends(outgoing->Ok_0.event, sent));
            assert(sent.header.without_extensions() == packet.header.without_extensions());
        }
    }
}

/// The MID goes under the id that was negotiated when the track was bound: header
/// extensions that are negotiated anew change nothing until the next bind.
pub proof fn law_mid_id_is_cached<S, R, C>(
    track: TrackLocalStaticRTP<S, R>,
    ctx: TrackLocalContext<S>,
    evt_rx: R,
    renegotiated: TrackLocalStaticRTP<S, R>,
    packet: crate::rtp::PacketView,
    mid: Seq<u8>,
    preserve_existing_extensions: bool,
    outgoing: Result<Outgoing<'_, S, C>, Error>,
)
    requires
        ctx.prepared_rtp is Some,
        renegotiated.ctx matches Some(binding) && binding == (TrackLocalStaticRtpBinding {
            context: TrackLocalContext {
                rtp_parameters: binding.context.rtp_parameters,
                ..track.bound(ctx, evt_rx).ctx->0.context
            },
            ..track.bound(ctx, evt_rx).ctx->0
        }),
    ensures
        (renegotiated.ctx->0).mid_extension_id
            == extensions::negotiated_id(
            ctx.rtp_parameters.header_extensions@,
            SDES_MID_URI@,
        ),
        renegotiated.mid_write(packet, mid, preserve_existing_extensions, outgoing) <==> track.bound(
            ctx,
            evt_rx,
        ).mid_write(packet, mid, preserve_existing_extensions, outgoing),
{
}

/// Binding keeps the track, takes the feedback, and leaves the track ready to send
/// exactly where a stream and a payload type are resolved: with the context as given, and
/// the resolved payload type as the outcome. Unbinding keeps the track alone.
pub proof fn law_binding_keeps_the_track<S, R>(
    track: TrackLocalStaticRTP<S, R>,
    ctx: TrackLocalContext<S>,
    evt_rx: R,
)
    ensures
        track.bound(ctx, evt_rx).track == track.track,
        track.bound(ctx, evt_rx).evt_rx == Some(evt_rx),
        match ctx.prepared_rtp {
            Some(prepared) => {
                &&& track.bound(ctx, evt_rx).ctx matches Some(binding)
                &&& binding.context == ctx
                &&& track.bound(ctx, evt_rx).bind_result == (
                TrackLocalStaticRtpBindResult::Compatible { payload_type: prepared.payload_type })
            },
            None => {
                &&& track.bound(ctx, evt_rx).ctx is None
                &&& track.bound(ctx, evt_rx).bind_result
                    == TrackLocalStaticRtpBindResult::UnsupportedCodec
            },
        },
        track.unbound().track == track.track,
        track.unbound().ctx is None,
        track.unbound().evt_rx is None,
        track.unbound().bind_result == TrackLocalStaticRtpBindResult::Pending,
        track.bound(ctx, evt_rx).is_bound() <==> ctx.prepared_rtp is Some,
        !track.unbound().is_bound(),
{
}

/// The MID goes under the low byte of the id of the first header extension that was
/// negotiated, when the track was bound, by the URI of the MID. It goes under none where
/// no header extension was negotiated by that URI.
pub proof fn law_mid_id_is_that_of_the_first_mid_entry<S, R>(
    track: TrackLocalStaticRTP<S, R>,
    ctx: TrackLocalContext<S>,
    evt_rx: R,
)
    requires
        ctx.prepared_rtp is Some,
    ensures
        ({
            let negotiated = ctx.rtp_parameters.header_extensions@;
            let uri = "urn:ietf:params:rtp-hdrext:sdes:mid"@;
            match track.bound(ctx, evt_rx).ctx->0.mid_extension_id {
                Some(id) => exists|i: int|
                    {
                        &&& 0 <= i < negotiated.len()
                        &&& (#[trigger] negotiated[i]).uri@ == uri
                        &&& id as int == negotiated[i].id as int % 256
                        &&& forall|j: int| 0 <= j < i ==> (#[trigger] negotiated[j]).uri@ != uri
                    },
                None => forall|i: int|
                    0 <= i < negotiated.len() ==> (#[trigger] negotiated[i]).uri@ != uri,
            }
        }),
{
    extensions::law_negotiated_id_is_that_of_the_first_entry(
        ctx.rtp_parameters.header_extensions@,
        SDES_MID_URI@,
    );
}

/// A write with a MID on a track that was bound to a sender with a resolved stream and
/// payload type goes out with these, whatever the packet names, and the packet keeps its
/// payload and all of its header but the extensions. It always goes out where the other
/// extensions are not to be preserved. A track that was bound to a sender without a codec
/// in common sends nothing.
pub proof fn law_mid_write_sends_as_resolved<S, R, C>(
    track: TrackLocalStaticRTP<S, R>,
    ctx: TrackLocalContext<S>,
    evt_rx: R,
    packet: crate::rtp::PacketView,
    mid: Seq<u8>,
    preserve_existing_extensions: bool,
    outgoing: Result<Outgoing<'_, S, C>, Error>,
)
    requires
        track.bound(ctx, evt_rx).mid_write(packet, mid, preserve_existing_extensions, outgoing),
    ensures
        match (ctx.prepared_rtp, outgoing) {
            (Some(prepared), Ok(outgoing)) => {
                &&& *outgoing.driver_event_tx == ctx.driver_event_tx
                &&& outgoing.event matches PeerConnectionDriverEvent::SenderRtpPrepared {
                    sender_id,
                    packet: sent,
                    ssrc,
                    payload_type,
                }
                &&& sender_id == prepared.rtp_sender_id
                &&& ssrc == prepared.ssrc
                &&& payload_type == prepared.payload_type
                &&& sent@.payload == packet.payload
                &&& sent@.header == (crate::rtp::HeaderView {
                    extension: sent@.header.extension,
                    extension_profile: sent@.header.extension_profile,
                    extensions: sent@.header.extensions,
                    extensions_padding: sent@.header.extensions_padding,
                    ..packet.header
                })
            },
            (Some(prepared), Err(error)) => preserve_existing_extensions && error is Other,
            (None, Ok(outgoing)) => false,
            (None, Err(error)) => error is ErrBindFailed,
        },
{
}

/// A write with a MID sets it under the low byte of the id of the first negotiated header
/// extension, at `at`, that has the URI of the MID. It is set in the packet's header, or
/// in one without extensions where these are not to be preserved. Where that header
/// refuses it, the write fails with the name of the refusal. Without such a header
/// extension, at the end of the negotiated ones, none is set.
pub proof fn law_mid_is_set_under_its_id<S, R, C>(
    track: TrackLocalStaticRTP<S, R>,
    ctx: TrackLocalContext<S>,
    evt_rx: R,
    packet: crate::rtp::PacketView,
    mid: Seq<u8>,
    preserve_existing_extensions: bool,
    at: int,
    outgoing: Result<Outgoing<'_, S, C>, Error>,
)
    requires
        ctx.prepared_rtp is Some,
        0 <= at <= ctx.rtp_parameters.header_extensions@.len(),
        forall|j: int|
            0 <= j < at ==> (#[trigger] ctx.rtp_parameters.header_extensions@[j]).uri@
                != "urn:ietf:params:rtp-hdrext:sdes:mid"@,
        at < ctx.rtp_parameters.header_extensions@.len()
            ==> ctx.rtp_parameters.header_extensions@[at].uri@
            == "urn:ietf:params:rtp-hdrext:sdes:mid"@,
        track.bound(ctx, evt_rx).mid_write(packet, mid, preserve_existing_extensions, outgoing),
    ensures
        ({
            let header = if preserve_existing_extensions {
                packet.header
            } else {
                crate::rtp::HeaderView {
                    extension: false,
                    extension_profile: 0,
                    extensions: Seq::empty(),
                    extensions_padding: 0,
                    ..packet.header
                }
            };
            let negotiated = ctx.rtp_parameters.header_extensions@;
            let id = (negotiated[at].id as int % 256) as u8;
            match outgoing {
                Ok(outgoing) => {
                    &&& outgoing.event matches PeerConnectionDriverEvent::SenderRtpPrepared {
                        packet: sent,
                        ..
                    }
                    &&& sent@.payload == packet.payload
                    &&& if at == negotiated.len() {
                        sent@.header == header
                    } else {
                        &&& header.set_error(id, mid.len()) is None
                        &&& sent@.header == header.with_set(id, mid)
                    }
                },
                Err(error) => {
                    &&& at < negotiated.len()
                    &&& header.set_error(id, mid.len()) matches Some(kind)
                    &&& error matches Error::Other(text)
                    &&& text@ == kind.error().name
                },
            }
        }),
{
    law_mid_id_is_that_of_the_first_mid_entry(track, ctx, evt_rx);
    let negotiated = ctx.rtp_parameters.header_extensions@;
    if at < negotiated.len() {
        extensions::law_first_entry_decides_on_the_id(negotiated, SDES_MID_URI@, at);
    } else {
        assert(track.bound(ctx, evt_rx).ctx->0.mid_extension_id is None);
    }
}

/// A write with extensions on a track that was bound to a sender with a resolved stream
/// and payload type goes out with these, whatever the packet names, and the packet keeps
/// its payload and all of its header but the extensions. The extensions are set by what
/// was negotiated for that sender, and what is wrong with any of them is told: first of
/// those without a wire form, then of those that the header refuses. A track that was
/// bound to a sender without a codec in common sends nothing.
pub proof fn law_extensions_write_sends_as_resolved<S, R, C>(
    track: TrackLocalStaticRTP<S, R>,
    ctx: TrackLocalContext<S>,
    evt_rx: R,
    packet: crate::rtp::PacketView,
    extensions: Seq<HeaderExtension>,
    written: Result<OutgoingWithExtensions<'_, S, C>, Error>,
)
    requires
        track.bound(ctx, evt_rx).extensions_write(packet, extensions, written),
    ensures
        match (ctx.prepared_rtp, written) {
            (Some(prepared), Ok(written)) => {
                let outgoing = written.outgoing;
                let negotiated = ctx.rtp_parameters.header_extensions@;
                let data = extensions::wire_forms(extensions);
                &&& *outgoing.driver_event_tx == ctx.driver_event_tx
                &&& outgoing.event matches PeerConnectionDriverEvent::SenderRtpPrepared {
                    sender_id,
                    packet: sent,
                    ssrc,
                    payload_type,
                }
                &&& sender_id == prepared.rtp_sender_id
                &&& ssrc == prepared.ssrc
                &&& payload_type == prepared.payload_type
                &&& sent@.payload == packet.payload
                &&& sent@.header == extensions::header_with_extensions(
                    packet.header,
                    negotiated,
                    data,
                )
                &&& sent@.header == (crate::rtp::HeaderView {
                    extension: sent@.header.extension,
                    extension_profile: sent@.header.extension_profile,
                    extensions: sent@.header.extensions,
                    extensions_padding: sent@.header.extensions_padding,
                    ..packet.header
                })
                &&& written.errors@.map_values(|text: String| text@)
                    == extensions::wire_form_errors(extensions) + extensions::set_errors(
                    packet.header,
                    negotiated,
                    data,
                )
            },
            (None, Err(error)) => error is ErrBindFailed,
            _ => false,
        },
{
    if ctx.prepared_rtp is Some {
        extensions::law_extensions_keep_the_rest(
            packet.header,
            ctx.rtp_parameters.header_extensions@,
            extensions::wire_forms(extensions),
        );
        let sent = extensions::header_with_extensions(
            packet.header,
            ctx.rtp_parameters.header_extensions@,
            extensions::wire_forms(extensions),
        );
        assert(sent.without_extensions() == packet.header.without_extensions());
    }
}

/// RTCP packets that are written to a track that was bound go out unchanged, on the queue
/// and for the sender of its context. A track that was bound to a sender without a codec
/// in common says that it is not bound.
pub proof fn law_rtcp_goes_to_the_bound_sender<S, R, C>(
    track: TrackLocalStaticRTP<S, R>,
    ctx: TrackLocalContext<S>,
    evt_rx: R,
    packets: C,
    outgoing: Result<Outgoing<'_, S, C>, Error>,
)
    requires
        track.bound(ctx, evt_rx).rtcp_write(packets, outgoing),
    ensures
        match (ctx.prepared_rtp, outgoing) {
            (Some(_), Ok(outgoing)) => {
                &&& *outgoing.driver_event_tx == ctx.driver_event_tx
                &&& outgoing.event matches PeerConnectionDriverEvent::SenderRtcp(sender_id, sent)
                &&& sender_id == ctx.rtp_sender_id
                &&& sent == packets
            },
            (None, Err(error)) => error matches Error::Other(text) && text@
                == "track is not binding yet"@,
            _ => false,
        },
{
}

/// A track that is not bound refuses every write: the plain ones by saying so in words,
/// those with a MID or with extensions as a failed bind.
pub proof fn law_refusals_of_a_track_that_is_not_bound<S, R, C>(
    track: TrackLocalStaticRTP<S, R>,
    packet: crate::rtp::PacketView,
    mid: Seq<u8>,
    preserve_existing_extensions: bool,
    extensions: Seq<HeaderExtension>,
    packets: C,
    outgoing: Result<Outgoing<'_, S, C>, Error>,
    written: Result<OutgoingWithExtensions<'_, S, C>, Error>,
)
    requires
        track.ctx is None,
    ensures
        track.rtp_write(packet, outgoing) ==> (outgoing matches Err(Error::Other(text)) && text@
            == "track is not binding yet"@),
        track.rtcp_write(packets, outgoing) ==> (outgoing matches Err(Error::Other(text)) && text@
            == "track is not binding yet"@),
        track.mid_write(packet, mid, preserve_existing_extensions, outgoing) ==> (
        outgoing matches Err(Error::ErrBindFailed)),
        track.extensions_write(packet, extensions, written) ==> (
        written matches Err(Error::ErrBindFailed)),
        track.mid_fits(packet.header, mid.len(), preserve_existing_extensions),
        track.extensions_fit(packet.header, extensions),
{
}

/// Where a context has nothing resolved, a write that succeeds goes out for the sender of
/// the context, and leaves it to the driver to resolve the stream and the payload type.
/// Only a write with a MID may fail.
pub proof fn law_unresolved_context_names_its_sender<S, R, C>(
    track: TrackLocalStaticRTP<S, R>,
    packet: crate::rtp::PacketView,
    mid: Seq<u8>,
    preserve_existing_extensions: bool,
    extensions: Seq<HeaderExtension>,
    outgoing: Result<Outgoing<'_, S, C>, Error>,
    written: Result<OutgoingWithExtensions<'_, S, C>, Error>,
)
    requires
        track.ctx matches Some(binding) && binding.context.prepared_rtp is None,
    ensures
        track.rtp_write(packet, outgoing) ==> {
            &&& outgoing matches Ok(outgoing)
            &&& *outgoing.driver_event_tx == track.ctx->0.context.driver_event_tx
            &&& outgoing.event matches PeerConnectionDriverEvent::SenderRtp(sender_id, sent)
            &&& sender_id == track.ctx->0.context.rtp_sender_id
            &&& sent@ == packet
        },
        track.mid_write(packet, mid, preserve_existing_extensions, outgoing) ==> (
        outgoing matches Ok(outgoing) ==> {
            &&& *outgoing.driver_event_tx == track.ctx->0.context.driver_event_tx
            &&& outgoing.event matches PeerConnectionDriverEvent::SenderRtp(sender_id, sent)
            &&& sender_id == track.ctx->0.context.rtp_sender_id
            &&& sent@.payload == packet.payload
        }),
        track.extensions_write(packet, extensions, written) ==> {
            &&& written matches Ok(written)
            &&& *written.outgoing.driver_event_tx == track.ctx->0.context.driver_event_tx
            &&& written.outgoing.event matches PeerConnectionDriverEvent::SenderRtp(
                sender_id,
                sent,
            )
            &&& sender_id == track.ctx->0.context.rtp_sender_id
            &&& sent@.payload == packet.payload
        },
{
}

/// A MID fits unless it is to be set beside the extensions that are there, under an id
/// that was negotiated, and takes the place of a longer value: then the codec has to be
/// able to count what that leaves free. Extensions fit where their wire forms do, by what
/// was negotiated for the sender.
pub proof fn law_what_fits_rests_on_what_is_set<S, R>(
    track: TrackLocalStaticRTP<S, R>,
    header: crate::rtp::HeaderView,
    len: nat,
    extensions: Seq<HeaderExtension>,
)
    requires
        track.ctx is Some,
    ensures
        track.mid_fits(header, len, false),
        track.ctx->0.mid_extension_id is None ==> track.mid_fits(header, len, true),
        track.ctx->0.mid_extension_id matches Some(id) ==> (track.mid_fits(header, len, true)
            <==> header.settable(id, len)),
        track.extensions_fit(header, extensions) <==> extensions::extensions_fit(
            header,
            track.ctx->0.context.rtp_parameters.header_extensions@,
            extensions::wire_forms(extensions),
        ),
{
}

} // verus!
