# webrtc

The core of an asynchronous WebRTC stack, verified with Verus.

- `src/peer_connection`: one ICE/TCP listener for several peer connections. The
  first RFC 4571 frame of a connection is a STUN message whose `USERNAME` names
  the peer connection that gets the stream. Also the senders of a peer connection
  of the `rtc` crate.
- `src/media_stream`: tracks, and local tracks that accept RTP packets, set header
  extensions and hand the packets to the driver of a peer connection.
- `src/rtp`: RTP packets and their header extensions.
- `src/rtp_transceiver`: what is negotiated for a sender, and replacing its track.
- `app`: sockets, tasks, queues and locks around the library.

The library is synchronous. What depends on the `bytes` and `rtc` crates stands
behind trusted declarations, each of which says what it claims of the outside
function.
