//! RTP packets and their header extensions.

pub mod extension;

use crate::error::RtcError;
use bytes::Bytes;
use rtc::rtp::header;
use vstd::prelude::*;

verus! {

/// The extension profile with one-byte extension ids.
pub const EXTENSION_PROFILE_ONE_BYTE: u16 = 0xBEDE;

/// The extension profile with two-byte extension ids.
pub const EXTENSION_PROFILE_TWO_BYTE: u16 = 0x1000;

/// One header extension: its id and its value.
#[derive(Debug, Default, PartialEq, Eq)]
pub struct Extension {
    pub id: u8,
    pub payload: Bytes,
}

/// The header of an RTP packet.
#[derive(Debug, Default, PartialEq, Eq)]
pub struct Header {
    /// The RTP version, always 2.
    pub version: u8,
    /// Whether the payload is followed by padding.
    pub padding: bool,
    /// Whether a header-extension block follows the fixed header.
    pub extension: bool,
    /// The marker bit.
    pub marker: bool,
    /// The payload type, which identifies the negotiated codec.
    pub payload_type: u8,
    /// Increments by one per packet sent.
    pub sequence_number: u16,
    /// The sampling instant of the first octet, in the codec's clock rate.
    pub timestamp: u32,
    /// The stream that the packet belongs to.
    pub ssrc: u32,
    /// The contributing sources.
    pub csrc: Vec<u32>,
    /// Which header-extension form is in use.
    pub extension_profile: u16,
    /// The header extensions.
    pub extensions: Vec<Extension>,
    /// The padding bytes behind the header extensions.
    pub extensions_padding: usize,
}

/// An RTP packet.
#[derive(Debug, Default, PartialEq, Eq)]
pub struct Packet {
    pub header: Header,
    pub payload: Bytes,
}

/// The contents of an [`Extension`].
#[verifier::ext_equal]
pub struct ExtensionView {
    pub id: u8,
    pub payload: Seq<u8>,
}

/// The contents of a [`Header`].
#[verifier::ext_equal]
pub struct HeaderView {
    pub version: u8,
    pub padding: bool,
    pub extension: bool,
    pub marker: bool,
    pub payload_type: u8,
    pub sequence_number: u16,
    pub timestamp: u32,
    pub ssrc: u32,
    pub csrc: Seq<u32>,
    pub extension_profile: u16,
    pub extensions: Seq<ExtensionView>,
    pub extensions_padding: nat,
}

/// The contents of a [`Packet`].
#[verifier::ext_equal]
pub struct PacketView {
    pub header: HeaderView,
    pub payload: Seq<u8>,
}

impl View for Extension {
    type V = ExtensionView;

    open spec fn view(&self) -> ExtensionView {
        ExtensionView { id: self.id, payload: crate::buffer::bytes_contents(self.payload) }
    }
}

impl View for Header {
    type V = HeaderView;

    open spec fn view(&self) -> HeaderView {
        HeaderView {
            version: self.version,
            padding: self.padding,
            extension: self.extension,
            marker: self.marker,
            payload_type: self.payload_type,
            sequence_number: self.sequence_number,
            timestamp: self.timestamp,
            ssrc: self.ssrc,
            csrc: self.csrc@,
            extension_profile: self.extension_profile,
            extensions: self.extensions@.map_values(|extension: Extension| extension@),
            extensions_padding: self.extensions_padding as nat,
        }
    }
}

impl View for Packet {
    type V = PacketView;

    open spec fn view(&self) -> PacketView {
        PacketView { header: self.header@, payload: crate::buffer::bytes_contents(self.payload) }
    }
}

impl Clone for Extension {
    fn clone(&self) -> (copy: Extension)
        ensures
            copy@ == self@,
    {
        Extension { id: self.id, payload: self.payload.clone() }
    }
}

impl Clone for Header {
    fn clone(&self) -> (copy: Header)
        ensures
            copy@ == self@,
    {
        let csrc = self.csrc.clone();
        let extensions = self.extensions.clone();
        assert(csrc@ == self.csrc@);
        assert(extensions@.map_values(|extension: Extension| extension@)
            == self.extensions@.map_values(|extension: Extension| extension@));
        Header {
            version: self.version,
            padding: self.padding,
            extension: self.extension,
            marker: self.marker,
            payload_type: self.payload_type,
            sequence_number: self.sequence_number,
            timestamp: self.timestamp,
            ssrc: self.ssrc,
            csrc,
            extension_profile: self.extension_profile,
            extensions,
            extensions_padding: self.extensions_padding,
        }
    }
}

impl Clone for Packet {
    fn clone(&self) -> (copy: Packet)
        ensures
            copy@ == self@,
    {
        Packet { header: self.header.clone(), payload: self.payload.clone() }
    }
}

/// What the RTP codec objects to.
pub enum RtpErrorKind {
    OneByteHeaderId,
    OneByteHeaderSize,
    TwoByteHeaderId,
    TwoByteHeaderSize,
    OtherHeaderId,
    AudioLevel,
    PlayoutDelay,
}

impl RtpErrorKind {
    /// The error that names this kind.
    pub open spec fn error(self) -> crate::error::RtcErrorView {
        match self {
            RtpErrorKind::OneByteHeaderId => crate::error::RtcErrorView {
                name: "ErrRfc8285oneByteHeaderIdrange"@,
                message: "header extension id must be between 1 and 14 for RFC 5285 extensions"@,
            },
            RtpErrorKind::OneByteHeaderSize => crate::error::RtcErrorView {
                name: "ErrRfc8285oneByteHeaderSize"@,
                message: "header extension payload must be 16bytes or less for RFC 5285 one byte extensions"@,
            },
            RtpErrorKind::TwoByteHeaderId => crate::error::RtcErrorView {
                name: "ErrRfc8285twoByteHeaderIdrange"@,
                message: "header extension id must be between 1 and 255 for RFC 5285 extensions"@,
            },
            RtpErrorKind::TwoByteHeaderSize => crate::error::RtcErrorView {
                name: "ErrRfc8285twoByteHeaderSize"@,
                message: "header extension payload must be 255bytes or less for RFC 5285 two byte extensions"@,
            },
            RtpErrorKind::OtherHeaderId => crate::error::RtcErrorView {
                name: "ErrRfc3550headerIdrange"@,
                message: "header extension id must be 0 for none RFC 5285 extensions"@,
            },
            RtpErrorKind::AudioLevel => crate::error::RtcErrorView {
                name: "AudioLevelOverflow"@,
                message: "audio level overflow"@,
            },
            RtpErrorKind::PlayoutDelay => crate::error::RtcErrorView {
                name: "PlayoutDelayOverflow"@,
                message: "playout delay overflow"@,
            },
        }
    }
}

/// `extensions` with `extension` in the place of the first one of its id, or
/// behind all others where there is none.
pub open spec fn placed(
    extensions: Seq<ExtensionView>,
    extension: ExtensionView,
) -> Seq<ExtensionView>
    decreases extensions.len(),
{
    if extensions.len() == 0 {
        seq![extension]
    } else if extensions[0].id == extension.id {
        extensions.update(0, extension)
    } else {
        seq![extensions[0]] + placed(extensions.drop_first(), extension)
    }
}

/// What `extensions` hold under an id: the payload of the first one that has it.
pub open spec fn value_of(extensions: Seq<ExtensionView>, id: u8) -> Option<Seq<u8>>
    decreases extensions.len(),
{
    if extensions.len() == 0 {
        None
    } else if extensions[0].id == id {
        Some(extensions[0].payload)
    } else {
        value_of(extensions.drop_first(), id)
    }
}

/// The bytes that a profile puts in front of each extension.
pub open spec fn id_len(profile: u16) -> int {
    if profile == EXTENSION_PROFILE_ONE_BYTE {
        1
    } else if profile == EXTENSION_PROFILE_TWO_BYTE {
        2
    } else {
        0
    }
}

impl HeaderView {
    /// The profile of a header without extensions once it gets one of `len` bytes.
    pub open spec fn initial_profile(self, len: nat) -> u16 {
        if len <= 16 {
            EXTENSION_PROFILE_ONE_BYTE
        } else if len <= 255 {
            EXTENSION_PROFILE_TWO_BYTE
        } else {
            self.extension_profile
        }
    }

    /// Why the extension `id` cannot be set to `len` bytes: a header with
    /// extensions bounds ids and lengths by its profile.
    pub open spec fn set_error(self, id: u8, len: nat) -> Option<RtpErrorKind> {
        if !self.extension {
            None
        } else if self.extension_profile == EXTENSION_PROFILE_ONE_BYTE {
            if id < 1 || id > 14 {
                Some(RtpErrorKind::OneByteHeaderId)
            } else if len > 16 {
                Some(RtpErrorKind::OneByteHeaderSize)
            } else {
                None
            }
        } else if self.extension_profile == EXTENSION_PROFILE_TWO_BYTE {
            if id < 1 {
                Some(RtpErrorKind::TwoByteHeaderId)
            } else if len > 255 {
                Some(RtpErrorKind::TwoByteHeaderSize)
            } else {
                None
            }
        } else if id != 0 {
            Some(RtpErrorKind::OtherHeaderId)
        } else {
            None
        }
    }

    /// By how many bytes the extensions grow when `id` is set to `len` bytes.
    pub open spec fn growth(self, id: u8, len: nat) -> int {
        if !self.extension {
            len + (if len <= 16 {
                1int
            } else if len <= 255 {
                2
            } else {
                0
            })
        } else {
            match value_of(self.extensions, id) {
                Some(replaced) => len - replaced.len(),
                None => len + id_len(self.extension_profile),
            }
        }
    }

    /// The padding behind the extensions once they have grown by `growth` bytes.
    pub open spec fn padding_after(self, growth: int) -> int {
        if growth < 0 {
            (self.extensions_padding - growth) % 4
        } else if self.extensions_padding < growth % 4 {
            self.extensions_padding + 4 - growth % 4
        } else {
            self.extensions_padding - growth % 4
        }
    }

    /// Whether the codec can count the padding when `id` is set to `len` bytes: what
    /// a shorter value leaves free is added to it.
    pub open spec fn settable(self, id: u8, len: nat) -> bool {
        self.set_error(id, len) is None && self.growth(id, len) < 0 ==> self.extensions_padding
            - self.growth(id, len) <= isize::MAX
    }

    /// The header with the extension `id` set to `payload`.
    pub open spec fn with_set(self, id: u8, payload: Seq<u8>) -> HeaderView {
        let extension = ExtensionView { id, payload };
        if self.extension {
            HeaderView {
                extensions: placed(self.extensions, extension),
                extensions_padding: self.padding_after(self.growth(id, payload.len())) as nat,
                ..self
            }
        } else {
            HeaderView {
                extension: true,
                extension_profile: self.initial_profile(payload.len()),
                extensions: self.extensions.push(extension),
                extensions_padding: self.padding_after(self.growth(id, payload.len())) as nat,
                ..self
            }
        }
    }

    /// The header without any extension.
    pub open spec fn without_extensions(self) -> HeaderView {
        HeaderView {
            extension: false,
            extension_profile: 0,
            extensions: Seq::empty(),
            extensions_padding: 0,
            ..self
        }
    }
}

impl Header {
    /// Where the first extension with an id stands.
    fn find_extension(&self, id: u8) -> (found: Option<usize>)
        ensures
            match found {
                Some(at) => {
                    &&& at < self@.extensions.len()
                    &&& value_of(self@.extensions, id) == Some(
                        self@.extensions[at as int].payload,
                    )
                    &&& self@.extensions[at as int].id == id
                },
                None => value_of(self@.extensions, id) is None,
            },
    {
        let ghost all = self@.extensions;
        let mut at: usize = 0;
        proof {
            assert(all.skip(0) == all);
        }
        while at < self.extensions.len()
            invariant
                at <= self.extensions.len(),
                all == self@.extensions,
                value_of(all, id) == value_of(all.skip(at as int), id),
            decreases self.extensions.len() - at,
        {
            proof {
                assert(all.skip(at as int).drop_first() == all.skip(at + 1));
                assert(all.skip(at as int)[0] == self.extensions@[at as int]@);
            }
            if self.extensions[at].id == id {
                return Some(at);
            }
            at += 1;
        }
        None
    }

    /// Whether the profile refuses to set `id` to `len` bytes.
    fn is_refused(&self, id: u8, len: usize) -> (refused: bool)
        ensures
            refused == (self@.set_error(id, len as nat) is Some),
    {
        if !self.extension {
            false
        } else if self.extension_profile == EXTENSION_PROFILE_ONE_BYTE {
            id < 1 || id > 14 || len > 16
        } else if self.extension_profile == EXTENSION_PROFILE_TWO_BYTE {
            id < 1 || len > 255
        } else {
            id != 0
        }
    }

    /// Checks that the codec can count the padding when `id` is set to `len` bytes.
    pub fn check_settable(&self, id: u8, len: usize) -> (settable: bool)
        ensures
            settable == self@.settable(id, len as nat),
    {
        if !self.extension || self.is_refused(id, len) {
            return true;
        }
        match self.find_extension(id) {
            Some(at) => {
                let held: usize = self.extensions[at].payload.len();
                let limit: usize = isize::MAX as usize;
                held <= len || (self.extensions_padding <= limit && held - len <= limit
                    - self.extensions_padding)
            },
            None => true,
        }
    }
}

/// An extension that was set is what the header holds under its id, unless the
/// header is without extensions and has one under that id all the same, which then
/// stays. What it holds under any other id stays.
pub proof fn law_set_extension_is_held(header: HeaderView, id: u8, payload: Seq<u8>)
    ensures
        header.with_set(id, payload).extension,
        value_of(header.with_set(id, payload).extensions, id) == if header.extension || value_of(
            header.extensions,
            id,
        ) is None {
            Some(payload)
        } else {
            value_of(header.extensions, id)
        },
        forall|other: u8|
            other != id ==> #[trigger] value_of(header.with_set(id, payload).extensions, other)
                == value_of(header.extensions, other),
{
    let extension = ExtensionView { id, payload };
    lemma_placed_values(header.extensions, extension);
    assert forall|any: u8| #[trigger]
        value_of(header.extensions.push(extension), any) == match value_of(header.extensions, any) {
            Some(held) => Some(held),
            None => if any == id {
                Some(payload)
            } else {
                None
            },
        } by {
        lemma_pushed_value(header.extensions, extension, any);
    }
}

/// An extension that was set is among those of the header.
pub(crate) proof fn lemma_set_contains(header: HeaderView, id: u8, payload: Seq<u8>)
    ensures
        header.with_set(id, payload).extensions.contains(ExtensionView { id, payload }),
{
    let extension = ExtensionView { id, payload };
    if header.extension {
        lemma_placed_contains(header.extensions, extension);
    } else {
        let after = header.extensions.push(extension);
        assert(after[after.len() - 1] == extension);
    }
}

/// An extension that was placed is among the others.
proof fn lemma_placed_contains(extensions: Seq<ExtensionView>, extension: ExtensionView)
    ensures
        placed(extensions, extension).contains(extension),
    decreases extensions.len(),
{
    let after = placed(extensions, extension);
    if extensions.len() == 0 || extensions[0].id == extension.id {
        assert(after[0] == extension);
    } else {
        let rest = placed(extensions.drop_first(), extension);
        lemma_placed_contains(extensions.drop_first(), extension);
        let i = choose|i: int| 0 <= i < rest.len() && rest[i] == extension;
        assert(after[i + 1] == extension);
    }
}

/// What is held under an id once an extension stands behind the others.
proof fn lemma_pushed_value(extensions: Seq<ExtensionView>, extension: ExtensionView, id: u8)
    ensures
        value_of(extensions.push(extension), id) == match value_of(extensions, id) {
            Some(held) => Some(held),
            None => if id == extension.id {
                Some(extension.payload)
            } else {
                None
            },
        },
    decreases extensions.len(),
{
    let after = extensions.push(extension);
    if extensions.len() == 0 {
        assert(after.drop_first() == extensions);
        assert(value_of(after.drop_first(), id) is None);
    } else {
        lemma_pushed_value(extensions.drop_first(), extension, id);
        assert(after.drop_first() == extensions.drop_first().push(extension));
    }
}

/// Placing an extension changes what is held under its id alone.
proof fn lemma_placed_values(extensions: Seq<ExtensionView>, extension: ExtensionView)
    ensures
        value_of(placed(extensions, extension), extension.id) == Some(extension.payload),
        forall|other: u8|
            other != extension.id ==> #[trigger] value_of(placed(extensions, extension), other)
                == value_of(extensions, other),
    decreases extensions.len(),
{
    let after = placed(extensions, extension);
    if extensions.len() == 0 {
        assert(after.drop_first() == extensions);
    } else if extensions[0].id == extension.id {
        assert(after.drop_first() == extensions.drop_first());
    } else {
        lemma_placed_values(extensions.drop_first(), extension);
        assert(after.drop_first() == placed(extensions.drop_first(), extension));
    }
    assert forall|other: u8| other != extension.id implies #[trigger] value_of(after, other)
        == value_of(extensions, other) by {
        if extensions.len() > 0 && extensions[0].id != extension.id {
            assert(value_of(placed(extensions.drop_first(), extension), other) == value_of(
                extensions.drop_first(),
                other,
            ));
        } else {
            assert(value_of(after, other) == value_of(after.drop_first(), other));
        }
    }
}

/// The bytes of all payloads.
pub open spec fn payloads_len(extensions: Seq<ExtensionView>) -> nat
    decreases extensions.len(),
{
    if extensions.len() == 0 {
        0
    } else {
        extensions[0].payload.len() + payloads_len(extensions.drop_first())
    }
}

impl HeaderView {
    /// Whether the extensions and their padding fill whole words of four bytes.
    pub open spec fn extensions_aligned(self) -> bool {
        (payloads_len(self.extensions) + self.extensions.len() * id_len(self.extension_profile)
            + self.extensions_padding) % 4 == 0
    }
}

/// Setting an extension keeps the extensions aligned to words of four bytes. The
/// first extension of a header picks its profile: it must not be longer than the
/// profiles with ids admit if the header is preset to one of these, and what is
/// there all the same must fill as much of a word under the new profile.
pub proof fn law_extensions_stay_aligned(header: HeaderView, id: u8, payload: Seq<u8>)
    requires
        header.extensions_aligned(),
        !header.extension ==> if payload.len() > 255 {
            id_len(header.extension_profile) == 0
        } else {
            header.extensions.len() * (id_len(header.initial_profile(payload.len())) - id_len(
                header.extension_profile,
            )) % 4 == 0
        },
    ensures
        header.with_set(id, payload).extensions_aligned(),
{
    let extension = ExtensionView { id, payload };
    let after = header.with_set(id, payload);
    let count = header.extensions.len() as int;
    let width = id_len(after.extension_profile);
    let old_width = id_len(header.extension_profile);
    let growth = header.growth(id, payload.len());
    let before_len = payloads_len(header.extensions) + count * old_width;
    let after_len = payloads_len(after.extensions) + after.extensions.len() * width;
    assert((count + 1) * width == count * width + width) by (nonlinear_arith);
    if header.extension {
        lemma_placed_lens(header.extensions, extension);
        assert(after_len == before_len + growth);
        lemma_padding_makes_up(header, before_len, growth);
    } else {
        lemma_pushed_len(header.extensions, extension);
        assert(count * (width - old_width) == count * width - count * old_width)
            by (nonlinear_arith);
        if payload.len() > 255 {
            assert(width == old_width);
            assert(count * width == 0) by (nonlinear_arith)
                requires
                    width == 0,
            ;
        }
        let shift = count * width - count * old_width;
        assert(shift % 4 == 0);
        assert(after_len == before_len + shift + growth);
        assert((before_len + shift + header.extensions_padding) % 4 == 0) by {
            lemma_shifted_by_words(before_len + header.extensions_padding, shift);
        }
        lemma_padding_makes_up(header, before_len + shift, growth);
    }
}

/// Whole words more or less keep whole words.
proof fn lemma_shifted_by_words(len: int, shift: int)
    requires
        len % 4 == 0,
        shift % 4 == 0,
    ensures
        (len + shift) % 4 == 0,
{
}

/// The padding makes up for what `len` bytes grow by.
proof fn lemma_padding_makes_up(header: HeaderView, len: int, growth: int)
    requires
        (len + header.extensions_padding) % 4 == 0,
    ensures
        header.padding_after(growth) >= 0,
        (len + growth + header.padding_after(growth)) % 4 == 0,
{
}

/// What an extension behind the others adds to the bytes of all payloads.
proof fn lemma_pushed_len(extensions: Seq<ExtensionView>, extension: ExtensionView)
    ensures
        payloads_len(extensions.push(extension)) == payloads_len(extensions)
            + extension.payload.len(),
    decreases extensions.len(),
{
    let after = extensions.push(extension);
    if extensions.len() == 0 {
        assert(after.drop_first() == extensions);
        assert(payloads_len(after.drop_first()) == 0);
    } else {
        lemma_pushed_len(extensions.drop_first(), extension);
        assert(after.drop_first() == extensions.drop_first().push(extension));
    }
}

/// What placing an extension does to lengths.
proof fn lemma_placed_lens(extensions: Seq<ExtensionView>, extension: ExtensionView)
    ensures
        match value_of(extensions, extension.id) {
            Some(replaced) => {
                &&& placed(extensions, extension).len() == extensions.len()
                &&& payloads_len(placed(extensions, extension)) == payloads_len(extensions)
                    + extension.payload.len() - replaced.len()
            },
            None => {
                &&& placed(extensions, extension).len() == extensions.len() + 1
                &&& payloads_len(placed(extensions, extension)) == payloads_len(extensions)
                    + extension.payload.len()
            },
        },
    decreases extensions.len(),
{
    let after = placed(extensions, extension);
    if extensions.len() == 0 {
        assert(after.drop_first() == extensions);
    } else if extensions[0].id == extension.id {
        assert(after.drop_first() == extensions.drop_first());
    } else {
        lemma_placed_lens(extensions.drop_first(), extension);
        assert(after.drop_first() == placed(extensions.drop_first(), extension));
    }
}

/// Nothing of a packet is hidden from what is said of it: every field of its header,
/// every extension in its place, and its payload.
pub proof fn law_view_shows_every_field(packet: Packet)
    ensures
        packet@.payload == crate::buffer::bytes_contents(packet.payload),
        packet@.header.version == packet.header.version,
        packet@.header.padding == packet.header.padding,
        packet@.header.extension == packet.header.extension,
        packet@.header.marker == packet.header.marker,
        packet@.header.payload_type == packet.header.payload_type,
        packet@.header.sequence_number == packet.header.sequence_number,
        packet@.header.timestamp == packet.header.timestamp,
        packet@.header.ssrc == packet.header.ssrc,
        packet@.header.csrc == packet.header.csrc@,
        packet@.header.extension_profile == packet.header.extension_profile,
        packet@.header.extensions_padding == packet.header.extensions_padding,
        packet@.header.extensions.len() == packet.header.extensions@.len(),
        forall|i: int|
            0 <= i < packet.header.extensions@.len() ==> {
                &&& (#[trigger] packet@.header.extensions[i]).id == packet.header.extensions@[i].id
                &&& packet@.header.extensions[i].payload == crate::buffer::bytes_contents(
                    packet.header.extensions@[i].payload,
                )
            },
{
}

/// What extensions hold under an id is the payload of the first one that has that id,
/// and they hold nothing under an id that none has.
pub proof fn law_first_extension_of_an_id_counts(extensions: Seq<ExtensionView>, id: u8)
    ensures
        match value_of(extensions, id) {
            Some(payload) => exists|i: int|
                {
                    &&& 0 <= i < extensions.len()
                    &&& #[trigger] extensions[i] == (ExtensionView { id, payload })
                    &&& forall|j: int| 0 <= j < i ==> (#[trigger] extensions[j]).id != id
                },
            None => forall|i: int| 0 <= i < extensions.len() ==> (#[trigger] extensions[i]).id != id,
        },
    decreases extensions.len(),
{
    if extensions.len() > 0 {
        let rest = extensions.drop_first();
        law_first_extension_of_an_id_counts(rest, id);
        assert forall|i: int| 0 < i < extensions.len() implies #[trigger] extensions[i] == rest[i
            - 1] by {}
        if extensions[0].id == id {
            assert(extensions[0] == (ExtensionView { id, payload: extensions[0].payload }));
        } else if let Some(payload) = value_of(rest, id) {
            let i = choose|i: int|
                {
                    &&& 0 <= i < rest.len()
                    &&& #[trigger] rest[i] == (ExtensionView { id, payload })
                    &&& forall|j: int| 0 <= j < i ==> (#[trigger] rest[j]).id != id
                };
            assert(extensions[i + 1] == (ExtensionView { id, payload }));
        }
    }
}

/// In a header with extensions, one that is set takes the place of the first one of its
/// id, or goes behind all others where there is none: the place is `at`. In a header
/// without extensions it goes behind all that is there. All others stay where they are.
pub proof fn law_set_extension_keeps_the_places(
    header: HeaderView,
    id: u8,
    payload: Seq<u8>,
    at: int,
)
    requires
        0 <= at <= header.extensions.len(),
        header.extension ==> forall|j: int|
            0 <= j < at ==> (#[trigger] header.extensions[j]).id != id,
        at < header.extensions.len() ==> header.extension && header.extensions[at].id == id,
    ensures
        header.with_set(id, payload).extensions == if at < header.extensions.len() {
            header.extensions.update(at, ExtensionView { id, payload })
        } else {
            header.extensions.push(ExtensionView { id, payload })
        },
{
    if header.extension {
        lemma_placed_at(header.extensions, ExtensionView { id, payload }, at);
    }
}

/// An extension is placed where the first one of its id stands, or behind all others.
proof fn lemma_placed_at(extensions: Seq<ExtensionView>, extension: ExtensionView, at: int)
    requires
        0 <= at <= extensions.len(),
        forall|j: int| 0 <= j < at ==> (#[trigger] extensions[j]).id != extension.id,
        at < extensions.len() ==> extensions[at].id == extension.id,
    ensures
        placed(extensions, extension) == if at < extensions.len() {
            extensions.update(at, extension)
        } else {
            extensions.push(extension)
        },
    decreases extensions.len(),
{
    if extensions.len() > 0 && at > 0 {
        let rest = extensions.drop_first();
        assert forall|j: int| 0 <= j < at - 1 implies (#[trigger] rest[j]).id != extension.id by {
            assert(rest[j] == extensions[j + 1]);
        }
        lemma_placed_at(rest, extension, at - 1);
        assert(extensions[0].id != extension.id);
    }
}

/// A header with extensions takes what its profile can carry, and nothing else: ids
/// from 1 to 14 and up to 16 bytes with one byte headers, ids from 1 and up to 255
/// bytes with two byte headers, and the id 0 with any other profile. A header without
/// extensions takes any.
pub proof fn law_profiles_bound_ids_and_lengths(header: HeaderView, id: u8, len: nat)
    ensures
        header.set_error(id, len) is None <==> {
            ||| !header.extension
            ||| header.extension_profile == 0xBEDE && 1 <= id <= 14 && len <= 16
            ||| header.extension_profile == 0x1000 && 1 <= id && len <= 255
            ||| header.extension_profile != 0xBEDE && header.extension_profile != 0x1000 && id == 0
        },
        header.set_error(id, len) matches Some(kind) ==> match kind {
            RtpErrorKind::OneByteHeaderId => header.extension_profile == 0xBEDE && !(1 <= id
                <= 14),
            RtpErrorKind::OneByteHeaderSize => header.extension_profile == 0xBEDE && 1 <= id <= 14
                && len > 16,
            RtpErrorKind::TwoByteHeaderId => header.extension_profile == 0x1000 && id == 0,
            RtpErrorKind::TwoByteHeaderSize => header.extension_profile == 0x1000 && id > 0 && len
                > 255,
            RtpErrorKind::OtherHeaderId => header.extension_profile != 0xBEDE
                && header.extension_profile != 0x1000,
            _ => false,
        },
{
}

/// The first extension of a header picks the profile by its length: one byte headers up
/// to 16 bytes, two byte headers up to 255, and for more what the header is preset to.
/// Further ones keep it. Nothing but the extensions, their flag, profile and padding
/// changes.
pub proof fn law_first_extension_picks_the_profile(header: HeaderView, id: u8, payload: Seq<u8>)
    ensures
        header.with_set(id, payload).extension,
        header.with_set(id, payload).extension_profile == if header.extension {
            header.extension_profile
        } else if payload.len() <= 16 {
            0xBEDE
        } else if payload.len() <= 255 {
            0x1000
        } else {
            header.extension_profile
        },
        header.with_set(id, payload).version == header.version,
        header.with_set(id, payload).padding == header.padding,
        header.with_set(id, payload).marker == header.marker,
        header.with_set(id, payload).payload_type == header.payload_type,
        header.with_set(id, payload).sequence_number == header.sequence_number,
        header.with_set(id, payload).timestamp == header.timestamp,
        header.with_set(id, payload).ssrc == header.ssrc,
        header.with_set(id, payload).csrc == header.csrc,
{
}

/// The padding behind the extensions stays below the four bytes of a word.
pub proof fn law_padding_stays_below_a_word(header: HeaderView, id: u8, payload: Seq<u8>)
    requires
        header.extensions_padding < 4,
    ensures
        header.with_set(id, payload).extensions_padding < 4,
{
}

/// A value can always be set, but for one that is shorter than what a header with
/// extensions holds under its id: the padding and what it leaves free must then be
/// countable together.
pub proof fn law_only_shrinking_can_be_too_much(header: HeaderView, id: u8, len: nat)
    ensures
        header.settable(id, len) <==> {
            ||| !header.extension
            ||| header.set_error(id, len) is Some
            ||| value_of(header.extensions, id) is None
            ||| value_of(header.extensions, id)->0.len() <= len
            ||| header.extensions_padding + value_of(header.extensions, id)->0.len() - len
                <= isize::MAX
        },
{
}

/// A header without its extensions has none, and neither a profile nor padding. All
/// else stays.
pub proof fn law_without_extensions_keeps_the_rest(header: HeaderView)
    ensures
        !header.without_extensions().extension,
        header.without_extensions().extension_profile == 0,
        header.without_extensions().extensions.len() == 0,
        header.without_extensions().extensions_padding == 0,
        header.without_extensions().version == header.version,
        header.without_extensions().padding == header.padding,
        header.without_extensions().marker == header.marker,
        header.without_extensions().payload_type == header.payload_type,
        header.without_extensions().sequence_number == header.sequence_number,
        header.without_extensions().timestamp == header.timestamp,
        header.without_extensions().ssrc == header.ssrc,
        header.without_extensions().csrc == header.csrc,
{
}

/// `rtc::rtp::header::Header::set_extension`. In a header with extensions the
/// first one of the same id gets the new payload, and a new id goes behind the
/// others, provided that the profile allows the id and the length. A header
/// without extensions takes any id and picks the profile by the length. The
/// padding makes up for what the extensions grow or shrink by, modulo four.
/// Nothing else of the header changes, and nothing at all on an error.
#[verifier::external_body]
pub(crate) fn set_extension(target: &mut Header, id: u8, payload: Bytes) -> (set: Result<
    (),
    RtcError,
>)
    requires
        old(target)@.settable(id, crate::buffer::bytes_contents(payload).len()),
    ensures
        match old(target)@.set_error(id, crate::buffer::bytes_contents(payload).len()) {
            Some(kind) => {
                &&& set matches Err(error)
                &&& error@ == kind.error()
                &&& final(target)@ == old(target)@
            },
            None => {
                &&& set is Ok
                &&& final(target)@ == old(target)@.with_set(
                    id,
                    crate::buffer::bytes_contents(payload),
                )
            },
        },
{
    let mut changed = header::Header {
        extension: target.extension,
        extension_profile: target.extension_profile,
        extensions: target.extensions.drain(..).map(|e| header::Extension { id: e.id, payload: e.payload }).collect(),
        extensions_padding: target.extensions_padding,
        ..Default::default()
    };
    let set = changed.set_extension(id, payload);
    target.extension = changed.extension;
    target.extension_profile = changed.extension_profile;
    target.extensions = changed.extensions.into_iter().map(|e| Extension { id: e.id, payload: e.payload }).collect();
    target.extensions_padding = changed.extensions_padding;
    set.map_err(|e| RtcError { name: format!("{e:?}"), message: e.to_string() })
}

} // verus!
