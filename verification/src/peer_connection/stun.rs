//! Finding the peer connection that a STUN binding request is meant for.
//!
//! An ICE agent puts `remote-ufrag:local-ufrag` into the `USERNAME` attribute
//! of its binding requests. The part behind the last colon names the receiving
//! peer connection.

use vstd::prelude::*;
use vstd::slice::slice_subrange;
use vstd::utf8::*;

verus! {

/// The length of the fixed header in front of the attributes.
pub const STUN_HEADER_LEN: usize = 20;

/// The length of the type and length fields in front of an attribute's value.
pub const STUN_ATTRIBUTE_HEADER_LEN: usize = 4;

/// The type of the `USERNAME` attribute.
pub const STUN_ATTR_USERNAME: u16 = 0x0006;

/// The largest value of a sixteen bit length field.
pub const MAX_LENGTH: usize = 0xFFFF;

/// The four bytes that every STUN message carries behind its length field.
pub open spec fn magic_cookie() -> Seq<u8> {
    seq![0x21u8, 0x12u8, 0xA4u8, 0x42u8]
}

/// The number that two bytes stand for in network order.
pub open spec fn be16(high: u8, low: u8) -> int {
    high * 256 + low
}

/// The bytes that bring a value of `len` bytes to a multiple of four.
pub open spec fn padding_len(len: int) -> int {
    (4 - len % 4) % 4
}

/// Whether `packet` is framed as a STUN message: the two leading bits are
/// clear, the magic cookie is in place, and the length field counts exactly the
/// bytes behind the header.
pub open spec fn is_stun_message(packet: Seq<u8>) -> bool {
    &&& packet.len() >= STUN_HEADER_LEN
    &&& packet[0] < 64
    &&& packet.subrange(4, 8) == magic_cookie()
    &&& packet.len() == STUN_HEADER_LEN + be16(packet[2], packet[3])
}

/// The value of the first `USERNAME` among the encoded `attributes`, if it is
/// reached before an attribute that does not fit into what is left.
pub open spec fn username_value(attributes: Seq<u8>) -> Option<Seq<u8>>
    decreases attributes.len(),
{
    if attributes.len() < 4 {
        None
    } else {
        let len = be16(attributes[2], attributes[3]);
        let next = 4 + len + padding_len(len);
        if 4 + len > attributes.len() {
            None
        } else if be16(attributes[0], attributes[1]) == STUN_ATTR_USERNAME {
            Some(attributes.subrange(4, 4 + len))
        } else if next > attributes.len() {
            None
        } else {
            username_value(attributes.skip(next))
        }
    }
}

/// What follows the last colon of `name`.
pub open spec fn after_last_colon(name: Seq<char>) -> Option<Seq<char>> {
    match name.index_of_last(':') {
        Some(index) => Some(name.skip(index + 1)),
        None => None,
    }
}

/// The local username fragment that `packet` is addressed to.
pub open spec fn addressed_ufrag(packet: Seq<u8>) -> Option<Seq<char>> {
    if !is_stun_message(packet) {
        None
    } else {
        match username_value(packet.skip(STUN_HEADER_LEN as int)) {
            Some(value) => if valid_utf8(value) {
                after_last_colon(decode_utf8(value))
            } else {
                None
            },
            None => None,
        }
    }
}

/// `std::str::from_utf8`: succeeds on valid UTF-8 only, and hands out the
/// characters that the bytes encode.
#[verifier::external_body]
fn from_utf8(bytes: &[u8]) -> (text: Option<&str>)
    ensures
        text is Some <==> valid_utf8(bytes@),
        text matches Some(text) ==> text@ == decode_utf8(bytes@),
{
    std::str::from_utf8(bytes).ok()
}

/// `str::rsplit_once` with a character: the text before and behind its last
/// occurrence, or nothing where there is none.
#[verifier::external_body]
fn rsplit_once(text: &str, separator: char) -> (parts: Option<(&str, &str)>)
    ensures
        parts is Some <==> text@.contains(separator),
        parts matches Some((before, behind)) ==> {
            &&& text@ == before@ + seq![separator] + behind@
            &&& !behind@.contains(separator)
        },
{
    text.rsplit_once(separator)
}

fn be16_at(bytes: &[u8], index: usize) -> (value: u16)
    requires
        index + 1 < bytes@.len(),
    ensures
        value == be16(bytes@[index as int], bytes@[index + 1]),
{
    bytes[index] as u16 * 256 + bytes[index + 1] as u16
}

fn has_magic_cookie(packet: &[u8]) -> (found: bool)
    requires
        packet@.len() >= STUN_HEADER_LEN,
    ensures
        found <==> packet@.subrange(4, 8) == magic_cookie(),
{
    let found = packet[4] == 0x21 && packet[5] == 0x12 && packet[6] == 0xA4 && packet[7] == 0x42;
    proof {
        let cookie = packet@.subrange(4, 8);
        assert(cookie[0] == packet@[4] && cookie[1] == packet@[5] && cookie[2] == packet@[6]
            && cookie[3] == packet@[7]);
        if found {
            assert(cookie =~= magic_cookie());
        } else {
            let expected = magic_cookie();
            assert(expected[0] == 0x21 && expected[1] == 0x12 && expected[2] == 0xA4 && expected[3]
                == 0x42);
        }
    }
    found
}

/// A text that is split at a colon, with no colon behind it, was split at its
/// last colon.
proof fn lemma_split_is_last(name: Seq<char>, before: Seq<char>, behind: Seq<char>)
    requires
        name == before + seq![':'] + behind,
        !behind.contains(':'),
    ensures
        after_last_colon(name) == Some(behind),
{
    name.index_of_last_ensures(':');
    assert(name[before.len() as int] == ':');
    let index = name.index_of_last(':')->0;
    if index > before.len() {
        assert(behind[index - before.len() - 1] == ':');
    }
    assert(name.skip(before.len() as int + 1) =~= behind);
}

/// The text behind the last colon of the first `USERNAME` attribute of
/// `packet`. There is none where `packet` is no STUN message, where no such
/// attribute is reached, or where its value is no UTF-8 or has no colon.
pub fn destination_ufrag(packet: &[u8]) -> (ufrag: Option<&str>)
    ensures
        ufrag is Some <==> addressed_ufrag(packet@) is Some,
        ufrag matches Some(ufrag) ==> addressed_ufrag(packet@) == Some(ufrag@),
{
    if packet.len() < STUN_HEADER_LEN {
        return None;
    }
    let first = packet[0];
    assert((first & 0b1100_0000u8 != 0) == (first >= 64)) by (bit_vector);
    if first & 0b1100_0000 != 0 || !has_magic_cookie(packet) {
        return None;
    }
    let message_len = be16_at(packet, 2) as usize;
    if message_len + STUN_HEADER_LEN != packet.len() {
        return None;
    }
    let mut offset: usize = STUN_HEADER_LEN;
    let ghost attributes = packet@.skip(STUN_HEADER_LEN as int);
    while offset + STUN_ATTRIBUTE_HEADER_LEN <= packet.len()
        invariant
            STUN_HEADER_LEN <= offset,
            offset <= packet@.len() + 3,
            packet@.len() <= STUN_HEADER_LEN + MAX_LENGTH,
            is_stun_message(packet@),
            attributes == packet@.skip(STUN_HEADER_LEN as int),
            offset <= packet@.len() ==> username_value(attributes) == username_value(
                packet@.skip(offset as int),
            ),
            offset > packet@.len() ==> username_value(attributes) is None,
        decreases packet@.len() + 4 - offset,
    {
        let ghost rest = packet@.skip(offset as int);
        let attribute_type = be16_at(packet, offset);
        let value_len = be16_at(packet, offset + 2) as usize;
        assert(be16(rest[0], rest[1]) == attribute_type && be16(rest[2], rest[3]) == value_len);
        let value_start = offset + STUN_ATTRIBUTE_HEADER_LEN;
        let value_end = value_start + value_len;
        if value_end > packet.len() {
            return None;
        }
        if attribute_type == STUN_ATTR_USERNAME {
            let value = slice_subrange(packet, value_start, value_end);
            assert(value@ =~= rest.subrange(4, 4 + value_len as int));
            let username = match from_utf8(value) {
                Some(username) => username,
                None => {
                    return None;
                },
            };
            return match rsplit_once(username, ':') {
                Some((before, local_ufrag)) => {
                    proof {
                        lemma_split_is_last(username@, before@, local_ufrag@);
                    }
                    Some(local_ufrag)
                },
                None => {
                    proof {
                        username@.index_of_last_ensures(':');
                    }
                    None
                },
            };
        }
        let padding = (4 - value_len % 4) % 4;
        proof {
            let next = 4 + value_len + padding_len(value_len as int);
            if offset + next <= packet@.len() {
                assert(rest.skip(next) =~= packet@.skip(offset + next));
            }
        }
        offset = value_end + padding;
    }
    None
}

/// The two bytes of `number` in network order.
pub open spec fn be16_bytes(number: int) -> Seq<u8> {
    seq![(number / 256) as u8, (number % 256) as u8]
}

/// An attribute as a sender lays it out: its type, its value, and the bytes,
/// whatever they hold, that pad the value to a multiple of four.
pub struct StunAttribute {
    pub kind: u16,
    pub value: Seq<u8>,
    pub padding: Seq<u8>,
}

impl StunAttribute {
    /// Whether the length field can hold the value's length, and the padding
    /// is as long as it has to be.
    pub open spec fn well_formed(self) -> bool {
        &&& self.value.len() <= MAX_LENGTH
        &&& self.padding.len() == padding_len(self.value.len() as int)
    }

    /// The attribute's bytes.
    pub open spec fn encode(self) -> Seq<u8> {
        be16_bytes(self.kind as int) + be16_bytes(self.value.len() as int) + self.value
            + self.padding
    }
}

/// The bytes of `attributes`, one behind the other.
pub open spec fn encode_attributes(attributes: Seq<StunAttribute>) -> Seq<u8>
    decreases attributes.len(),
{
    if attributes.len() == 0 {
        seq![]
    } else {
        attributes[0].encode() + encode_attributes(attributes.drop_first())
    }
}

/// The value of the first `USERNAME` among `attributes`.
pub open spec fn first_username(attributes: Seq<StunAttribute>) -> Option<Seq<u8>>
    decreases attributes.len(),
{
    if attributes.len() == 0 {
        None
    } else if attributes[0].kind == STUN_ATTR_USERNAME {
        Some(attributes[0].value)
    } else {
        first_username(attributes.drop_first())
    }
}

/// A STUN message of type `kind` with the given transaction id and attributes.
pub open spec fn stun_message(
    kind: u16,
    transaction_id: Seq<u8>,
    attributes: Seq<StunAttribute>,
) -> Seq<u8> {
    let body = encode_attributes(attributes);
    be16_bytes(kind as int) + be16_bytes(body.len() as int) + magic_cookie() + transaction_id + body
}

/// Whether a STUN message can be laid out from the given parts.
pub open spec fn stun_parts(
    kind: u16,
    transaction_id: Seq<u8>,
    attributes: Seq<StunAttribute>,
) -> bool {
    &&& kind < 0x4000
    &&& transaction_id.len() == 12
    &&& forall|i: int|
        0 <= i < attributes.len() ==> (#[trigger] attributes[i]).well_formed()
    &&& encode_attributes(attributes).len() <= MAX_LENGTH
}

proof fn lemma_be16_bytes(number: int)
    requires
        0 <= number <= MAX_LENGTH,
    ensures
        be16_bytes(number).len() == 2,
        be16(be16_bytes(number)[0], be16_bytes(number)[1]) == number,
{
}

/// Looking for the user name in encoded attributes finds the first one that
/// was encoded.
proof fn lemma_username_of_encoded(attributes: Seq<StunAttribute>)
    requires
        forall|i: int|
            0 <= i < attributes.len() ==> (#[trigger] attributes[i]).well_formed(),
    ensures
        username_value(encode_attributes(attributes)) == first_username(attributes),
    decreases attributes.len(),
{
    let bytes = encode_attributes(attributes);
    if attributes.len() > 0 {
        let first = attributes[0];
        let tail = attributes.drop_first();
        assert(first.well_formed());
        assert forall|i: int| 0 <= i < tail.len() implies (#[trigger] tail[i]).well_formed() by {
            assert(tail[i] == attributes[i + 1]);
        }
        lemma_username_of_encoded(tail);
        let len = first.value.len() as int;
        lemma_be16_bytes(first.kind as int);
        lemma_be16_bytes(len);
        let kind_bytes = be16_bytes(first.kind as int);
        let len_bytes = be16_bytes(len);
        assert(bytes[0] == kind_bytes[0] && bytes[1] == kind_bytes[1]);
        assert(bytes[2] == len_bytes[0] && bytes[3] == len_bytes[1]);
        assert(bytes.subrange(4, 4 + len) =~= first.value);
        assert(bytes.skip(4 + len + padding_len(len)) =~= encode_attributes(tail));
    }
}

/// A STUN message is addressed to the peer connection that its first
/// `USERNAME` names, whatever attributes stand before and behind it: to none
/// where it has no such attribute, and else to what follows the last colon of
/// the attribute's text.
pub proof fn law_first_username_addresses_message(
    kind: u16,
    transaction_id: Seq<u8>,
    attributes: Seq<StunAttribute>,
)
    requires
        stun_parts(kind, transaction_id, attributes),
    ensures
        addressed_ufrag(stun_message(kind, transaction_id, attributes)) == match first_username(
            attributes,
        ) {
            Some(value) if valid_utf8(value) => after_last_colon(decode_utf8(value)),
            _ => None,
        },
{
    let body = encode_attributes(attributes);
    let message = stun_message(kind, transaction_id, attributes);
    lemma_be16_bytes(kind as int);
    lemma_be16_bytes(body.len() as int);
    lemma_username_of_encoded(attributes);
    let len_bytes = be16_bytes(body.len() as int);
    assert(message[0] == be16_bytes(kind as int)[0]);
    assert(message[2] == len_bytes[0] && message[3] == len_bytes[1]);
    assert(message.subrange(4, 8) =~= magic_cookie());
    assert(message.skip(STUN_HEADER_LEN as int) =~= body);
}

/// A binding request for the user name `remote:local` is addressed to `local`,
/// however many colons `remote` holds.
pub proof fn law_request_reaches_local_ufrag(
    kind: u16,
    transaction_id: Seq<u8>,
    attributes: Seq<StunAttribute>,
    remote: Seq<char>,
    local: Seq<char>,
)
    requires
        stun_parts(kind, transaction_id, attributes),
        first_username(attributes) == Some(encode_utf8(remote + seq![':'] + local)),
        !local.contains(':'),
    ensures
        addressed_ufrag(stun_message(kind, transaction_id, attributes)) == Some(local),
{
    let name = remote + seq![':'] + local;
    law_first_username_addresses_message(kind, transaction_id, attributes);
    vstd::utf8::encode_utf8_valid_utf8(name);
    vstd::utf8::encode_utf8_decode_utf8(name);
    lemma_split_is_last(name, remote, local);
}

/// What is no STUN message is addressed to nobody: shorter than the header of twenty
/// bytes, with one of the two leading bits set, without the four bytes of the magic
/// cookie behind the length field, or with a length field that does not count exactly
/// the bytes behind the header.
pub proof fn law_only_stun_messages_are_addressed(packet: Seq<u8>)
    requires
        addressed_ufrag(packet) is Some,
    ensures
        packet.len() >= 20,
        packet[0] < 0x40,
        packet[4] == 0x21,
        packet[5] == 0x12,
        packet[6] == 0xA4,
        packet[7] == 0x42,
        packet.len() == 20 + packet[2] * 256 + packet[3],
{
    let cookie = packet.subrange(4, 8);
    assert(cookie[0] == packet[4] && cookie[1] == packet[5] && cookie[2] == packet[6] && cookie[3]
        == packet[7]);
    let expected = magic_cookie();
    assert(expected[0] == 0x21 && expected[1] == 0x12 && expected[2] == 0xA4 && expected[3] == 0x42);
}

/// Whether the attribute at the place `k` of `starts` is whole and of another type than
/// six, and the next place is the multiple of four behind its value.
pub open spec fn steps_over(packet: Seq<u8>, starts: Seq<int>, k: int) -> bool {
    let at = starts[k];
    let len = packet[at + 2] * 256 + packet[at + 3];
    &&& at + 4 + len <= packet.len()
    &&& packet[at] * 256 + packet[at + 1] != 6
    &&& starts[k + 1] == at + 4 + (len + 3) / 4 * 4
}

/// The walk over the attributes goes from the first one behind the header to the next
/// multiple of four behind each value. It ends without a user name where no attribute
/// header is left or a value does not fit, and at the first attribute of type six with
/// that one's value: the message is addressed to what follows the last colon of its
/// text. `starts` are the places that the walk has come by.
pub proof fn law_walk_ends_at_the_first_username(packet: Seq<u8>, starts: Seq<int>)
    requires
        packet.len() >= 20,
        packet[0] < 0x40,
        packet[4] == 0x21,
        packet[5] == 0x12,
        packet[6] == 0xA4,
        packet[7] == 0x42,
        packet.len() == 20 + packet[2] * 256 + packet[3],
        starts.len() > 0,
        starts[0] == 20,
        forall|k: int|
            0 <= k < starts.len() - 1 ==> #[trigger] steps_over(packet, starts, k),
    ensures
        ({
            let at = starts.last();
            let len = packet[at + 2] * 256 + packet[at + 3];
            if at + 4 > packet.len() || at + 4 + len > packet.len() {
                addressed_ufrag(packet) is None
            } else if packet[at] * 256 + packet[at + 1] == 6 {
                let value = packet.subrange(at + 4, at + 4 + len);
                match addressed_ufrag(packet) {
                    Some(ufrag) => {
                        &&& valid_utf8(value)
                        &&& !ufrag.contains(':')
                        &&& exists|remote: Seq<char>|
                            decode_utf8(value) == #[trigger] (remote + seq![':']) + ufrag
                    },
                    None => valid_utf8(value) ==> !decode_utf8(value).contains(':'),
                }
            } else {
                true
            }
        }),
{
    let cookie = packet.subrange(4, 8);
    assert(cookie =~= magic_cookie());
    lemma_walk(packet, starts);
    let at = starts.last();
    let len = packet[at + 2] * 256 + packet[at + 3];
    if at + 4 + len <= packet.len() && packet[at] * 256 + packet[at + 1] == 6 {
        let value = packet.subrange(at + 4, at + 4 + len);
        assert(packet.skip(at).subrange(4, 4 + len) =~= value);
        if valid_utf8(value) {
            lemma_after_last_colon(decode_utf8(value));
        }
    }
}

/// Behind the last colon of a text there is none, and the text goes on with what is
/// behind it.
proof fn lemma_after_last_colon(name: Seq<char>)
    ensures
        match after_last_colon(name) {
            Some(behind) => !behind.contains(':') && exists|before: Seq<char>|
                name == #[trigger] (before + seq![':']) + behind,
            None => !name.contains(':'),
        },
{
    name.index_of_last_ensures(':');
    if let Some(behind) = after_last_colon(name) {
        let index = name.index_of_last(':')->0;
        let before = name.take(index);
        assert(name =~= (before + seq![':']) + behind);
        if behind.contains(':') {
            let i = choose|i: int| 0 <= i < behind.len() && behind[i] == ':';
            assert(name[index + 1 + i] == ':');
        }
    }
}

/// The user name that is looked for is found from every place that the walk comes by.
proof fn lemma_walk(packet: Seq<u8>, starts: Seq<int>)
    requires
        packet.len() >= 20,
        starts.len() > 0,
        starts[0] == 20,
        forall|k: int|
            0 <= k < starts.len() - 1 ==> #[trigger] steps_over(packet, starts, k),
    ensures
        starts.last() >= 20,
        username_value(packet.skip(20)) == if starts.last() <= packet.len() {
            username_value(packet.skip(starts.last()))
        } else {
            None
        },
    decreases starts.len(),
{
    if starts.len() > 1 {
        let before = starts.drop_last();
        assert forall|k: int| 0 <= k < before.len() - 1 implies #[trigger] steps_over(
            packet,
            before,
            k,
        ) by {
            assert(steps_over(packet, starts, k));
        }
        lemma_walk(packet, before);
        let last = starts.len() - 1;
        let at = starts[last - 1];
        assert(before.last() == at);
        assert(steps_over(packet, starts, last - 1));
        let len = packet[at + 2] * 256 + packet[at + 3];
        assert(starts[last] == at + 4 + (len + 3) / 4 * 4);
        let rest = packet.skip(at);
        assert(rest[0] == packet[at] && rest[1] == packet[at + 1] && rest[2] == packet[at + 2]
            && rest[3] == packet[at + 3]);
        assert(len + padding_len(len) == (len + 3) / 4 * 4);
        if starts[last] <= packet.len() {
            assert(rest.skip(starts[last] - at) =~= packet.skip(starts[last]));
        }
    }
}

} // verus!
