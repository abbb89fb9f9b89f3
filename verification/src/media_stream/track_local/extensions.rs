//! How header extensions get into the packets of a local track.

use crate::rtp::extension::HeaderExtension;
use crate::rtp::{set_extension, Header};
use crate::rtp_transceiver::rtp_sender::RTCRtpHeaderExtensionParameters;
use bytes::Bytes;
use vstd::prelude::*;

verus! {

/// The id negotiated for a header extension: that of the first entry with its
/// URI, of which the low byte counts.
pub open spec fn negotiated_id(
    negotiated: Seq<RTCRtpHeaderExtensionParameters>,
    uri: Seq<char>,
) -> Option<u8>
    decreases negotiated.len(),
{
    if negotiated.len() == 0 {
        None
    } else if negotiated[0].uri@ == uri {
        Some((negotiated[0].id % 0x100) as u8)
    } else {
        negotiated_id(negotiated.drop_first(), uri)
    }
}

/// Looks up the id negotiated for a header extension.
pub(crate) fn find_negotiated_id(
    negotiated: &Vec<RTCRtpHeaderExtensionParameters>,
    uri: &String,
) -> (id: Option<u8>)
    ensures
        id == negotiated_id(negotiated@, uri@),
        id matches Some(id) ==> exists|i: int|
            {
                &&& 0 <= i < negotiated@.len()
                &&& (#[trigger] negotiated@[i]).uri@ == uri@
                &&& id as int == negotiated@[i].id as int % 256
                &&& forall|j: int| 0 <= j < i ==> (#[trigger] negotiated@[j]).uri@ != uri@
            },
        id is None ==> forall|i: int|
            0 <= i < negotiated@.len() ==> (#[trigger] negotiated@[i]).uri@ != uri@,
{
    let mut at: usize = 0;
    proof {
        assert(negotiated@.skip(0) == negotiated@);
    }
    while at < negotiated.len()
        invariant
            at <= negotiated.len(),
            negotiated_id(negotiated@, uri@) == negotiated_id(negotiated@.skip(at as int), uri@),
            forall|j: int| 0 <= j < at ==> (#[trigger] negotiated@[j]).uri@ != uri@,
        decreases negotiated.len() - at,
    {
        proof {
            assert(negotiated@.skip(at as int).drop_first() == negotiated@.skip(at + 1));
        }
        if negotiated[at].uri == *uri {
            let id: u16 = negotiated[at].id;
            assert(id as u8 == (id % 0x100) as u8) by (bit_vector);
            assert(negotiated@[at as int].uri@ == uri@);
            return Some(id as u8);
        }
        at += 1;
    }
    None
}

/// A header extension in its wire form, with the URI that it is negotiated by.
pub struct MarshaledExtension {
    pub uri: String,
    pub payload: Bytes,
}

/// The contents of a [`MarshaledExtension`].
#[verifier::ext_equal]
pub struct MarshaledExtensionView {
    pub uri: Seq<char>,
    pub payload: Seq<u8>,
}

impl View for MarshaledExtension {
    type V = MarshaledExtensionView;

    open spec fn view(&self) -> MarshaledExtensionView {
        MarshaledExtensionView {
            uri: self.uri@,
            payload: crate::buffer::bytes_contents(self.payload),
        }
    }
}

/// The contents of several marshaled extensions.
pub open spec fn marshaled_view(data: Seq<MarshaledExtension>) -> Seq<MarshaledExtensionView> {
    data.map_values(|extension: MarshaledExtension| extension@)
}

/// The texts of several strings.
pub open spec fn texts_view(texts: Seq<String>) -> Seq<Seq<char>> {
    texts.map_values(|text: String| text@)
}

/// `data` with `extension` in the place of the one with its URI, or behind all
/// others where there is none.
pub open spec fn recorded(
    data: Seq<MarshaledExtensionView>,
    extension: MarshaledExtensionView,
) -> Seq<MarshaledExtensionView>
    decreases data.len(),
{
    if data.len() == 0 {
        seq![extension]
    } else if data[0].uri == extension.uri {
        data.update(0, extension)
    } else {
        seq![data[0]] + recorded(data.drop_first(), extension)
    }
}

/// The wire forms of `extensions`: one for each URI, the last that has one, in
/// the order in which the URIs first come.
pub open spec fn wire_forms(extensions: Seq<HeaderExtension>) -> Seq<MarshaledExtensionView>
    decreases extensions.len(),
{
    if extensions.len() == 0 {
        Seq::empty()
    } else {
        let before = wire_forms(extensions.drop_last());
        match extensions.last().wire_form() {
            Ok(payload) => recorded(
                before,
                MarshaledExtensionView { uri: extensions.last().spec_uri(), payload },
            ),
            Err(_) => before,
        }
    }
}

/// The messages of those of `extensions` that have no wire form.
pub open spec fn wire_form_errors(extensions: Seq<HeaderExtension>) -> Seq<Seq<char>>
    decreases extensions.len(),
{
    if extensions.len() == 0 {
        Seq::empty()
    } else {
        let before = wire_form_errors(extensions.drop_last());
        match extensions.last().wire_form() {
            Ok(_) => before,
            Err(error) => before.push(error.message),
        }
    }
}

/// The header with those of `data` set that were negotiated and that it admits.
pub open spec fn header_with_extensions(
    header: crate::rtp::HeaderView,
    negotiated: Seq<RTCRtpHeaderExtensionParameters>,
    data: Seq<MarshaledExtensionView>,
) -> crate::rtp::HeaderView
    decreases data.len(),
{
    if data.len() == 0 {
        header
    } else {
        let before = header_with_extensions(header, negotiated, data.drop_last());
        match negotiated_id(negotiated, data.last().uri) {
            Some(id) if before.set_error(id, data.last().payload.len()) is None => before.with_set(
                id,
                data.last().payload,
            ),
            _ => before,
        }
    }
}

/// The messages for those of `data` that were negotiated and that the header
/// does not admit.
pub open spec fn set_errors(
    header: crate::rtp::HeaderView,
    negotiated: Seq<RTCRtpHeaderExtensionParameters>,
    data: Seq<MarshaledExtensionView>,
) -> Seq<Seq<char>>
    decreases data.len(),
{
    if data.len() == 0 {
        Seq::empty()
    } else {
        let before = header_with_extensions(header, negotiated, data.drop_last());
        let errors = set_errors(header, negotiated, data.drop_last());
        match negotiated_id(negotiated, data.last().uri) {
            Some(id) => match before.set_error(id, data.last().payload.len()) {
                Some(kind) => errors.push(kind.error().message),
                None => errors,
            },
            None => errors,
        }
    }
}

/// Puts `extension` in the place of the one with its URI, or behind all others.
fn record(data: &mut Vec<MarshaledExtension>, extension: MarshaledExtension)
    ensures
        marshaled_view(final(data)@) == recorded(marshaled_view(old(data)@), extension@),
{
    let ghost before = marshaled_view(data@);
    let mut at: usize = 0;
    proof {
        assert(before.skip(0) == before);
        assert(before.take(0) + recorded(before, extension@) == recorded(before, extension@));
    }
    while at < data.len()
        invariant
            at <= data.len(),
            *data == *old(data),
            before == marshaled_view(data@),
            recorded(before, extension@) == before.take(at as int) + recorded(
                before.skip(at as int),
                extension@,
            ),
        decreases data.len() - at,
    {
        let ghost rest = before.skip(at as int);
        assert(rest[0] == data@[at as int]@);
        if data[at].uri == extension.uri {
            data[at] = extension;
            assert(marshaled_view(data@) == before.take(at as int) + rest.update(0, extension@));
            return;
        }
        assert(rest.drop_first() == before.skip(at + 1));
        assert(before.take(at as int) + (seq![rest[0]] + recorded(before.skip(at + 1), extension@))
            == before.take(at + 1) + recorded(before.skip(at + 1), extension@));
        at += 1;
    }
    data.push(extension);
    assert(marshaled_view(data@) == before.take(at as int) + seq![extension@]);
}

/// Brings `extensions` into their wire forms.
pub(crate) fn marshal_extensions(extensions: &[HeaderExtension]) -> (marshaled: (
    Vec<MarshaledExtension>,
    Vec<String>,
))
    ensures
        marshaled_view(marshaled.0@) == wire_forms(extensions@),
        texts_view(marshaled.1@) == wire_form_errors(extensions@),
{
    let mut data: Vec<MarshaledExtension> = Vec::new();
    let mut errors: Vec<String> = Vec::new();
    let mut at: usize = 0;
    while at < extensions.len()
        invariant
            at <= extensions.len(),
            marshaled_view(data@) == wire_forms(extensions@.take(at as int)),
            texts_view(errors@) == wire_form_errors(extensions@.take(at as int)),
        decreases extensions.len() - at,
    {
        let ghost done = extensions@.take(at + 1);
        assert(done.drop_last() == extensions@.take(at as int));
        let extension = &extensions[at];
        match extension.marshal() {
            Ok(payload) => record(&mut data, MarshaledExtension { uri: extension.uri(), payload }),
            Err(error) => {
                let ghost before = errors@;
                errors.push(error.message);
                assert(texts_view(errors@) == texts_view(before).push(error.message@));
            },
        }
        at += 1;
    }
    assert(extensions@.take(at as int) == extensions@);
    (data, errors)
}

/// Sets those of `data` that were negotiated in `header`. Returns the messages
/// for those that it does not admit.
pub(crate) fn attach_extensions(
    header: &mut Header,
    negotiated: &Vec<RTCRtpHeaderExtensionParameters>,
    data: Vec<MarshaledExtension>,
    errors: &mut Vec<String>,
)
    requires
        extensions_fit(old(header)@, negotiated@, marshaled_view(data@)),
    ensures
        final(header)@ == header_with_extensions(
            old(header)@,
            negotiated@,
            marshaled_view(data@),
        ),
        texts_view(final(errors)@) == texts_view(old(errors)@) + set_errors(
            old(header)@,
            negotiated@,
            marshaled_view(data@),
        ),
{
    let ghost all = marshaled_view(data@);
    let mut at: usize = 0;
    while at < data.len()
        invariant
            at <= data.len(),
            all == marshaled_view(data@),
            extensions_fit(old(header)@, negotiated@, all),
            header@ == header_with_extensions(old(header)@, negotiated@, all.take(at as int)),
            texts_view(errors@) == texts_view(old(errors)@) + set_errors(
                old(header)@,
                negotiated@,
                all.take(at as int),
            ),
        decreases data.len() - at,
    {
        let ghost done = all.take(at + 1);
        let ghost told = errors@;
        assert(done.drop_last() == all.take(at as int));
        assert(done.last() == data@[at as int]@);
        assert(done.last() == all[at as int]);
        if let Some(id) = find_negotiated_id(negotiated, &data[at].uri) {
            match set_extension(header, id, data[at].payload.clone()) {
                Ok(()) => {},
                Err(error) => {
                    errors.push(error.message);
                    assert(texts_view(errors@) == texts_view(told).push(error.message@));
                },
            }
        }
        at += 1;
    }
    assert(all.take(at as int) == all);
}

/// Whether the codec can count the padding whenever one of `data` is set that was
/// negotiated.
pub open spec fn extensions_fit(
    header: crate::rtp::HeaderView,
    negotiated: Seq<RTCRtpHeaderExtensionParameters>,
    data: Seq<MarshaledExtensionView>,
) -> bool {
    forall|i: int|
        0 <= i < data.len() ==> (negotiated_id(negotiated, (#[trigger] data[i]).uri) matches Some(
            id,
        ) ==> header_with_extensions(header, negotiated, data.take(i)).settable(
            id,
            data[i].payload.len(),
        ))
}

/// Recording an extension brings in no other.
proof fn lemma_recorded_elements(
    data: Seq<MarshaledExtensionView>,
    extension: MarshaledExtensionView,
)
    ensures
        forall|i: int|
            0 <= i < recorded(data, extension).len() ==> (#[trigger] recorded(data, extension)[i])
                == extension || data.contains(recorded(data, extension)[i]),
    decreases data.len(),
{
    let after = recorded(data, extension);
    if data.len() > 0 && data[0].uri != extension.uri {
        let rest = data.drop_first();
        lemma_recorded_elements(rest, extension);
        assert forall|i: int| 0 <= i < after.len() && after[i] != extension implies data.contains(
            #[trigger] after[i],
        ) by {
            if i == 0 {
                assert(data[0] == after[0]);
            } else {
                assert(after[i] == recorded(rest, extension)[i - 1]);
                let j = choose|j: int| 0 <= j < rest.len() && rest[j] == after[i];
                assert(data[j + 1] == after[i]);
            }
        }
    } else if data.len() > 0 {
        assert forall|i: int| 0 <= i < after.len() && after[i] != extension implies data.contains(
            #[trigger] after[i],
        ) by {
            assert(data[i] == after[i]);
        }
    }
}

/// Checks that the codec can count the padding whenever one of `extensions` is set
/// that was negotiated.
pub fn check_extensions_fit(
    header: &Header,
    negotiated: &Vec<RTCRtpHeaderExtensionParameters>,
    extensions: &[HeaderExtension],
) -> (fit: bool)
    ensures
        fit == extensions_fit(header@, negotiated@, wire_forms(extensions@)),
{
    let (data, _errors) = marshal_extensions(extensions);
    let ghost all = marshaled_view(data@);
    let mut reached = header.clone();
    let mut at: usize = 0;
    while at < data.len()
        invariant
            at <= data.len(),
            all == marshaled_view(data@),
            all == wire_forms(extensions@),
            reached@ == header_with_extensions(header@, negotiated@, all.take(at as int)),
            extensions_fit(header@, negotiated@, all.take(at as int)),
        decreases data.len() - at,
    {
        let ghost done = all.take(at + 1);
        assert(done.drop_last() == all.take(at as int));
        assert(done.last() == data@[at as int]@);
        assert(done.last() == all[at as int]);
        if let Some(id) = find_negotiated_id(negotiated, &data[at].uri) {
            if !reached.check_settable(id, data[at].payload.len()) {
                return false;
            }
            let _set = set_extension(&mut reached, id, data[at].payload.clone());
        }
        assert forall|i: int| 0 <= i < done.len() implies (negotiated_id(
            negotiated@,
            (#[trigger] done[i]).uri,
        ) matches Some(id) ==> header_with_extensions(
            header@,
            negotiated@,
            done.take(i),
        ).settable(id, done[i].payload.len())) by {
            assert(done.take(i) == all.take(at as int).take(i));
            if i < at {
                assert(done[i] == all.take(at as int)[i]);
            }
        }
        at += 1;
    }
    assert(all.take(at as int) == all);
    true
}

/// The id of a header extension is the low byte of the id of the first negotiated entry
/// that has exactly its URI. There is none exactly where no entry has that URI.
pub proof fn law_negotiated_id_is_that_of_the_first_entry(
    negotiated: Seq<RTCRtpHeaderExtensionParameters>,
    uri: Seq<char>,
)
    ensures
        match negotiated_id(negotiated, uri) {
            Some(id) => exists|i: int|
                {
                    &&& 0 <= i < negotiated.len()
                    &&& (#[trigger] negotiated[i]).uri@ == uri
                    &&& id as int == negotiated[i].id as int % 256
                    &&& forall|j: int| 0 <= j < i ==> (#[trigger] negotiated[j]).uri@ != uri
                },
            None => forall|i: int|
                0 <= i < negotiated.len() ==> (#[trigger] negotiated[i]).uri@ != uri,
        },
    decreases negotiated.len(),
{
    if negotiated.len() > 0 && negotiated[0].uri@ != uri {
        let rest = negotiated.drop_first();
        law_negotiated_id_is_that_of_the_first_entry(rest, uri);
        assert forall|i: int| 0 < i < negotiated.len() implies #[trigger] negotiated[i] == rest[i
            - 1] by {}
        if let Some(id) = negotiated_id(rest, uri) {
            let i = choose|i: int|
                {
                    &&& 0 <= i < rest.len()
                    &&& (#[trigger] rest[i]).uri@ == uri
                    &&& id as int == rest[i].id as int % 256
                    &&& forall|j: int| 0 <= j < i ==> (#[trigger] rest[j]).uri@ != uri
                };
            assert(negotiated[i + 1].uri@ == uri);
        }
    }
}

/// The entry at `at` decides on the id where it has the URI and none before it has.
pub proof fn law_first_entry_decides_on_the_id(
    negotiated: Seq<RTCRtpHeaderExtensionParameters>,
    uri: Seq<char>,
    at: int,
)
    requires
        0 <= at < negotiated.len(),
        negotiated[at].uri@ == uri,
        forall|j: int| 0 <= j < at ==> (#[trigger] negotiated[j]).uri@ != uri,
    ensures
        negotiated_id(negotiated, uri) matches Some(id) && id as int == negotiated[at].id as int
            % 256,
{
    law_negotiated_id_is_that_of_the_first_entry(negotiated, uri);
}

/// One more extension adds its wire form behind the others, or puts it in the place `at`
/// of the one that was there for its URI. One without a wire form adds its message to
/// the errors instead. No extensions give neither wire forms nor errors.
pub proof fn law_each_extension_adds_its_wire_form(
    extensions: Seq<HeaderExtension>,
    last: HeaderExtension,
    at: int,
)
    requires
        0 <= at <= wire_forms(extensions).len(),
        forall|j: int|
            0 <= j < wire_forms(extensions).len() && j != at ==> (#[trigger] wire_forms(
                extensions,
            )[j]).uri != last.spec_uri(),
        at < wire_forms(extensions).len() ==> wire_forms(extensions)[at].uri == last.spec_uri(),
    ensures
        match last.wire_form() {
            Ok(payload) => {
                let form = MarshaledExtensionView { uri: last.spec_uri(), payload };
                &&& wire_forms(extensions.push(last)) == if at < wire_forms(extensions).len() {
                    wire_forms(extensions).update(at, form)
                } else {
                    wire_forms(extensions).push(form)
                }
                &&& wire_form_errors(extensions.push(last)) == wire_form_errors(extensions)
            },
            Err(error) => {
                &&& wire_forms(extensions.push(last)) == wire_forms(extensions)
                &&& wire_form_errors(extensions.push(last)) == wire_form_errors(extensions).push(
                    error.message,
                )
            },
        },
        wire_forms(Seq::empty()) == Seq::<MarshaledExtensionView>::empty(),
        wire_form_errors(Seq::empty()) == Seq::<Seq<char>>::empty(),
{
    assert(extensions.push(last).drop_last() =~= extensions);
    assert(extensions.push(last).last() == last);
    if let Ok(payload) = last.wire_form() {
        lemma_recorded_at(
            wire_forms(extensions),
            MarshaledExtensionView { uri: last.spec_uri(), payload },
            at,
        );
    }
}

/// An extension is recorded where the first one with its URI stands, or behind all
/// others.
proof fn lemma_recorded_at(
    data: Seq<MarshaledExtensionView>,
    extension: MarshaledExtensionView,
    at: int,
)
    requires
        0 <= at <= data.len(),
        forall|j: int| 0 <= j < at ==> (#[trigger] data[j]).uri != extension.uri,
        at < data.len() ==> data[at].uri == extension.uri,
    ensures
        recorded(data, extension) == if at < data.len() {
            data.update(at, extension)
        } else {
            data.push(extension)
        },
    decreases data.len(),
{
    if data.len() > 0 && at > 0 {
        let rest = data.drop_first();
        assert forall|j: int| 0 <= j < at - 1 implies (#[trigger] rest[j]).uri != extension.uri by {
            assert(rest[j] == data[j + 1]);
        }
        lemma_recorded_at(rest, extension, at - 1);
        assert(data[0].uri != extension.uri);
    }
}

/// One more wire form is set in what the others have made of the header, under the low
/// byte of the id of the first entry, at `at`, that was negotiated for its URI. Where
/// the header refuses it, the header stays and the message of the refusal is added to
/// the errors. Without such an entry, at the end of the negotiated ones, nothing
/// changes. No wire forms leave the header as it is, and give no errors.
pub proof fn law_each_wire_form_is_set_or_refused(
    header: crate::rtp::HeaderView,
    negotiated: Seq<RTCRtpHeaderExtensionParameters>,
    data: Seq<MarshaledExtensionView>,
    last: MarshaledExtensionView,
    at: int,
)
    requires
        0 <= at <= negotiated.len(),
        forall|j: int| 0 <= j < at ==> (#[trigger] negotiated[j]).uri@ != last.uri,
        at < negotiated.len() ==> negotiated[at].uri@ == last.uri,
    ensures
        ({
            let before = header_with_extensions(header, negotiated, data);
            let after = header_with_extensions(header, negotiated, data.push(last));
            let told = set_errors(header, negotiated, data);
            let id = (negotiated[at].id as int % 256) as u8;
            if at == negotiated.len() {
                &&& after == before
                &&& set_errors(header, negotiated, data.push(last)) == told
            } else {
                match before.set_error(id, last.payload.len()) {
                    Some(kind) => {
                        &&& after == before
                        &&& set_errors(header, negotiated, data.push(last)) == told.push(
                            kind.error().message,
                        )
                    },
                    None => {
                        &&& after == before.with_set(id, last.payload)
                        &&& set_errors(header, negotiated, data.push(last)) == told
                    },
                }
            }
        }),
        header_with_extensions(header, negotiated, Seq::empty()) == header,
        set_errors(header, negotiated, Seq::empty()) == Seq::<Seq<char>>::empty(),
{
    assert(data.push(last).drop_last() =~= data);
    assert(data.push(last).last() == last);
    law_negotiated_id_is_that_of_the_first_entry(negotiated, last.uri);
    if at < negotiated.len() {
        law_first_entry_decides_on_the_id(negotiated, last.uri, at);
    }
}

/// One more wire form fits where the others fit and the codec can count the padding when
/// it is set in what these have made of the header, under the low byte of the id of the
/// first entry, at `at`, that was negotiated for its URI. Without such an entry, at the
/// end of the negotiated ones, it always fits, and no wire forms do too.
pub proof fn law_each_wire_form_has_to_fit(
    header: crate::rtp::HeaderView,
    negotiated: Seq<RTCRtpHeaderExtensionParameters>,
    data: Seq<MarshaledExtensionView>,
    last: MarshaledExtensionView,
    at: int,
)
    requires
        0 <= at <= negotiated.len(),
        forall|j: int| 0 <= j < at ==> (#[trigger] negotiated[j]).uri@ != last.uri,
        at < negotiated.len() ==> negotiated[at].uri@ == last.uri,
    ensures
        extensions_fit(header, negotiated, data.push(last)) <==> {
            &&& extensions_fit(header, negotiated, data)
            &&& at == negotiated.len() || header_with_extensions(header, negotiated, data).settable(
                (negotiated[at].id as int % 256) as u8,
                last.payload.len(),
            )
        },
        extensions_fit(header, negotiated, Seq::empty()),
{
    let more = data.push(last);
    law_negotiated_id_is_that_of_the_first_entry(negotiated, last.uri);
    if at < negotiated.len() {
        law_first_entry_decides_on_the_id(negotiated, last.uri, at);
    }
    assert(more.take(data.len() as int) =~= data);
    assert(more[data.len() as int] == last);
    assert forall|i: int| 0 <= i < data.len() implies #[trigger] more[i] == data[i] && more.take(i)
        == data.take(i) by {
        assert(more.take(i) =~= data.take(i));
    }
    if extensions_fit(header, negotiated, more) {
        assert forall|i: int| 0 <= i < data.len() implies (negotiated_id(
            negotiated,
            (#[trigger] data[i]).uri,
        ) matches Some(id) ==> header_with_extensions(
            header,
            negotiated,
            data.take(i),
        ).settable(id, data[i].payload.len())) by {
            assert(more[i] == data[i]);
        }
    }
}

/// Setting extensions changes nothing else of a header.
pub proof fn law_extensions_keep_the_rest(
    header: crate::rtp::HeaderView,
    negotiated: Seq<RTCRtpHeaderExtensionParameters>,
    data: Seq<MarshaledExtensionView>,
)
    ensures
        header_with_extensions(header, negotiated, data).without_extensions()
            == header.without_extensions(),
    decreases data.len(),
{
    if data.len() > 0 {
        law_extensions_keep_the_rest(header, negotiated, data.drop_last());
    }
}

/// Extensions that were not negotiated leave the header as it is, and are no error.
pub proof fn law_unnegotiated_extensions_are_left_out(
    header: crate::rtp::HeaderView,
    negotiated: Seq<RTCRtpHeaderExtensionParameters>,
    data: Seq<MarshaledExtensionView>,
)
    requires
        forall|i: int|
            0 <= i < data.len() ==> negotiated_id(negotiated, (#[trigger] data[i]).uri) is None,
    ensures
        header_with_extensions(header, negotiated, data) == header,
        set_errors(header, negotiated, data) == Seq::<Seq<char>>::empty(),
    decreases data.len(),
{
    if data.len() > 0 {
        let before = data.drop_last();
        assert forall|i: int| 0 <= i < before.len() implies negotiated_id(
            negotiated,
            (#[trigger] before[i]).uri,
        ) is None by {
            assert(before[i] == data[i]);
        }
        law_unnegotiated_extensions_are_left_out(header, negotiated, before);
        assert(data[data.len() - 1] == data.last());
    }
}

/// The id under which the extension at `i` is set: the negotiated one, unless the
/// header refuses it.
pub open spec fn set_id(
    header: crate::rtp::HeaderView,
    negotiated: Seq<RTCRtpHeaderExtensionParameters>,
    data: Seq<MarshaledExtensionView>,
    i: int,
) -> Option<u8> {
    match negotiated_id(negotiated, data[i].uri) {
        Some(id) if header_with_extensions(header, negotiated, data.take(i)).set_error(
            id,
            data[i].payload.len(),
        ) is None => Some(id),
        _ => None,
    }
}

/// Whether the extension at `i` is hidden by one that the header has under its id
/// though it is without extensions: this happens to the first one that is set.
pub open spec fn is_hidden(
    header: crate::rtp::HeaderView,
    negotiated: Seq<RTCRtpHeaderExtensionParameters>,
    data: Seq<MarshaledExtensionView>,
    i: int,
) -> bool {
    &&& !header.extension
    &&& set_id(header, negotiated, data, i) matches Some(id)
    &&& crate::rtp::value_of(header.extensions, id) is Some
    &&& forall|j: int| 0 <= j < i ==> #[trigger] set_id(header, negotiated, data, j) is None
}

/// The header holds under each id the wire form of the last extension that was set
/// under it, unless that one is hidden. Under an id that none was set under it holds
/// what it held.
pub proof fn law_set_extensions_are_held(
    header: crate::rtp::HeaderView,
    negotiated: Seq<RTCRtpHeaderExtensionParameters>,
    data: Seq<MarshaledExtensionView>,
)
    ensures
        header_with_extensions(header, negotiated, data).extension <==> header.extension || exists|
            i: int,
        |
            0 <= i < data.len() && #[trigger] set_id(header, negotiated, data, i) is Some,
        forall|i: int|
            0 <= i < data.len() && !is_hidden(header, negotiated, data, i) ==> (
            #[trigger] set_id(header, negotiated, data, i) matches Some(id) ==> (forall|j: int|
                i < j < data.len() ==> #[trigger] set_id(header, negotiated, data, j) != Some(id))
                ==> crate::rtp::value_of(
                header_with_extensions(header, negotiated, data).extensions,
                id,
            ) == Some(data[i].payload)),
        forall|id: u8|
            (forall|i: int|
                0 <= i < data.len() ==> #[trigger] set_id(header, negotiated, data, i) != Some(id))
                ==> #[trigger] crate::rtp::value_of(
                header_with_extensions(header, negotiated, data).extensions,
                id,
            ) == crate::rtp::value_of(header.extensions, id),
    decreases data.len(),
{
    if data.len() > 0 {
        let before = data.drop_last();
        let last = data.len() - 1;
        let reached = header_with_extensions(header, negotiated, before);
        let after = header_with_extensions(header, negotiated, data);
        assert(data.take(last) == before);
        assert forall|i: int| 0 <= i < last implies #[trigger] set_id(header, negotiated, before, i)
            == set_id(header, negotiated, data, i) by {
            assert(before[i] == data[i]);
            assert(before.take(i) == data.take(i));
        }
        law_set_extensions_are_held(header, negotiated, before);
        let set = set_id(header, negotiated, data, last);
        if let Some(id) = set {
            crate::rtp::law_set_extension_is_held(reached, id, data[last].payload);
            assert(after == reached.with_set(id, data[last].payload));
        } else {
            assert(after == reached);
        }
        assert forall|i: int| 0 <= i < data.len() && !is_hidden(header, negotiated, data, i) implies (
        #[trigger] set_id(header, negotiated, data, i) matches Some(id) ==> (forall|j: int|
            i < j < data.len() ==> #[trigger] set_id(header, negotiated, data, j) != Some(id))
            ==> crate::rtp::value_of(after.extensions, id) == Some(data[i].payload)) by {
            if let Some(id) = set_id(header, negotiated, data, i) {
                if forall|j: int|
                    i < j < data.len() ==> #[trigger] set_id(header, negotiated, data, j) != Some(
                        id,
                    ) {
                    if i < last {
                        assert(before[i] == data[i]);
                        assert(set_id(header, negotiated, before, i) == Some(id));
                        assert(!is_hidden(header, negotiated, before, i)) by {
                            if is_hidden(header, negotiated, before, i) {
                                assert forall|j: int| 0 <= j < i implies #[trigger] set_id(
                                    header,
                                    negotiated,
                                    data,
                                    j,
                                ) is None by {
                                    assert(set_id(header, negotiated, before, j) is None);
                                }
                            }
                        }
                        assert(set_id(header, negotiated, data, last) != Some(id));
                        assert forall|j: int| i < j < before.len() implies #[trigger] set_id(
                            header,
                            negotiated,
                            before,
                            j,
                        ) != Some(id) by {
                            assert(set_id(header, negotiated, data, j) != Some(id));
                        }
                    } else if !reached.extension {
                        assert forall|j: int| 0 <= j < i implies #[trigger] set_id(
                            header,
                            negotiated,
                            data,
                            j,
                        ) is None by {
                            assert(set_id(header, negotiated, before, j) is None);
                        }
                        assert forall|j: int| 0 <= j < before.len() implies #[trigger] set_id(
                            header,
                            negotiated,
                            before,
                            j,
                        ) != Some(id) by {}
                        assert(crate::rtp::value_of(reached.extensions, id)
                            == crate::rtp::value_of(header.extensions, id));
                    }
                }
            }
        }
        assert forall|id: u8|
            (forall|i: int|
                0 <= i < data.len() ==> #[trigger] set_id(header, negotiated, data, i) != Some(
                    id,
                )) implies #[trigger] crate::rtp::value_of(after.extensions, id)
            == crate::rtp::value_of(header.extensions, id) by {
            assert forall|i: int| 0 <= i < before.len() implies #[trigger] set_id(
                header,
                negotiated,
                before,
                i,
            ) != Some(id) by {
                assert(set_id(header, negotiated, data, i) != Some(id));
            }
            assert(set_id(header, negotiated, data, last) != Some(id));
            assert(crate::rtp::value_of(reached.extensions, id) == crate::rtp::value_of(
                header.extensions,
                id,
            ));
        }
        if header.extension {
        } else if exists|i: int|
            0 <= i < data.len() && #[trigger] set_id(header, negotiated, data, i) is Some {
            let i = choose|i: int|
                0 <= i < data.len() && #[trigger] set_id(header, negotiated, data, i) is Some;
            if i < last {
                assert(set_id(header, negotiated, before, i) is Some);
            }
        } else {
            assert(set_id(header, negotiated, data, last) is None);
            assert forall|i: int| 0 <= i < before.len() implies #[trigger] set_id(
                header,
                negotiated,
                before,
                i,
            ) is None by {
                assert(set_id(header, negotiated, data, i) is None);
            }
        }
    }
}

/// What was recorded under a URI.
pub open spec fn recorded_value(data: Seq<MarshaledExtensionView>, uri: Seq<char>) -> Option<
    Seq<u8>,
>
    decreases data.len(),
{
    if data.len() == 0 {
        None
    } else if data[0].uri == uri {
        Some(data[0].payload)
    } else {
        recorded_value(data.drop_first(), uri)
    }
}

/// Of several values for one extension the last one counts, and no extension is
/// set twice.
pub proof fn law_last_value_counts(extensions: Seq<HeaderExtension>, last: HeaderExtension)
    ensures
        forall|i: int, j: int|
            0 <= i < j < wire_forms(extensions).len() ==> (#[trigger] wire_forms(extensions)[i]).uri
                != (#[trigger] wire_forms(extensions)[j]).uri,
        last.wire_form() matches Ok(payload) ==> recorded_value(
            wire_forms(extensions.push(last)),
            last.spec_uri(),
        ) == Some(payload),
        forall|uri: Seq<char>|
            (uri != last.spec_uri() || last.wire_form() is Err) ==> #[trigger] recorded_value(
                wire_forms(extensions.push(last)),
                uri,
            ) == recorded_value(wire_forms(extensions), uri),
{
    assert(extensions.push(last).drop_last() == extensions);
    lemma_wire_forms_distinct(extensions);
    if let Ok(payload) = last.wire_form() {
        lemma_recorded_values(
            wire_forms(extensions),
            MarshaledExtensionView { uri: last.spec_uri(), payload },
        );
    }
}

/// No two wire forms share a URI.
proof fn lemma_wire_forms_distinct(extensions: Seq<HeaderExtension>)
    ensures
        forall|i: int, j: int|
            0 <= i < j < wire_forms(extensions).len() ==> (#[trigger] wire_forms(extensions)[i]).uri
                != (#[trigger] wire_forms(extensions)[j]).uri,
    decreases extensions.len(),
{
    if extensions.len() > 0 {
        lemma_wire_forms_distinct(extensions.drop_last());
        if let Ok(payload) = extensions.last().wire_form() {
            lemma_recorded_distinct(
                wire_forms(extensions.drop_last()),
                MarshaledExtensionView { uri: extensions.last().spec_uri(), payload },
            );
        }
    }
}

/// Recording an extension keeps the URIs apart.
proof fn lemma_recorded_distinct(
    data: Seq<MarshaledExtensionView>,
    extension: MarshaledExtensionView,
)
    requires
        forall|i: int, j: int|
            0 <= i < j < data.len() ==> (#[trigger] data[i]).uri != (#[trigger] data[j]).uri,
    ensures
        forall|i: int, j: int|
            0 <= i < j < recorded(data, extension).len() ==> (#[trigger] recorded(
                data,
                extension,
            )[i]).uri != (#[trigger] recorded(data, extension)[j]).uri,
    decreases data.len(),
{
    let after = recorded(data, extension);
    if data.len() > 0 && data[0].uri != extension.uri {
        let rest = data.drop_first();
        assert forall|i: int| 0 <= i < rest.len() implies #[trigger] rest[i] == data[i + 1] by {}
        lemma_recorded_distinct(rest, extension);
        lemma_recorded_elements(rest, extension);
        let tail = recorded(rest, extension);
        assert forall|i: int, j: int| 0 <= i < j < after.len() implies (#[trigger] after[i]).uri != (
        #[trigger] after[j]).uri by {
            assert(after[j] == tail[j - 1]);
            if i == 0 {
                if after[j] != extension {
                    let k = choose|k: int| 0 <= k < rest.len() && rest[k] == tail[j - 1];
                    assert(data[k + 1] == after[j]);
                    assert(data[0] == after[0]);
                }
            } else {
                assert(after[i] == tail[i - 1]);
            }
        }
    }
}

/// Recording an extension changes what is recorded under its URI alone.
proof fn lemma_recorded_values(
    data: Seq<MarshaledExtensionView>,
    extension: MarshaledExtensionView,
)
    ensures
        recorded_value(recorded(data, extension), extension.uri) == Some(extension.payload),
        forall|uri: Seq<char>|
            uri != extension.uri ==> #[trigger] recorded_value(recorded(data, extension), uri)
                == recorded_value(data, uri),
    decreases data.len(),
{
    let after = recorded(data, extension);
    if data.len() == 0 {
        assert(after.drop_first() == data);
    } else if data[0].uri == extension.uri {
        assert(after.drop_first() == data.drop_first());
    } else {
        lemma_recorded_values(data.drop_first(), extension);
        assert(after.drop_first() == recorded(data.drop_first(), extension));
    }
    assert forall|uri: Seq<char>| uri != extension.uri implies #[trigger] recorded_value(after, uri)
        == recorded_value(data, uri) by {
        if data.len() > 0 && data[0].uri != extension.uri {
            assert(recorded_value(recorded(data.drop_first(), extension), uri) == recorded_value(
                data.drop_first(),
                uri,
            ));
        } else {
            assert(recorded_value(after, uri) == recorded_value(after.drop_first(), uri));
        }
    }
}

} // verus!
