//! Errors that a caller sees.

use vstd::prelude::*;

verus! {

/// Why an operation failed.
#[derive(Clone, Debug, PartialEq, Eq)]
pub enum Error {
    /// The track is not bound to a sender.
    ErrBindFailed,
    /// The peer connection has no such sender.
    ErrRTPSenderNotExisted,
    /// The peer connection objects.
    Rtc(RtcError),
    /// Anything else, described in words.
    Other(String),
}

/// An error of the `rtc` crate: the name of its variant and its message.
#[derive(Debug, PartialEq, Eq)]
pub struct RtcError {
    pub name: String,
    pub message: String,
}

/// An [`RtcError`] with its texts as sequences of characters.
pub struct RtcErrorView {
    pub name: Seq<char>,
    pub message: Seq<char>,
}

impl View for RtcError {
    type V = RtcErrorView;

    open spec fn view(&self) -> RtcErrorView {
        RtcErrorView { name: self.name@, message: self.message@ }
    }
}

impl Clone for RtcError {
    fn clone(&self) -> (copy: RtcError)
        ensures
            copy@ == self@,
    {
        RtcError { name: self.name.clone(), message: self.message.clone() }
    }
}

/// An [`Error`] with its text as a sequence of characters.
pub enum ErrorView {
    ErrBindFailed,
    ErrRTPSenderNotExisted,
    Rtc(RtcErrorView),
    Other(Seq<char>),
}

impl View for Error {
    type V = ErrorView;

    open spec fn view(&self) -> ErrorView {
        match self {
            Error::ErrBindFailed => ErrorView::ErrBindFailed,
            Error::ErrRTPSenderNotExisted => ErrorView::ErrRTPSenderNotExisted,
            Error::Rtc(error) => ErrorView::Rtc(error@),
            Error::Other(text) => ErrorView::Other(text@),
        }
    }
}

/// The texts, one per line.
pub open spec fn joined_lines(texts: Seq<Seq<char>>) -> Seq<char>
    decreases texts.len(),
{
    if texts.len() == 0 {
        Seq::empty()
    } else if texts.len() == 1 {
        texts[0]
    } else {
        joined_lines(texts.drop_last()) + seq!['\n'] + texts.last()
    }
}

/// One more text goes behind the others, parted from them by a single line feed, and
/// stands alone where there is no other.
pub proof fn law_texts_come_one_per_line(texts: Seq<Seq<char>>, text: Seq<char>)
    ensures
        joined_lines(texts.push(text)) == if texts.len() == 0 {
            text
        } else {
            joined_lines(texts) + seq!['\n'] + text
        },
        joined_lines(Seq::empty()).len() == 0,
{
    assert(texts.push(text).drop_last() =~= texts);
    assert(texts.push(text).last() == text);
}

/// What is said of an error tells it apart from all others, and tells its texts in full.
pub proof fn law_view_tells_errors_apart(error: Error)
    ensures
        match error {
            Error::ErrBindFailed => error@ is ErrBindFailed,
            Error::ErrRTPSenderNotExisted => error@ is ErrRTPSenderNotExisted,
            Error::Rtc(given) => error@ matches ErrorView::Rtc(told) && told.name == given.name@
                && told.message == given.message@,
            Error::Other(text) => error@ matches ErrorView::Other(told) && told == text@,
        },
{
}

/// `rtc::shared::error::flatten_errs` on errors that are described in words: no
/// error if there is none, else one whose text joins the others by line feeds.
#[verifier::external_body]
pub(crate) fn flatten_errs(texts: Vec<String>) -> (flattened: Result<(), Error>)
    ensures
        match flattened {
            Ok(_) => texts@.len() == 0,
            Err(error) => texts@.len() > 0 && error@ == ErrorView::Other(
                joined_lines(texts@.map_values(|text: String| text@)),
            ),
        },
{
    let errors: Vec<rtc::shared::error::Error> = texts.into_iter().map(rtc::shared::error::Error::Other).collect();
    rtc::shared::error::flatten_errs(errors).map_err(|e| Error::Other(e.to_string()))
}

} // verus!
