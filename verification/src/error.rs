//! What can go wrong while a feed is read.

use vstd::prelude::*;
use vstd::string::StringExecFns;

verus! {

/// A failure met while reading a feed.
#[derive(Debug, Clone, PartialEq, Eq)]
pub enum Error {
    /// A document does not begin with a declaration followed by a document type.
    MalformedHeader,
    /// A processing instruction that cannot be decoded or has no words, or
    /// a section that is opened and never closed.
    MalformedPi,
    /// A tag, or something that is no tag at all, stands where another tag or
    /// a closing tag is required. `found` is the name of the offending tag,
    /// empty where the offender is not a tag; `within` is the element that
    /// was being read.
    UnexpectedElement { found: String, within: String },
    /// An attribute that the element does not have; `key` is its name.
    UnrecognizedAttribute { key: String },
    /// The underlying stream cannot be read: the tokenizer failed on its
    /// input, an attribute is malformed, or a container cannot be opened or
    /// read. `msg` says what failed.
    Stream { msg: String },
    /// Character data or an attribute value that is not decodable text.
    Encoding,
    /// A container that does not hold exactly one member but `members`.
    ContainerShape { members: usize },
}

/// The view of an [`Error`].
pub enum ErrorView {
    MalformedHeader,
    MalformedPi,
    UnexpectedElement { found: Seq<char>, within: Seq<char> },
    UnrecognizedAttribute { key: Seq<char> },
    Stream { msg: Seq<char> },
    Encoding,
    ContainerShape { members: usize },
}

impl DeepView for Error {
    type V = ErrorView;

    open spec fn deep_view(&self) -> ErrorView {
        match *self {
            Error::MalformedHeader => ErrorView::MalformedHeader,
            Error::MalformedPi => ErrorView::MalformedPi,
            Error::UnexpectedElement { found, within } => ErrorView::UnexpectedElement {
                found: found@,
                within: within@,
            },
            Error::UnrecognizedAttribute { key } => ErrorView::UnrecognizedAttribute { key: key@ },
            Error::Stream { msg } => ErrorView::Stream { msg: msg@ },
            Error::Encoding => ErrorView::Encoding,
            Error::ContainerShape { members } => ErrorView::ContainerShape { members },
        }
    }
}

/// What an error says of itself.
pub open spec fn message_of(e: ErrorView) -> Seq<char> {
    match e {
        ErrorView::MalformedHeader =>
            "malformed header: a document must begin with a declaration and a document type"@,
        ErrorView::MalformedPi =>
            "malformed processing instruction: no words, or a section that is never closed"@,
        ErrorView::UnexpectedElement { found, within } => "unexpected element <"@ + found
            + "> within <"@ + within + ">"@,
        ErrorView::UnrecognizedAttribute { key } => "unrecognized attribute: "@ + key,
        ErrorView::Stream { msg } => "stream error: "@ + msg,
        ErrorView::Encoding => "encoding error: text that cannot be decoded"@,
        ErrorView::ContainerShape { .. } =>
            "container shape error: the container must hold exactly one member"@,
    }
}

impl Error {
    /// The error in words.
    pub fn message(&self) -> (text: String)
        ensures
            text@ == message_of(self.deep_view()),
    {
        match self {
            Error::MalformedHeader =>
                "malformed header: a document must begin with a declaration and a document type"
                    .to_owned(),
            Error::MalformedPi =>
                "malformed processing instruction: no words, or a section that is never closed"
                    .to_owned(),
            Error::UnexpectedElement { found, within } => {
                let mut text = "unexpected element <".to_owned();
                text.append(found.as_str());
                text.append("> within <");
                text.append(within.as_str());
                text.append(">");
                text
            },
            Error::UnrecognizedAttribute { key } => {
                let mut text = "unrecognized attribute: ".to_owned();
                text.append(key.as_str());
                text
            },
            Error::Stream { msg } => {
                let mut text = "stream error: ".to_owned();
                text.append(msg.as_str());
                text
            },
            Error::Encoding => "encoding error: text that cannot be decoded".to_owned(),
            Error::ContainerShape { .. } =>
                "container shape error: the container must hold exactly one member".to_owned(),
        }
    }
}

} // verus!
