//! Markup events as plain values, and their mathematical views.

use vstd::prelude::*;

verus! {

/// One attribute of an opening tag, in the order in which the tag gives them.
#[derive(Debug, Clone, PartialEq, Eq)]
pub enum Attr {
    /// A well-formed attribute whose value could be decoded.
    Pair { key: String, value: String },
    /// A well-formed attribute whose value is not decodable text.
    Undecodable { key: String },
    /// Something in attribute position that is not `key="value"`, or a key
    /// that the tag has already; `msg` says which.
    Malformed { msg: String },
    /// The tag's attributes are not valid UTF-8, so that they cannot be told
    /// apart; it stands alone in the list.
    Garbled,
}

/// The view of an [`Attr`].
pub enum AttrView {
    Pair { key: Seq<char>, value: Seq<char> },
    Undecodable { key: Seq<char> },
    Malformed { msg: Seq<char> },
    Garbled,
}

impl DeepView for Attr {
    type V = AttrView;

    open spec fn deep_view(&self) -> AttrView {
        match *self {
            Attr::Pair { key, value } => AttrView::Pair { key: key@, value: value@ },
            Attr::Undecodable { key } => AttrView::Undecodable { key: key@ },
            Attr::Malformed { msg } => AttrView::Malformed { msg: msg@ },
            Attr::Garbled => AttrView::Garbled,
        }
    }
}

/// One event of the markup stream.
#[derive(Debug, Clone, PartialEq, Eq)]
pub enum XmlEvent {
    /// An XML declaration.
    Decl,
    /// A document-type declaration.
    DocType,
    /// An opening tag.
    Start { name: String, attrs: Vec<Attr> },
    /// A closing tag.
    End { name: String },
    /// Character data, unescaped; `None` where it cannot be decoded.
    Text { text: Option<String> },
    /// A processing instruction, target and content; `None` where it cannot
    /// be decoded.
    Pi { text: Option<String> },
    /// A comment, a CDATA section, a self-closing tag, or a tag whose name
    /// is not valid UTF-8.
    Other,
    /// The tokenizer could not read its input here; `msg` says why.
    Invalid { msg: String },
}

/// The view of an [`XmlEvent`].
pub enum EventView {
    Decl,
    DocType,
    Start { name: Seq<char>, attrs: Seq<AttrView> },
    End { name: Seq<char> },
    Text { text: Option<Seq<char>> },
    Pi { text: Option<Seq<char>> },
    Other,
    Invalid { msg: Seq<char> },
}

impl DeepView for XmlEvent {
    type V = EventView;

    open spec fn deep_view(&self) -> EventView {
        match *self {
            XmlEvent::Decl => EventView::Decl,
            XmlEvent::DocType => EventView::DocType,
            XmlEvent::Start { name, attrs } => EventView::Start {
                name: name@,
                attrs: attrs.deep_view(),
            },
            XmlEvent::End { name } => EventView::End { name: name@ },
            XmlEvent::Text { text } => EventView::Text { text: text.deep_view() },
            XmlEvent::Pi { text } => EventView::Pi { text: text.deep_view() },
            XmlEvent::Other => EventView::Other,
            XmlEvent::Invalid { msg } => EventView::Invalid { msg: msg@ },
        }
    }
}

} // verus!
