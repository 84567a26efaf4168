//! The event reader: markup events on demand, from bytes held in memory.
//!
//! Tokenizing is left to `quick_xml`. What this module takes on trust is
//! gathered here: the tokenizer's type, the raw tokens that it gives, and the
//! decoding of a token's bytes. Everything above works on [`XmlEvent`] values.

use vstd::prelude::*;
use vstd::utf8::{decode_utf8, valid_utf8};
use vstd::slice::slice_subrange;
use vstd::string::StringSliceAdditionalSpecFns;
use crate::event::{Attr, AttrView, EventView, XmlEvent};
use quick_xml::events::attributes::Attributes;
use quick_xml::events::Event;
use quick_xml::Reader;

verus! {

broadcast use vstd::utf8::group_utf8_lib;

/// What kind of token the tokenizer gave.
#[derive(Clone, Copy, Debug)]
pub enum RawKind {
    Start,
    End,
    Text,
    Pi,
    Decl,
    DocType,
    Other,
    Invalid,
}

/// A token as the tokenizer gives it: its kind, the length of the tag's name
/// (opening tags only), and its bytes.
pub type RawToken = (RawKind, usize, Seq<u8>);

/// The tokenizer of `quick_xml`.
#[verifier::external_type_specification]
#[verifier::external_body]
#[verifier::reject_recursive_types(R)]
pub struct ExReader<R>(Reader<R>);

/// The tokens of a byte string, in order: what a tokenizer that trims the
/// white space around character data gives, read after read, before it
/// reports the end of input.
pub uninterp spec fn markup(bytes: Seq<u8>) -> Seq<RawToken>;

/// The tokens that a tokenizer over bytes in memory has yet to give, in
/// order, before it reports the end of input.
pub uninterp spec fn unread(rdr: Reader<&[u8]>) -> Seq<RawToken>;

/// How many bytes of its input a tokenizer has read.
pub uninterp spec fn offset_of(rdr: Reader<&[u8]>) -> u64;

/// Character data with its entity references replaced, or `None` where a
/// reference is unknown or cut short.
pub uninterp spec fn unescaped(text: Seq<char>) -> Option<Seq<char>>;

/// The attributes that a tag's content holds from byte `pos` on.
pub uninterp spec fn attributes_of(tag: Seq<char>, pos: nat) -> Seq<AttrView>;

/// The longest input that the tokenizer takes. It counts the `<` inside a
/// document type in a 32-bit integer, which no input of this length or less
/// can make overflow.
pub const MAX_INPUT_LEN: usize = 2147483647;

/// `quick_xml::Reader::from_reader` on a byte slice, with `trim_text` set.
/// The new tokenizer has the whole input before it. The input is no longer
/// than the tokenizer takes, so that reading from it does not panic.
#[verifier::external_body]
fn open_reader<'a>(bytes: &'a [u8]) -> (rdr: Reader<&'a [u8]>)
    requires
        bytes@.len() <= MAX_INPUT_LEN,
    ensures
        unread(rdr) == markup(bytes@),
{
    let mut rdr = Reader::from_reader(bytes);
    rdr.config_mut().trim_text(true);
    rdr
}

/// `quick_xml::Reader::read_event` on a byte slice, for a tokenizer that
/// `open_reader` made: hands out the next token,
/// or `None` once the input is used up (`Event::Eof`), from when on it stays
/// so. Every read moves on in the input, so the end is reached. A tokenizer
/// error is a token of kind `Invalid` that carries the error's message. A
/// token's bytes are the event's content as the tokenizer holds it: a tag's
/// name and attributes, a closing tag's name, character data still escaped,
/// an instruction's target and content.
#[verifier::external_body]
fn read_token(rdr: &mut Reader<&[u8]>) -> (tok: Option<(RawKind, usize, Vec<u8>)>)
    ensures
        match tok {
            Some((kind, name_len, bytes)) => unread(*old(rdr)).len() > 0 && (kind, name_len, bytes@)
                == unread(*old(rdr))[0] && unread(*final(rdr)) == unread(*old(rdr)).drop_first(),
            None => unread(*old(rdr)).len() == 0 && unread(*final(rdr)) == unread(*old(rdr)),
        },
{
    let ev = match rdr.read_event() {
        Ok(ev) => ev,
        Err(e) => return Some((RawKind::Invalid, 0, e.to_string().into_bytes())),
    };
    let (kind, name_len) = match &ev {
        Event::Start(e) => (RawKind::Start, e.name().as_ref().len()),
        Event::End(_) => (RawKind::End, 0),
        Event::Text(_) => (RawKind::Text, 0),
        Event::PI(_) => (RawKind::Pi, 0),
        Event::Decl(_) => (RawKind::Decl, 0),
        Event::DocType(_) => (RawKind::DocType, 0),
        Event::Eof => return None,
        _ => (RawKind::Other, 0),
    };
    Some((kind, name_len, ev.to_vec()))
}

/// `quick_xml::Reader::buffer_position`: the number of bytes read so far.
#[verifier::external_body]
fn byte_offset(rdr: &Reader<&[u8]>) -> (offset: u64)
    ensures
        offset == offset_of(*rdr),
{
    rdr.buffer_position()
}

/// `String::from_utf8`: the text that the bytes encode, where they are valid
/// UTF-8, and `None` where they are not.
#[verifier::external_body]
fn utf8_text(bytes: &[u8]) -> (text: Option<String>)
    ensures
        text is Some <==> valid_utf8(bytes@),
        text is Some ==> text->0@ == decode_utf8(bytes@),
{
    String::from_utf8(bytes.to_vec()).ok()
}

/// `quick_xml::escape::unescape`: replaces the entity references of character
/// data; fails on a reference that is unknown or cut short.
#[verifier::external_body]
fn unescape(text: &str) -> (plain: Option<String>)
    ensures
        plain.deep_view() == unescaped(text@),
{
    quick_xml::escape::unescape(text).ok().map(|t| t.into_owned())
}

/// `quick_xml::events::attributes::Attributes::new`, and the items that the
/// iterator gives, each as a plain value: a key with its unescaped value, a
/// key whose value cannot be unescaped, or the message of the iterator's
/// error. `pos` is where the tag's name ends; the iterator reads from there.
#[verifier::external_body]
fn parse_attributes(tag: &str, pos: usize) -> (attrs: Vec<Attr>)
    requires
        pos <= tag.spec_bytes().len(),
    ensures
        attrs.deep_view() == attributes_of(tag@, pos as nat),
{
    Attributes::new(tag, pos).map(|item| match item {
        Ok(a) => match a.unescape_value() {
            Ok(v) => Attr::Pair {
                key: String::from_utf8_lossy(a.key.as_ref()).into_owned(),
                value: v.into_owned(),
            },
            Err(_) => Attr::Undecodable {
                key: String::from_utf8_lossy(a.key.as_ref()).into_owned(),
            },
        },
        Err(e) => Attr::Malformed { msg: e.to_string() },
    }).collect()
}

/// The event that a raw token stands for. An opening tag keeps its name
/// where its attributes are not valid UTF-8, and has `Garbled` for them. A
/// tag whose name is not valid UTF-8 is of no interest to any reader of
/// events and becomes `Other`. An instruction is unescaped as character data
/// is.
pub open spec fn event_of(tok: RawToken) -> EventView {
    let (kind, name_len, bytes) = tok;
    match kind {
        RawKind::Start => if name_len <= bytes.len() && valid_utf8(
            bytes.subrange(0, name_len as int),
        ) {
            EventView::Start {
                name: decode_utf8(bytes.subrange(0, name_len as int)),
                attrs: if valid_utf8(bytes) {
                    attributes_of(decode_utf8(bytes), name_len as nat)
                } else {
                    seq![AttrView::Garbled]
                },
            }
        } else {
            EventView::Other
        },
        RawKind::End => if valid_utf8(bytes) {
            EventView::End { name: decode_utf8(bytes) }
        } else {
            EventView::Other
        },
        RawKind::Text => EventView::Text {
            text: if valid_utf8(bytes) {
                unescaped(decode_utf8(bytes))
            } else {
                None
            },
        },
        RawKind::Pi => EventView::Pi {
            text: if valid_utf8(bytes) {
                unescaped(decode_utf8(bytes))
            } else {
                None
            },
        },
        RawKind::Decl => EventView::Decl,
        RawKind::DocType => EventView::DocType,
        RawKind::Other => EventView::Other,
        RawKind::Invalid => EventView::Invalid {
            msg: if valid_utf8(bytes) {
                decode_utf8(bytes)
            } else {
                Seq::empty()
            },
        },
    }
}

/// The events of a byte string, in order.
pub open spec fn events_of(bytes: Seq<u8>) -> Seq<EventView> {
    markup(bytes).map_values(|tok: RawToken| event_of(tok))
}

/// Decodes one raw token.
fn decode(kind: RawKind, name_len: usize, bytes: Vec<u8>) -> (ev: XmlEvent)
    ensures
        ev.deep_view() == event_of((kind, name_len, bytes@)),
{
    match kind {
        RawKind::Start => {
            if name_len > bytes.len() {
                return XmlEvent::Other;
            }
            let name = match utf8_text(slice_subrange(bytes.as_slice(), 0, name_len)) {
                Some(name) => name,
                None => {
                    return XmlEvent::Other;
                },
            };
            let attrs = match utf8_text(bytes.as_slice()) {
                Some(tag) => parse_attributes(tag.as_str(), name_len),
                None => {
                    let garbled = vec![Attr::Garbled];
                    proof {
                        assert(garbled.deep_view() =~= seq![AttrView::Garbled]);
                    }
                    garbled
                },
            };
            XmlEvent::Start { name, attrs }
        },
        RawKind::End => match utf8_text(bytes.as_slice()) {
            Some(name) => XmlEvent::End { name },
            None => XmlEvent::Other,
        },
        RawKind::Text => match utf8_text(bytes.as_slice()) {
            Some(escaped) => XmlEvent::Text { text: unescape(escaped.as_str()) },
            None => XmlEvent::Text { text: None },
        },
        RawKind::Pi => match utf8_text(bytes.as_slice()) {
            Some(escaped) => XmlEvent::Pi { text: unescape(escaped.as_str()) },
            None => XmlEvent::Pi { text: None },
        },
        RawKind::Decl => XmlEvent::Decl,
        RawKind::DocType => XmlEvent::DocType,
        RawKind::Other => XmlEvent::Other,
        RawKind::Invalid => match utf8_text(bytes.as_slice()) {
            Some(msg) => XmlEvent::Invalid { msg },
            None => XmlEvent::Invalid { msg: String::new() },
        },
    }
}

/// A reader of markup events: over bytes in memory, which are tokenized on
/// demand, or over events that are at hand already.
pub struct EventReader<'a> {
    /// Events at hand, the next one last.
    queued: Vec<XmlEvent>,
    /// The tokenizer that gives the events after those.
    live: Option<Reader<&'a [u8]>>,
}

impl<'a> EventReader<'a> {
    /// The events that are still to come, in order.
    pub closed spec fn pending(&self) -> Seq<EventView> {
        self.queued.deep_view().reverse() + match self.live {
            Some(rdr) => unread(rdr).map_values(|tok: RawToken| event_of(tok)),
            None => Seq::empty(),
        }
    }

    /// How many bytes of the input have been read; `None` for a reader over
    /// events at hand.
    pub closed spec fn position(&self) -> Option<u64> {
        match self.live {
            Some(rdr) => Some(offset_of(rdr)),
            None => None,
        }
    }

    /// A reader at the start of `bytes`, which are no more than the
    /// tokenizer takes.
    pub fn from_bytes(bytes: &'a [u8]) -> (reader: Self)
        requires
            bytes@.len() <= MAX_INPUT_LEN,
        ensures
            reader.pending() == events_of(bytes@),
    {
        let reader = EventReader { queued: Vec::new(), live: Some(open_reader(bytes)) };
        proof {
            assert(reader.queued.deep_view().reverse() =~= Seq::empty());
            assert(reader.pending() =~= events_of(bytes@));
        }
        reader
    }

    /// A reader that gives `events`, in order, and then is at its end.
    pub fn from_events(events: Vec<XmlEvent>) -> (reader: Self)
        ensures
            reader.pending() == events.deep_view(),
    {
        let ghost all = events.deep_view();
        let mut events = events;
        let mut queued: Vec<XmlEvent> = Vec::new();
        proof {
            assert(all.skip(all.len() as int).reverse() =~= queued.deep_view());
        }
        while events.len() > 0
            invariant
                events.len() <= all.len(),
                events.deep_view() == all.take(events.len() as int),
                queued.deep_view() == all.skip(events.len() as int).reverse(),
            decreases events.len(),
        {
            let ghost n = events.len() as int;
            let ghost before = queued.deep_view();
            match events.pop() {
                Some(ev) => {
                    queued.push(ev);
                    proof {
                        assert(ev.deep_view() == all.take(n)[n - 1]);
                        assert(events.deep_view() =~= all.take(n - 1));
                        assert(queued.deep_view() =~= before.push(ev.deep_view()));
                        assert(before.push(ev.deep_view()) =~= all.skip(n - 1).reverse());
                    }
                },
                None => {},
            }
        }
        let reader = EventReader { queued, live: None };
        proof {
            assert(all.skip(0) =~= all);
            assert(all.reverse().reverse() =~= all);
            assert(reader.pending() =~= all);
        }
        reader
    }

    /// How many bytes of the input have been read, which is where a failure
    /// lies that has just been met; `None` for a reader over events at hand.
    pub fn offset(&self) -> (offset: Option<u64>)
        ensures
            offset == self.position(),
    {
        match &self.live {
            Some(rdr) => Some(byte_offset(rdr)),
            None => None,
        }
    }

    /// Takes the next event off the stream; `None` at the end of input.
    pub fn next_event(&mut self) -> (ev: Option<XmlEvent>)
        ensures
            old(self).pending().len() == 0 ==> ev is None && final(self).pending() == old(
                self,
            ).pending(),
            old(self).pending().len() > 0 ==> ev is Some && ev->0.deep_view() == old(
                self,
            ).pending()[0] && final(self).pending() == old(self).pending().drop_first(),
    {
        let ghost at_hand = self.queued.deep_view();
        if self.queued.len() > 0 {
            let ev = self.queued.pop();
            proof {
                assert(self.queued.deep_view() =~= at_hand.drop_last());
                assert(at_hand.reverse()[0] == at_hand.last());
                assert(at_hand.drop_last().reverse() =~= at_hand.reverse().drop_first());
                assert(self.pending() =~= old(self).pending().drop_first());
            }
            return ev;
        }
        proof {
            assert(at_hand.reverse() =~= Seq::empty());
        }
        match &mut self.live {
            Some(rdr) => {
                let ghost tokens = unread(*rdr);
                match read_token(rdr) {
                    Some((kind, name_len, bytes)) => {
                        proof {
                            assert(tokens.drop_first().map_values(|tok: RawToken| event_of(tok))
                                =~= tokens.map_values(|tok: RawToken| event_of(tok)).drop_first());
                            assert(self.pending() =~= old(self).pending().drop_first());
                        }
                        Some(decode(kind, name_len, bytes))
                    },
                    None => {
                        proof {
                            assert(self.pending() =~= old(self).pending());
                        }
                        None
                    },
                }
            },
            None => None,
        }
    }
}

} // verus!
