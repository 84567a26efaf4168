//! Moving through the event stream without reading anything into a record.

use vstd::prelude::*;
use crate::error::{Error, ErrorView};
use crate::event::{EventView, XmlEvent};
use crate::parse::{fills, gives, out_of_place, unexpected, unexpected_element, Outcome};
use crate::reader::EventReader;
use crate::strings::same_text;

verus! {

/// The next event must be the opening tag of `element`.
pub open spec fn start_consumed(evs: Seq<EventView>, element: Seq<char>) -> Outcome<()> {
    if evs.len() == 0 {
        Outcome::failed((), unexpected(Seq::empty(), element), evs)
    } else {
        let rest = evs.drop_first();
        match evs[0] {
            EventView::Start { name, .. } => if name == element {
                Outcome::done((), rest)
            } else {
                Outcome::failed((), unexpected(name, element), rest)
            },
            EventView::Invalid { msg } => Outcome::failed((), ErrorView::Stream { msg }, rest),
            _ => Outcome::failed((), unexpected(Seq::empty(), element), rest),
        }
    }
}

/// Events are passed over until the opening tag `to_tag` (the value is then
/// `true`) or the closing tag `within_tag` (`false`); the input must not end
/// before either.
pub open spec fn skipped_to(
    evs: Seq<EventView>,
    to_tag: Seq<char>,
    within_tag: Seq<char>,
) -> Outcome<bool>
    decreases evs.len(),
{
    if evs.len() == 0 {
        Outcome::failed(false, unexpected(Seq::empty(), within_tag), evs)
    } else {
        let rest = evs.drop_first();
        match evs[0] {
            EventView::Start { name, .. } => if name == to_tag {
                Outcome::done(true, rest)
            } else {
                skipped_to(rest, to_tag, within_tag)
            },
            EventView::End { name } => if name == within_tag {
                Outcome::done(false, rest)
            } else {
                skipped_to(rest, to_tag, within_tag)
            },
            EventView::Invalid { msg } => Outcome::failed(false, ErrorView::Stream { msg }, rest),
            _ => skipped_to(rest, to_tag, within_tag),
        }
    }
}

/// Skipping consumes events and makes none.
pub proof fn lemma_skipped_to_rest(evs: Seq<EventView>, to_tag: Seq<char>, within_tag: Seq<char>)
    ensures
        skipped_to(evs, to_tag, within_tag).rest.len() <= evs.len(),
    decreases evs.len(),
{
    if evs.len() > 0 {
        lemma_skipped_to_rest(evs.drop_first(), to_tag, within_tag);
    }
}

/// Consumes the opening tag of `xml_element`, to go one level deeper.
pub fn consume_start(rdr: &mut EventReader<'_>, xml_element: &str) -> (result: Result<(), Error>)
    ensures
        fills(start_consumed(old(rdr).pending(), xml_element@), result, (), final(rdr).pending()),
{
    match rdr.next_event() {
        Some(XmlEvent::Start { name, attrs }) => {
            if same_text(name.as_str(), xml_element) {
                Ok(())
            } else {
                Err(unexpected_element(name.as_str(), xml_element))
            }
        },
        Some(XmlEvent::Invalid { msg }) => Err(Error::Stream { msg }),
        _ => Err(out_of_place(xml_element)),
    }
}

/// Passes over events until the opening tag `to_tag`, and returns `true`, or
/// until the closing tag `within_tag`, and returns `false`.
pub fn skip_to_tag_within(
    to_tag: &str,
    within_tag: &str,
    rdr: &mut EventReader<'_>,
) -> (result: Result<bool, Error>)
    ensures
        gives(skipped_to(old(rdr).pending(), to_tag@, within_tag@), result, final(rdr).pending()),
{
    loop
        invariant
            skipped_to(old(rdr).pending(), to_tag@, within_tag@) == skipped_to(
                rdr.pending(),
                to_tag@,
                within_tag@,
            ),
        decreases rdr.pending().len(),
    {
        match rdr.next_event() {
            None => {
                return Err(out_of_place(within_tag));
            },
            Some(XmlEvent::Start { name, attrs }) => {
                if same_text(name.as_str(), to_tag) {
                    return Ok(true);
                }
            },
            Some(XmlEvent::End { name }) => {
                if same_text(name.as_str(), within_tag) {
                    return Ok(false);
                }
            },
            Some(XmlEvent::Invalid { msg }) => {
                return Err(Error::Stream { msg });
            },
            Some(_) => {},
        }
    }
}

} // verus!
