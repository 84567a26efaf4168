//! Text extraction: the content of an element whose opening tag has just
//! been read, as plain text.

use vstd::prelude::*;
use crate::error::{Error, ErrorView};
use crate::event::{EventView, XmlEvent};
use crate::parse::{gives, out_of_place, unexpected, unexpected_element, Outcome};
use crate::reader::EventReader;
use crate::strings::{join, joined, same_text};
use crate::util::{consume_start, start_consumed};

verus! {

/// The text of a field.
pub open spec fn text_or_empty(found: Option<Seq<char>>) -> Seq<char> {
    match found {
        Some(text) => text,
        None => Seq::empty(),
    }
}

/// Flat extraction. The first text fragment before the closing tag `end` is
/// the value, and an element without text is empty. An opening tag before
/// the closing tag is a failure, and so is the end of input. `found` is the
/// value met so far.
pub open spec fn flat_text(
    evs: Seq<EventView>,
    end: Seq<char>,
    found: Option<Seq<char>>,
) -> Outcome<Seq<char>>
    decreases evs.len(),
{
    let so_far = text_or_empty(found);
    if evs.len() == 0 {
        Outcome::failed(so_far, unexpected(Seq::empty(), end), evs)
    } else {
        let rest = evs.drop_first();
        match evs[0] {
            EventView::Text { text } => if found is Some {
                flat_text(rest, end, found)
            } else if text is Some {
                flat_text(rest, end, text)
            } else {
                Outcome::failed(so_far, ErrorView::Encoding, rest)
            },
            EventView::Start { name, .. } => Outcome::failed(so_far, unexpected(name, end), rest),
            EventView::End { name } => if name == end {
                Outcome::done(so_far, rest)
            } else {
                flat_text(rest, end, found)
            },
            EventView::Invalid { msg } => Outcome::failed(so_far, ErrorView::Stream { msg }, rest),
            _ => flat_text(rest, end, found),
        }
    }
}

/// Tag-stripping extraction. `depth` counts the elements named `end` that are
/// open, the one being read included; every text fragment at any depth is
/// kept in `frags`, and the fragments are joined with single spaces when the
/// depth falls to zero. Nesting deeper than a machine integer can count is
/// refused.
pub open spec fn stripped_text(
    evs: Seq<EventView>,
    end: Seq<char>,
    depth: nat,
    frags: Seq<Seq<char>>,
) -> Outcome<Seq<char>>
    decreases evs.len(),
{
    let so_far = joined(frags);
    if evs.len() == 0 {
        Outcome::failed(so_far, unexpected(Seq::empty(), end), evs)
    } else {
        let rest = evs.drop_first();
        match evs[0] {
            EventView::Start { name, .. } => if name != end {
                stripped_text(rest, end, depth, frags)
            } else if depth > usize::MAX {
                Outcome::failed(so_far, unexpected(name, end), rest)
            } else {
                stripped_text(rest, end, depth + 1, frags)
            },
            EventView::End { name } => if name != end {
                stripped_text(rest, end, depth, frags)
            } else if depth <= 1 {
                Outcome::done(so_far, rest)
            } else {
                stripped_text(rest, end, (depth - 1) as nat, frags)
            },
            EventView::Text { text } => match text {
                Some(frag) => stripped_text(rest, end, depth, frags.push(frag)),
                None => Outcome::failed(so_far, ErrorView::Encoding, rest),
            },
            EventView::Invalid { msg } => Outcome::failed(so_far, ErrorView::Stream { msg }, rest),
            _ => stripped_text(rest, end, depth, frags),
        }
    }
}

/// Flat extraction consumes events and makes none.
pub proof fn lemma_flat_text_rest(evs: Seq<EventView>, end: Seq<char>, found: Option<Seq<char>>)
    ensures
        flat_text(evs, end, found).rest.len() <= evs.len(),
    decreases evs.len(),
{
    if evs.len() > 0 {
        let rest = evs.drop_first();
        lemma_flat_text_rest(rest, end, found);
        match evs[0] {
            EventView::Text { text } => {
                lemma_flat_text_rest(rest, end, text);
            },
            _ => {},
        }
    }
}

/// Tag-stripping extraction consumes events and makes none.
pub proof fn lemma_stripped_text_rest(
    evs: Seq<EventView>,
    end: Seq<char>,
    depth: nat,
    frags: Seq<Seq<char>>,
)
    ensures
        stripped_text(evs, end, depth, frags).rest.len() <= evs.len(),
    decreases evs.len(),
{
    if evs.len() > 0 {
        let rest = evs.drop_first();
        lemma_stripped_text_rest(rest, end, depth, frags);
        lemma_stripped_text_rest(rest, end, depth + 1, frags);
        lemma_stripped_text_rest(rest, end, (depth - 1) as nat, frags);
        match evs[0] {
            EventView::Text { text: Some(frag) } => {
                lemma_stripped_text_rest(rest, end, depth, frags.push(frag));
            },
            _ => {},
        }
    }
}

/// Flat extraction of the element named `end`, whose opening tag has been read.
pub fn deser_text_from(end: &str, rdr: &mut EventReader<'_>) -> (result: Result<String, Error>)
    ensures
        gives(flat_text(old(rdr).pending(), end@, None), result, final(rdr).pending()),
{
    let mut found: Option<String> = None;
    loop
        invariant
            flat_text(old(rdr).pending(), end@, None) == flat_text(
                rdr.pending(),
                end@,
                found.deep_view(),
            ),
        decreases rdr.pending().len(),
    {
        match rdr.next_event() {
            None => {
                return Err(out_of_place(end));
            },
            Some(XmlEvent::Text { text }) => {
                if found.is_none() {
                    if text.is_none() {
                        return Err(Error::Encoding);
                    }
                    found = text;
                }
            },
            Some(XmlEvent::Start { name, attrs }) => {
                return Err(unexpected_element(name.as_str(), end));
            },
            Some(XmlEvent::End { name }) => {
                if same_text(name.as_str(), end) {
                    return Ok(
                        match found {
                            Some(text) => text,
                            None => String::new(),
                        },
                    );
                }
            },
            Some(XmlEvent::Invalid { msg }) => {
                return Err(Error::Stream { msg });
            },
            Some(_) => {},
        }
    }
}

/// Flat extraction of the element `name`, whose opening tag must come next.
pub open spec fn named_text(evs: Seq<EventView>, name: Seq<char>) -> Outcome<Seq<char>> {
    let opened = start_consumed(evs, name);
    if opened.fault is Some {
        Outcome { value: Seq::empty(), fault: opened.fault, rest: opened.rest }
    } else {
        flat_text(opened.rest, name, None)
    }
}

/// Flat extraction of a named element consumes events and makes none.
pub proof fn lemma_named_text_rest(evs: Seq<EventView>, name: Seq<char>)
    ensures
        named_text(evs, name).rest.len() <= evs.len(),
{
    lemma_flat_text_rest(start_consumed(evs, name).rest, name, None);
}

/// Flat extraction of the element `name`, whose opening tag comes next.
pub fn deser_text(name: &str, rdr: &mut EventReader<'_>) -> (result: Result<String, Error>)
    ensures
        gives(named_text(old(rdr).pending(), name@), result, final(rdr).pending()),
{
    match consume_start(rdr, name) {
        Ok(()) => deser_text_from(name, rdr),
        Err(e) => Err(e),
    }
}

/// Tag-stripping extraction of the element named `end`, whose opening tag has
/// been read.
pub fn deser_text_with_tags_from(
    end: &str,
    rdr: &mut EventReader<'_>,
) -> (result: Result<String, Error>)
    ensures
        gives(
            stripped_text(old(rdr).pending(), end@, 1, Seq::empty()),
            result,
            final(rdr).pending(),
        ),
{
    let mut frags: Vec<String> = Vec::new();
    // The number of nested elements of the same name that are open.
    let mut nested: usize = 0;
    proof {
        assert(frags.deep_view() =~= Seq::empty());
    }
    loop
        invariant
            stripped_text(old(rdr).pending(), end@, 1, Seq::empty()) == stripped_text(
                rdr.pending(),
                end@,
                (nested + 1) as nat,
                frags.deep_view(),
            ),
        decreases rdr.pending().len(),
    {
        match rdr.next_event() {
            None => {
                return Err(out_of_place(end));
            },
            Some(XmlEvent::Start { name, attrs }) => {
                if same_text(name.as_str(), end) {
                    if nested == usize::MAX {
                        return Err(unexpected_element(name.as_str(), end));
                    }
                    nested = nested + 1;
                }
            },
            Some(XmlEvent::End { name }) => {
                if same_text(name.as_str(), end) {
                    if nested == 0 {
                        return Ok(join(&frags));
                    }
                    nested = nested - 1;
                }
            },
            Some(XmlEvent::Text { text }) => {
                match text {
                    Some(frag) => {
                        let ghost before = frags.deep_view();
                        frags.push(frag);
                        proof {
                            assert(frags.deep_view() =~= before.push(frag@));
                        }
                    },
                    None => {
                        return Err(Error::Encoding);
                    },
                }
            },
            Some(XmlEvent::Invalid { msg }) => {
                return Err(Error::Stream { msg });
            },
            Some(_) => {},
        }
    }
}

/// The text fragments among the events, up to the closing tag that closes
/// the element `end` of which `depth` levels are open.
pub open spec fn fragments_to_close(evs: Seq<EventView>, end: Seq<char>, depth: nat) -> Seq<
    Seq<char>,
>
    decreases evs.len(),
{
    if evs.len() == 0 {
        Seq::empty()
    } else {
        let rest = evs.drop_first();
        match evs[0] {
            EventView::Start { name, .. } => if name == end {
                fragments_to_close(rest, end, depth + 1)
            } else {
                fragments_to_close(rest, end, depth)
            },
            EventView::End { name } => if name != end {
                fragments_to_close(rest, end, depth)
            } else if depth <= 1 {
                Seq::empty()
            } else {
                fragments_to_close(rest, end, (depth - 1) as nat)
            },
            EventView::Text { text: Some(frag) } => seq![frag] + fragments_to_close(
                rest,
                end,
                depth,
            ),
            _ => fragments_to_close(rest, end, depth),
        }
    }
}

/// Tag-stripping extraction keeps all text and no markup: where it does not
/// fail, its text is made of all the text fragments, at any depth, up to the
/// closing tag that closes the element, in order and joined with single
/// spaces. A closing tag of a nested element of the same name does not end
/// it.
pub proof fn lemma_stripped_text_is_all_fragments(
    evs: Seq<EventView>,
    end: Seq<char>,
    depth: nat,
    frags: Seq<Seq<char>>,
)
    ensures
        stripped_text(evs, end, depth, frags).fault is None ==> stripped_text(
            evs,
            end,
            depth,
            frags,
        ).value == joined(frags + fragments_to_close(evs, end, depth)),
        depth > 1 && evs.len() > 0 && evs[0] == (EventView::End { name: end })
            ==> stripped_text(evs, end, depth, frags) == stripped_text(
            evs.drop_first(),
            end,
            (depth - 1) as nat,
            frags,
        ),
    decreases evs.len(),
{
    assert(frags + Seq::<Seq<char>>::empty() =~= frags);
    if evs.len() > 0 {
        let rest = evs.drop_first();
        lemma_stripped_text_is_all_fragments(rest, end, depth, frags);
        lemma_stripped_text_is_all_fragments(rest, end, depth + 1, frags);
        lemma_stripped_text_is_all_fragments(rest, end, (depth - 1) as nat, frags);
        match evs[0] {
            EventView::Text { text: Some(frag) } => {
                lemma_stripped_text_is_all_fragments(rest, end, depth, frags.push(frag));
                let more = fragments_to_close(rest, end, depth);
                assert(frags.push(frag) + more =~= frags + (seq![frag] + more));
            },
            _ => {},
        }
    }
}

/// No opening tag comes before the closing tag `end`, or before the events
/// run out or the tokenizer fails.
pub open spec fn no_nested_tags(evs: Seq<EventView>, end: Seq<char>) -> bool
    decreases evs.len(),
{
    evs.len() == 0 || match evs[0] {
        EventView::Start { .. } => false,
        EventView::End { name } => name == end || no_nested_tags(evs.drop_first(), end),
        EventView::Invalid { .. } => true,
        _ => no_nested_tags(evs.drop_first(), end),
    }
}

/// The number of text fragments before the closing tag `end`, or before the
/// events run out or the tokenizer fails.
pub open spec fn text_fragments(evs: Seq<EventView>, end: Seq<char>) -> nat
    decreases evs.len(),
{
    if evs.len() == 0 {
        0
    } else {
        match evs[0] {
            EventView::End { name } => if name == end {
                0
            } else {
                text_fragments(evs.drop_first(), end)
            },
            EventView::Invalid { .. } => 0,
            EventView::Text { .. } => 1 + text_fragments(evs.drop_first(), end),
            _ => text_fragments(evs.drop_first(), end),
        }
    }
}

/// Once the text of a plain element has been met, both extractions go on
/// alike.
proof fn lemma_plain_text_tail(evs: Seq<EventView>, end: Seq<char>, text: Seq<char>)
    requires
        no_nested_tags(evs, end),
        text_fragments(evs, end) == 0,
    ensures
        stripped_text(evs, end, 1, seq![text]) == flat_text(evs, end, Some(text)),
    decreases evs.len(),
{
    assert(joined(seq![text]) == text);
    if evs.len() > 0 {
        match evs[0] {
            EventView::End { name } => {
                if name != end {
                    lemma_plain_text_tail(evs.drop_first(), end, text);
                }
            },
            EventView::Invalid { .. } => {},
            EventView::Text { .. } => {},
            EventView::Start { .. } => {},
            _ => {
                lemma_plain_text_tail(evs.drop_first(), end, text);
            },
        }
    }
}

/// On an element without nested tags and with at most one text fragment,
/// tag-stripping extraction gives exactly what flat extraction gives: the
/// same text or the same failure, at the same place.
pub proof fn lemma_stripping_plain_text_is_flat(evs: Seq<EventView>, end: Seq<char>)
    requires
        no_nested_tags(evs, end),
        text_fragments(evs, end) <= 1,
    ensures
        stripped_text(evs, end, 1, Seq::empty()) == flat_text(evs, end, None),
    decreases evs.len(),
{
    assert(joined(Seq::<Seq<char>>::empty()) == Seq::<char>::empty());
    if evs.len() > 0 {
        let rest = evs.drop_first();
        match evs[0] {
            EventView::End { name } => {
                if name != end {
                    lemma_stripping_plain_text_is_flat(rest, end);
                }
            },
            EventView::Invalid { .. } => {},
            EventView::Text { text } => {
                match text {
                    Some(frag) => {
                        assert(Seq::<Seq<char>>::empty().push(frag) =~= seq![frag]);
                        lemma_plain_text_tail(rest, end, frag);
                    },
                    None => {},
                }
            },
            EventView::Start { .. } => {},
            _ => {
                lemma_stripping_plain_text_is_flat(rest, end);
            },
        }
    }
}

} // verus!
