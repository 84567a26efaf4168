//! Free-text sections. A section is not wrapped in a tag of its own: it lies
//! between two processing instructions, of which the first word of the first
//! is the section's name and the last word says `end="lead"` or `end="tail"`.

use vstd::prelude::*;
use crate::data::{PatentGrant, PatentGrantView};
use crate::error::{Error, ErrorView};
use crate::event::{EventView, XmlEvent};
use crate::parse::{fills, gives, lift_ok, Outcome};
use crate::reader::EventReader;
use crate::strings::{join, joined, same_text, split_words, words_of};

verus! {

/// The last word of the instruction that opens a section.
pub open spec fn lead_marker() -> Seq<char> {
    "end=\"lead\""@
}

/// The last word of the instruction that closes a section.
pub open spec fn tail_marker() -> Seq<char> {
    "end=\"tail\""@
}

/// The text of a section whose opening instruction has been read: every text
/// fragment up to the next instruction whose last word is the tail marker,
/// joined with single spaces. Tags and other instructions in between are
/// passed over. An instruction without words is a failure, and so is the end
/// of input before any tail marker.
pub open spec fn section_text(evs: Seq<EventView>, frags: Seq<Seq<char>>) -> Outcome<Seq<char>>
    decreases evs.len(),
{
    let so_far = joined(frags);
    if evs.len() == 0 {
        Outcome::failed(so_far, ErrorView::MalformedPi, evs)
    } else {
        let rest = evs.drop_first();
        match evs[0] {
            EventView::Pi { text } => match text {
                Some(text) => if words_of(text).len() == 0 {
                    Outcome::failed(so_far, ErrorView::MalformedPi, rest)
                } else if words_of(text).last() == tail_marker() {
                    Outcome::done(so_far, rest)
                } else {
                    section_text(rest, frags)
                },
                None => section_text(rest, frags),
            },
            EventView::Text { text } => match text {
                Some(frag) => section_text(rest, frags.push(frag)),
                None => Outcome::failed(so_far, ErrorView::Encoding, rest),
            },
            EventView::Invalid { msg } => Outcome::failed(so_far, ErrorView::Stream { msg }, rest),
            _ => section_text(rest, frags),
        }
    }
}

/// A processing instruction at the top level of a document, with the text
/// `pi`. An instruction that cannot be decoded or has no words is a failure.
/// One whose last word is not the lead marker is of no interest. Otherwise
/// its first word names a section, whose text is read and stored under that
/// name, in place of any text stored there before.
pub open spec fn top_pi_read(
    pi: Option<Seq<char>>,
    evs: Seq<EventView>,
    grant: PatentGrantView,
) -> Outcome<PatentGrantView> {
    match pi {
        None => Outcome::failed(grant, ErrorView::MalformedPi, evs),
        Some(text) => {
            let words = words_of(text);
            if words.len() == 0 {
                Outcome::failed(grant, ErrorView::MalformedPi, evs)
            } else if words.last() != lead_marker() {
                Outcome::done(grant, evs)
            } else {
                lift_ok(
                    section_text(evs, Seq::empty()),
                    grant,
                    |section: Seq<char>|
                        PatentGrantView {
                            descriptions: grant.descriptions.insert(words[0], section),
                            ..grant
                        },
                )
            }
        },
    }
}

/// Reading a section consumes events and makes none.
pub proof fn lemma_section_text_rest(evs: Seq<EventView>, frags: Seq<Seq<char>>)
    ensures
        section_text(evs, frags).rest.len() <= evs.len(),
    decreases evs.len(),
{
    if evs.len() > 0 {
        let rest = evs.drop_first();
        lemma_section_text_rest(rest, frags);
        match evs[0] {
            EventView::Text { text: Some(frag) } => {
                lemma_section_text_rest(rest, frags.push(frag));
            },
            _ => {},
        }
    }
}

/// Reading a top-level instruction consumes events and makes none.
pub proof fn lemma_top_pi_read_rest(
    pi: Option<Seq<char>>,
    evs: Seq<EventView>,
    grant: PatentGrantView,
)
    ensures
        top_pi_read(pi, evs, grant).rest.len() <= evs.len(),
{
    lemma_section_text_rest(evs, Seq::empty());
}

/// Reads the text of a section up to its tail marker; the instruction that
/// opens the section has been read.
pub fn deser_pi_text_with_tags_to_tail_from(
    rdr: &mut EventReader<'_>,
) -> (result: Result<String, Error>)
    ensures
        gives(section_text(old(rdr).pending(), Seq::empty()), result, final(rdr).pending()),
{
    let mut frags: Vec<String> = Vec::new();
    proof {
        assert(frags.deep_view() =~= Seq::empty());
    }
    loop
        invariant
            section_text(old(rdr).pending(), Seq::empty()) == section_text(
                rdr.pending(),
                frags.deep_view(),
            ),
        decreases rdr.pending().len(),
    {
        match rdr.next_event() {
            None => {
                return Err(Error::MalformedPi);
            },
            Some(XmlEvent::Pi { text }) => {
                match text {
                    Some(text) => {
                        let words = split_words(text.as_str());
                        if words.len() == 0 {
                            return Err(Error::MalformedPi);
                        }
                        proof {
                            assert(words.deep_view().last() == words[words.len() - 1]@);
                        }
                        if same_text(words[words.len() - 1].as_str(), "end=\"tail\"") {
                            return Ok(join(&frags));
                        }
                    },
                    None => {},
                }
            },
            Some(XmlEvent::Text { text }) => {
                match text {
                    Some(frag) => {
                        let ghost before = frags.deep_view();
                        frags.push(frag);
                        proof {
                            assert(frags.deep_view() =~= before.push(frag@));
                        }
                    },
                    None => {
                        return Err(Error::Encoding);
                    },
                }
            },
            Some(XmlEvent::Invalid { msg }) => {
                return Err(Error::Stream { msg });
            },
            Some(_) => {},
        }
    }
}

/// Handles a processing instruction at the top level of a document; `pi` is
/// the instruction's text.
pub fn deser_top_pi(
    pi: Option<String>,
    rdr: &mut EventReader<'_>,
    patent_grant: &mut PatentGrant,
) -> (result: Result<(), Error>)
    ensures
        fills(
            top_pi_read(pi.deep_view(), old(rdr).pending(), old(patent_grant).deep_view()),
            result,
            final(patent_grant).deep_view(),
            final(rdr).pending(),
        ),
{
    let text = match pi {
        Some(text) => text,
        None => {
            return Err(Error::MalformedPi);
        },
    };
    let words = split_words(text.as_str());
    if words.len() == 0 {
        return Err(Error::MalformedPi);
    }
    proof {
        assert(words.deep_view().last() == words[words.len() - 1]@);
        assert(words.deep_view()[0] == words[0]@);
    }
    if !same_text(words[words.len() - 1].as_str(), "end=\"lead\"") {
        return Ok(());
    }
    match deser_pi_text_with_tags_to_tail_from(rdr) {
        Ok(section) => {
            patent_grant.descriptions.insert(words[0].clone(), section);
            Ok(())
        },
        Err(e) => Err(e),
    }
}

/// Some instruction among the events closes a section.
pub open spec fn has_tail(evs: Seq<EventView>) -> bool
    decreases evs.len(),
{
    evs.len() > 0 && (match evs[0] {
        EventView::Pi { text: Some(text) } => words_of(text).len() > 0 && words_of(text).last()
            == tail_marker(),
        _ => false,
    } || has_tail(evs.drop_first()))
}

/// Every text fragment and every instruction among the events can be read,
/// and the tokenizer does not fail.
pub open spec fn readable(evs: Seq<EventView>) -> bool
    decreases evs.len(),
{
    evs.len() == 0 || (match evs[0] {
        EventView::Pi { text: Some(text) } => words_of(text).len() > 0,
        EventView::Text { text } => text is Some,
        EventView::Invalid { .. } => false,
        _ => true,
    } && readable(evs.drop_first()))
}

/// A section that is opened and never closed is a failure: where no
/// instruction with the tail marker follows, reading the section fails, and
/// no text is returned for it.
pub proof fn lemma_unclosed_section_fails(evs: Seq<EventView>, frags: Seq<Seq<char>>)
    requires
        !has_tail(evs),
    ensures
        section_text(evs, frags).fault is Some,
        readable(evs) ==> section_text(evs, frags).fault == Some(ErrorView::MalformedPi),
    decreases evs.len(),
{
    if evs.len() > 0 {
        let rest = evs.drop_first();
        lemma_unclosed_section_fails(rest, frags);
        match evs[0] {
            EventView::Text { text: Some(frag) } => {
                lemma_unclosed_section_fails(rest, frags.push(frag));
            },
            _ => {},
        }
    }
}

/// The text fragments among the events, up to the first instruction that
/// closes a section.
pub open spec fn fragments_to_tail(evs: Seq<EventView>) -> Seq<Seq<char>>
    decreases evs.len(),
{
    if evs.len() == 0 {
        Seq::empty()
    } else {
        match evs[0] {
            EventView::Pi { text: Some(text) } => if words_of(text).len() > 0 && words_of(
                text,
            ).last() == tail_marker() {
                Seq::empty()
            } else {
                fragments_to_tail(evs.drop_first())
            },
            EventView::Text { text: Some(frag) } => seq![frag] + fragments_to_tail(
                evs.drop_first(),
            ),
            _ => fragments_to_tail(evs.drop_first()),
        }
    }
}

/// A section that is closed gives its text: where an instruction with the
/// tail marker follows and everything before it can be read, the section's
/// text is made of all the text fragments up to that instruction, in order
/// and joined with single spaces, whatever tags and other instructions stand
/// between them.
pub proof fn lemma_closed_section_gives_its_fragments(
    evs: Seq<EventView>,
    frags: Seq<Seq<char>>,
)
    requires
        has_tail(evs),
        readable(evs),
    ensures
        section_text(evs, frags).fault is None,
        section_text(evs, frags).value == joined(frags + fragments_to_tail(evs)),
    decreases evs.len(),
{
    assert(frags + Seq::<Seq<char>>::empty() =~= frags);
    if evs.len() > 0 {
        let rest = evs.drop_first();
        match evs[0] {
            EventView::Pi { text: Some(text) } => {
                if !(words_of(text).len() > 0 && words_of(text).last() == tail_marker()) {
                    lemma_closed_section_gives_its_fragments(rest, frags);
                }
            },
            EventView::Text { text: Some(frag) } => {
                lemma_closed_section_gives_its_fragments(rest, frags.push(frag));
                let more = fragments_to_tail(rest);
                assert(frags.push(frag) + more =~= frags + (seq![frag] + more));
            },
            _ => {
                lemma_closed_section_gives_its_fragments(rest, frags);
            },
        }
    }
}

/// The later of two sections of one name wins: after a section has been
/// read, the record holds the section's text under the section's name,
/// whatever it held there before, and what it holds under other names is as
/// it was.
pub proof fn lemma_later_section_wins(pi: Seq<char>, evs: Seq<EventView>, grant: PatentGrantView)
    requires
        words_of(pi).len() > 0,
        words_of(pi).last() == lead_marker(),
        section_text(evs, Seq::empty()).fault is None,
    ensures
        ({
            let after = top_pi_read(Some(pi), evs, grant).value.descriptions;
            let name = words_of(pi)[0];
            &&& after.contains_key(name)
            &&& after[name] == section_text(evs, Seq::empty()).value
            &&& forall|other: Seq<char>|
                other != name ==> (after.contains_key(other) <==> grant.descriptions.contains_key(
                    other,
                ))
            &&& forall|other: Seq<char>|
                other != name && after.contains_key(other) ==> after[other]
                    == grant.descriptions[other]
        }),
{
}

} // verus!
