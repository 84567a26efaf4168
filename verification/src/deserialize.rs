//! The record reader: one grant per document of the feed, in the order of
//! the feed, on demand.

use vstd::prelude::*;
use crate::biblio::{biblio_read, deser_biblio, lemma_biblio_read_rest};
use crate::data::{PatentGrant, PatentGrantView};
use crate::error::{Error, ErrorView};
use crate::event::{EventView, XmlEvent};
use crate::parse::{fills, lift, lift_ok, Outcome};
use crate::reader::{events_of, EventReader, MAX_INPUT_LEN};
use crate::sections::{deser_top_pi, lemma_top_pi_read_rest, top_pi_read};
use crate::strings::same_text;
use crate::text::{
    deser_text_from, deser_text_with_tags_from, flat_text, lemma_flat_text_rest,
    lemma_stripped_text_rest, stripped_text,
};

verus! {

/// The header of a document: a declaration, and directly after it a document
/// type. The value says whether a header was read: at the end of input there
/// is none, and that is no failure. Anything else in place of the declaration
/// or of the document type is a failure, the end of input after the
/// declaration too.
pub open spec fn header_read(evs: Seq<EventView>) -> Outcome<bool> {
    if evs.len() == 0 {
        Outcome::done(false, evs)
    } else {
        let rest = evs.drop_first();
        match evs[0] {
            EventView::Decl => if rest.len() == 0 {
                Outcome::failed(false, ErrorView::MalformedHeader, rest)
            } else {
                match rest[0] {
                    EventView::DocType => Outcome::done(true, rest.drop_first()),
                    EventView::Invalid { msg } => Outcome::failed(
                        false,
                        ErrorView::Stream { msg },
                        rest.drop_first(),
                    ),
                    _ => Outcome::failed(false, ErrorView::MalformedHeader, rest.drop_first()),
                }
            },
            EventView::Invalid { msg } => Outcome::failed(false, ErrorView::Stream { msg }, rest),
            _ => Outcome::failed(false, ErrorView::MalformedHeader, rest),
        }
    }
}

/// The claim texts of one claim, whose opening tag has been read: each
/// `claim-text` element that follows directly, with its tags stripped, added
/// to `claims`. The first event that does not open a claim text ends the
/// claim and is consumed.
pub open spec fn claim_texts_read(evs: Seq<EventView>, claims: Seq<Seq<char>>) -> Outcome<
    Seq<Seq<char>>,
>
    decreases evs.len(),
{
    if evs.len() == 0 {
        Outcome::done(claims, evs)
    } else {
        let rest = evs.drop_first();
        match evs[0] {
            EventView::Start { name, .. } => if name == "claim-text"@ {
                let text = stripped_text(rest, name, 1, Seq::empty());
                if text.fault is Some {
                    Outcome { value: claims, fault: text.fault, rest: text.rest }
                } else {
                    proof {
                        lemma_stripped_text_rest(rest, name, 1, Seq::empty());
                    }
                    claim_texts_read(text.rest, claims.push(text.value))
                }
            } else {
                Outcome::done(claims, rest)
            },
            EventView::Invalid { msg } => Outcome::failed(claims, ErrorView::Stream { msg }, rest),
            _ => Outcome::done(claims, rest),
        }
    }
}

/// Reading the texts of a claim consumes events and makes none.
pub proof fn lemma_claim_texts_read_rest(evs: Seq<EventView>, claims: Seq<Seq<char>>)
    ensures
        claim_texts_read(evs, claims).rest.len() <= evs.len(),
    decreases evs.len(),
{
    if evs.len() > 0 {
        let rest = evs.drop_first();
        match evs[0] {
            EventView::Start { name, .. } => {
                lemma_stripped_text_rest(rest, name, 1, Seq::empty());
                let text = stripped_text(rest, name, 1, Seq::empty());
                lemma_claim_texts_read_rest(text.rest, claims.push(text.value));
            },
            _ => {},
        }
    }
}

/// The list of claims, whose opening tag has been read: the claim texts of
/// each `claim` element, in the order of the feed, added to `claims`. The
/// list ends, without failure, at the first event that does not open a claim,
/// which is consumed; a list without claims adds nothing.
pub open spec fn claims_read(evs: Seq<EventView>, claims: Seq<Seq<char>>)-> Outcome<Seq<Seq<char>>>
    decreases evs.len(),
{
    if evs.len() == 0 {
        Outcome::done(claims, evs)
    } else {
        let rest = evs.drop_first();
        match evs[0] {
            EventView::Start { name, .. } => if name == "claim"@ {
                let claim = claim_texts_read(rest, claims);
                if claim.fault is Some {
                    claim
                } else {
                    proof {
                        lemma_claim_texts_read_rest(rest, claims);
                    }
                    claims_read(claim.rest, claim.value)
                }
            } else {
                Outcome::done(claims, rest)
            },
            EventView::Invalid { msg } => Outcome::failed(claims, ErrorView::Stream { msg }, rest),
            _ => Outcome::done(claims, rest),
        }
    }
}

/// Reading the list of claims consumes events and makes none.
pub proof fn lemma_claims_read_rest(evs: Seq<EventView>, claims: Seq<Seq<char>>)
    ensures
        claims_read(evs, claims).rest.len() <= evs.len(),
    decreases evs.len(),
{
    if evs.len() > 0 {
        let rest = evs.drop_first();
        lemma_claim_texts_read_rest(rest, claims);
        let claim = claim_texts_read(rest, claims);
        lemma_claims_read_rest(claim.rest, claim.value);
    }
}

/// The texts of a claim are added behind the claims read before, which stay
/// as they are and in their order; what is added does not depend on them.
pub proof fn lemma_claim_texts_are_appended(evs: Seq<EventView>, claims: Seq<Seq<char>>)
    ensures
        claim_texts_read(evs, claims) == (Outcome {
            value: claims + claim_texts_read(evs, Seq::empty()).value,
            ..claim_texts_read(evs, Seq::empty())
        }),
    decreases evs.len(),
{
    let none = Seq::<Seq<char>>::empty();
    assert(claims + none =~= claims);
    if evs.len() > 0 {
        let rest = evs.drop_first();
        match evs[0] {
            EventView::Start { name, .. } => {
                let text = stripped_text(rest, name, 1, Seq::empty());
                if name == "claim-text"@ && text.fault is None {
                    lemma_stripped_text_rest(rest, name, 1, Seq::empty());
                    lemma_claim_texts_are_appended(text.rest, claims.push(text.value));
                    lemma_claim_texts_are_appended(text.rest, none.push(text.value));
                    let more = claim_texts_read(text.rest, Seq::empty()).value;
                    assert(claims.push(text.value) + more =~= claims + (none.push(text.value)
                        + more));
                }
            },
            _ => {},
        }
    }
}

/// Claims are kept in the order of the document: reading a list of claims
/// adds its claim texts behind the claims read before, which stay as they are
/// and in their order; what is added does not depend on them.
pub proof fn lemma_claims_are_appended(evs: Seq<EventView>, claims: Seq<Seq<char>>)
    ensures
        claims_read(evs, claims) == (Outcome {
            value: claims + claims_read(evs, Seq::empty()).value,
            ..claims_read(evs, Seq::empty())
        }),
    decreases evs.len(),
{
    let none = Seq::<Seq<char>>::empty();
    assert(claims + none =~= claims);
    if evs.len() > 0 {
        let rest = evs.drop_first();
        match evs[0] {
            EventView::Start { name, .. } => {
                if name == "claim"@ {
                    lemma_claim_texts_are_appended(rest, claims);
                    let first = claim_texts_read(rest, Seq::empty());
                    if first.fault is None {
                        lemma_claim_texts_read_rest(rest, Seq::empty());
                        lemma_claims_are_appended(first.rest, claims + first.value);
                        lemma_claims_are_appended(first.rest, first.value);
                        let more = claims_read(first.rest, Seq::empty()).value;
                        assert((claims + first.value) + more =~= claims + (first.value + more));
                    }
                }
            },
            _ => {},
        }
    }
}

/// One element at the top level of a document, whose opening tag `name` has
/// been read: the claim statement, the claims or the bibliographic block. Of
/// an element of any other name nothing is read.
pub open spec fn body_child_read(
    name: Seq<char>,
    evs: Seq<EventView>,
    grant: PatentGrantView,
) -> Outcome<PatentGrantView> {
    if name == "us-claim-statement"@ {
        lift_ok(
            flat_text(evs, name, None),
            grant,
            |text: Seq<char>| PatentGrantView { us_claim_statement: text, ..grant },
        )
    } else if name == "claims"@ {
        lift(
            claims_read(evs, grant.claims),
            |claims: Seq<Seq<char>>| PatentGrantView { claims, ..grant },
        )
    } else if name == "us-bibliographic-data-grant"@ {
        lift(
            biblio_read(evs, grant.us_bibliographic_data_grant),
            |part| PatentGrantView { us_bibliographic_data_grant: part, ..grant },
        )
    } else {
        Outcome::done(grant, evs)
    }
}

/// Reading an element at the top level consumes events and makes none.
pub proof fn lemma_body_child_read_rest(
    name: Seq<char>,
    evs: Seq<EventView>,
    grant: PatentGrantView,
)
    ensures
        body_child_read(name, evs, grant).rest.len() <= evs.len(),
{
    lemma_flat_text_rest(evs, name, None);
    lemma_claims_read_rest(evs, grant.claims);
    lemma_biblio_read_rest(evs, grant.us_bibliographic_data_grant);
}

/// The body of a document, whose header has been read: processing
/// instructions and elements at the top level are read into `grant`, up to
/// the closing tag `us-patent-grant` or the end of input. Everything else is
/// passed over.
pub open spec fn body_read(evs: Seq<EventView>, grant: PatentGrantView) -> Outcome<PatentGrantView>
    decreases evs.len(),
{
    if evs.len() == 0 {
        Outcome::done(grant, evs)
    } else {
        let rest = evs.drop_first();
        match evs[0] {
            EventView::Pi { text } => {
                let section = top_pi_read(text, rest, grant);
                if section.fault is Some {
                    section
                } else {
                    proof {
                        lemma_top_pi_read_rest(text, rest, grant);
                    }
                    body_read(section.rest, section.value)
                }
            },
            EventView::Start { name, .. } => {
                let child = body_child_read(name, rest, grant);
                if child.fault is Some {
                    child
                } else {
                    proof {
                        lemma_body_child_read_rest(name, rest, grant);
                    }
                    body_read(child.rest, child.value)
                }
            },
            EventView::End { name } => if name == "us-patent-grant"@ {
                Outcome::done(grant, rest)
            } else {
                body_read(rest, grant)
            },
            EventView::Invalid { msg } => Outcome::failed(grant, ErrorView::Stream { msg }, rest),
            _ => body_read(rest, grant),
        }
    }
}

/// Reading the body of a document consumes events and makes none.
pub proof fn lemma_body_read_rest(evs: Seq<EventView>, grant: PatentGrantView)
    ensures
        body_read(evs, grant).rest.len() <= evs.len(),
    decreases evs.len(),
{
    if evs.len() > 0 {
        let rest = evs.drop_first();
        lemma_body_read_rest(rest, grant);
        match evs[0] {
            EventView::Pi { text } => {
                lemma_top_pi_read_rest(text, rest, grant);
                let section = top_pi_read(text, rest, grant);
                lemma_body_read_rest(section.rest, section.value);
            },
            EventView::Start { name, .. } => {
                lemma_body_child_read_rest(name, rest, grant);
                let child = body_child_read(name, rest, grant);
                lemma_body_read_rest(child.rest, child.value);
            },
            _ => {},
        }
    }
}

/// The next document of a feed: its header, then its body, read into a fresh
/// record. The value is `None` at the end of input, where there is no
/// document, and where reading failed.
pub open spec fn grant_read(evs: Seq<EventView>) -> Outcome<Option<PatentGrantView>> {
    let header = header_read(evs);
    if header.fault is Some || !header.value {
        Outcome { value: None, fault: header.fault, rest: header.rest }
    } else {
        let body = body_read(header.rest, PatentGrantView::empty());
        Outcome {
            value: if body.fault is Some {
                None
            } else {
                Some(body.value)
            },
            fault: body.fault,
            rest: body.rest,
        }
    }
}

/// Reading a document consumes events and makes none, and consumes at least
/// one unless the input is at its end.
pub proof fn lemma_grant_read_rest(evs: Seq<EventView>)
    ensures
        grant_read(evs).rest.len() <= evs.len(),
        grant_read(evs).fault is Some || grant_read(evs).value is Some ==> grant_read(
            evs,
        ).rest.len() < evs.len(),
{
    lemma_body_read_rest(header_read(evs).rest, PatentGrantView::empty());
}

/// What pulling records from a feed gives, one record after the other, up to
/// the end of the feed or to the first failure, which is the last result.
pub open spec fn records_of(evs: Seq<EventView>) -> Seq<Result<PatentGrantView, ErrorView>>
    decreases evs.len(),
{
    let out = grant_read(evs);
    match out.fault {
        Some(e) => seq![Err(e)],
        None => match out.value {
            None => Seq::empty(),
            Some(grant) => {
                proof {
                    lemma_grant_read_rest(evs);
                }
                seq![Ok(grant)] + records_of(out.rest)
            },
        },
    }
}

/// The views of a list of results.
pub open spec fn results_view(results: Seq<Result<PatentGrant, Error>>) -> Seq<
    Result<PatentGrantView, ErrorView>,
> {
    results.map_values(
        |r: Result<PatentGrant, Error>|
            match r {
                Ok(grant) => Ok(grant.deep_view()),
                Err(e) => Err(e.deep_view()),
            },
    )
}

/// A document and the record that it holds: read from its first event, the
/// document gives this record and is consumed to its last event, whatever
/// follows it in the feed.
pub open spec fn holds_record(doc: Seq<EventView>, record: PatentGrantView) -> bool {
    forall|tail: Seq<EventView>| #[trigger]
        grant_read(doc + tail) == Outcome::done(Some(record), tail)
}

/// The documents of a feed, one after the other.
pub open spec fn concatenated(docs: Seq<Seq<EventView>>) -> Seq<EventView>
    decreases docs.len(),
{
    if docs.len() == 0 {
        Seq::empty()
    } else {
        docs[0] + concatenated(docs.drop_first())
    }
}

/// A feed without events has no records, and reading it is no failure.
pub proof fn lemma_empty_feed_has_no_records()
    ensures
        grant_read(Seq::empty()) == Outcome::done(None::<PatentGrantView>, Seq::empty()),
        records_of(Seq::empty()) == Seq::<Result<PatentGrantView, ErrorView>>::empty(),
{
}

/// A feed of N documents gives N records, in the order of the documents:
/// where each document holds a record, the feed that is made of them one
/// after the other gives exactly these records, each without failure.
pub proof fn lemma_one_record_per_document(docs: Seq<Seq<EventView>>, records: Seq<PatentGrantView>)
    requires
        docs.len() == records.len(),
        forall|i: int| 0 <= i < docs.len() ==> holds_record(#[trigger] docs[i], records[i]),
    ensures
        records_of(concatenated(docs)) == records.map_values(
            |record: PatentGrantView| Ok::<PatentGrantView, ErrorView>(record),
        ),
    decreases docs.len(),
{
    let expected = records.map_values(
        |record: PatentGrantView| Ok::<PatentGrantView, ErrorView>(record),
    );
    if docs.len() == 0 {
        lemma_empty_feed_has_no_records();
        assert(expected =~= Seq::empty());
    } else {
        let tail = concatenated(docs.drop_first());
        assert(holds_record(docs[0], records[0]));
        assert(grant_read(docs[0] + tail) == Outcome::done(Some(records[0]), tail));
        assert forall|i: int| 0 <= i < docs.drop_first().len() implies holds_record(
            #[trigger] docs.drop_first()[i],
            records.drop_first()[i],
        ) by {
            assert(holds_record(docs[i + 1], records[i + 1]));
        }
        lemma_one_record_per_document(docs.drop_first(), records.drop_first());
        assert(expected =~= seq![Ok::<PatentGrantView, ErrorView>(records[0])]
            + records.drop_first().map_values(
            |record: PatentGrantView| Ok::<PatentGrantView, ErrorView>(record),
        ));
    }
}

/// A document that is nothing but its header and its root element holds the
/// empty record.
pub proof fn lemma_bare_document_holds_empty_record()
    ensures
        holds_record(
            seq![
                EventView::Decl,
                EventView::DocType,
                EventView::Start { name: "us-patent-grant"@, attrs: Seq::empty() },
                EventView::End { name: "us-patent-grant"@ },
            ],
            PatentGrantView::empty(),
        ),
{
    let doc = seq![
        EventView::Decl,
        EventView::DocType,
        EventView::Start { name: "us-patent-grant"@, attrs: Seq::empty() },
        EventView::End { name: "us-patent-grant"@ },
    ];
    reveal_strlit("us-patent-grant");
    reveal_strlit("us-claim-statement");
    reveal_strlit("claims");
    reveal_strlit("us-bibliographic-data-grant");
    assert("us-patent-grant"@.len() == 15);
    assert("us-claim-statement"@.len() == 18);
    assert("claims"@.len() == 6);
    assert("us-bibliographic-data-grant"@.len() == 27);
    assert forall|tail: Seq<EventView>| #[trigger]
        grant_read(doc + tail) == Outcome::done(Some(PatentGrantView::empty()), tail) by {
        let evs = doc + tail;
        let one = evs.drop_first();
        let two = one.drop_first();
        let three = two.drop_first();
        assert(three.drop_first() =~= tail);
        assert(header_read(evs) == Outcome::done(true, two));
        let grant = PatentGrantView::empty();
        assert(body_child_read("us-patent-grant"@, three, grant) == Outcome::done(grant, three));
        assert(body_read(three, grant) == Outcome::done(grant, tail));
        assert(body_read(two, grant) == Outcome::done(grant, tail));
    }
}

/// What a pull of the next record gives is what `out` says.
pub open spec fn pulls(
    out: Outcome<Option<PatentGrantView>>,
    pulled: Option<Result<PatentGrant, Error>>,
) -> bool {
    match pulled {
        None => out.fault is None && out.value is None,
        Some(Ok(grant)) => out.fault is None && out.value == Some(grant.deep_view()),
        Some(Err(e)) => out.fault == Some(e.deep_view()),
    }
}

/// Reads the header of the next document. Returns `None` at the end of input.
pub fn deser_header(rdr: &mut EventReader<'_>) -> (result: Option<Result<(), Error>>)
    ensures
        final(rdr).pending() == header_read(old(rdr).pending()).rest,
        match result {
            None => header_read(old(rdr).pending()) == Outcome::done(false, final(rdr).pending()),
            Some(Ok(())) => header_read(old(rdr).pending()) == Outcome::done(
                true,
                final(rdr).pending(),
            ),
            Some(Err(e)) => header_read(old(rdr).pending()).fault == Some(e.deep_view()),
        },
{
    match rdr.next_event() {
        None => {
            return None;
        },
        Some(XmlEvent::Decl) => {},
        Some(XmlEvent::Invalid { msg }) => {
            return Some(Err(Error::Stream { msg }));
        },
        Some(_) => {
            return Some(Err(Error::MalformedHeader));
        },
    }
    match rdr.next_event() {
        Some(XmlEvent::DocType) => Some(Ok(())),
        Some(XmlEvent::Invalid { msg }) => Some(Err(Error::Stream { msg })),
        _ => Some(Err(Error::MalformedHeader)),
    }
}

/// Reads the claim texts of one claim, whose opening tag has been read.
pub fn deser_claim(
    rdr: &mut EventReader<'_>,
    claims: &mut Vec<String>,
) -> (result: Result<(), Error>)
    ensures
        fills(
            claim_texts_read(old(rdr).pending(), old(claims).deep_view()),
            result,
            final(claims).deep_view(),
            final(rdr).pending(),
        ),
{
    loop
        invariant
            claim_texts_read(old(rdr).pending(), old(claims).deep_view()) == claim_texts_read(
                rdr.pending(),
                claims.deep_view(),
            ),
        decreases rdr.pending().len(),
    {
        match rdr.next_event() {
            Some(XmlEvent::Start { name, attrs }) => {
                if !same_text(name.as_str(), "claim-text") {
                    return Ok(());
                }
                proof {
                    lemma_stripped_text_rest(rdr.pending(), name@, 1, Seq::empty());
                }
                match deser_text_with_tags_from(name.as_str(), rdr) {
                    Ok(text) => {
                        let ghost before = claims.deep_view();
                        claims.push(text);
                        proof {
                            assert(claims.deep_view() =~= before.push(text@));
                        }
                    },
                    Err(e) => {
                        return Err(e);
                    },
                }
            },
            Some(XmlEvent::Invalid { msg }) => {
                return Err(Error::Stream { msg });
            },
            _ => {
                return Ok(());
            },
        }
    }
}

/// Reads the list of claims, whose opening tag has been read.
pub fn deser_claims(
    rdr: &mut EventReader<'_>,
    patent_grant: &mut PatentGrant,
) -> (result: Result<(), Error>)
    ensures
        fills(
            lift(
                claims_read(old(rdr).pending(), old(patent_grant).deep_view().claims),
                |claims: Seq<Seq<char>>|
                    PatentGrantView { claims, ..old(patent_grant).deep_view() },
            ),
            result,
            final(patent_grant).deep_view(),
            final(rdr).pending(),
        ),
{
    loop
        invariant
            patent_grant.descriptions == old(patent_grant).descriptions,
            patent_grant.us_claim_statement == old(patent_grant).us_claim_statement,
            patent_grant.us_bibliographic_data_grant == old(
                patent_grant,
            ).us_bibliographic_data_grant,
            claims_read(old(rdr).pending(), old(patent_grant).claims.deep_view()) == claims_read(
                rdr.pending(),
                patent_grant.claims.deep_view(),
            ),
        decreases rdr.pending().len(),
    {
        match rdr.next_event() {
            Some(XmlEvent::Start { name, attrs }) => {
                if !same_text(name.as_str(), "claim") {
                    return Ok(());
                }
                proof {
                    lemma_claim_texts_read_rest(rdr.pending(), patent_grant.claims.deep_view());
                }
                match deser_claim(rdr, &mut patent_grant.claims) {
                    Ok(()) => {},
                    Err(e) => {
                        return Err(e);
                    },
                }
            },
            Some(XmlEvent::Invalid { msg }) => {
                return Err(Error::Stream { msg });
            },
            _ => {
                return Ok(());
            },
        }
    }
}

/// Reads one element at the top level of a document, whose opening tag
/// `name` has been read.
pub fn deser_body_child(
    name: &str,
    rdr: &mut EventReader<'_>,
    patent_grant: &mut PatentGrant,
) -> (result: Result<(), Error>)
    ensures
        fills(
            body_child_read(name@, old(rdr).pending(), old(patent_grant).deep_view()),
            result,
            final(patent_grant).deep_view(),
            final(rdr).pending(),
        ),
{
    if same_text(name, "us-claim-statement") {
        match deser_text_from(name, rdr) {
            Ok(text) => {
                patent_grant.us_claim_statement = text;
                Ok(())
            },
            Err(e) => Err(e),
        }
    } else if same_text(name, "claims") {
        deser_claims(rdr, patent_grant)
    } else if same_text(name, "us-bibliographic-data-grant") {
        deser_biblio(rdr, &mut patent_grant.us_bibliographic_data_grant)
    } else {
        Ok(())
    }
}

/// Reads the body of a document, whose header has been read.
pub fn deser_body(
    rdr: &mut EventReader<'_>,
    patent_grant: &mut PatentGrant,
) -> (result: Result<(), Error>)
    ensures
        fills(
            body_read(old(rdr).pending(), old(patent_grant).deep_view()),
            result,
            final(patent_grant).deep_view(),
            final(rdr).pending(),
        ),
{
    loop
        invariant
            body_read(old(rdr).pending(), old(patent_grant).deep_view()) == body_read(
                rdr.pending(),
                patent_grant.deep_view(),
            ),
        decreases rdr.pending().len(),
    {
        match rdr.next_event() {
            None => {
                return Ok(());
            },
            Some(XmlEvent::Pi { text }) => {
                proof {
                    lemma_top_pi_read_rest(
                        text.deep_view(),
                        rdr.pending(),
                        patent_grant.deep_view(),
                    );
                }
                match deser_top_pi(text, rdr, patent_grant) {
                    Ok(()) => {},
                    Err(e) => {
                        return Err(e);
                    },
                }
            },
            Some(XmlEvent::Start { name, attrs }) => {
                proof {
                    lemma_body_child_read_rest(name@, rdr.pending(), patent_grant.deep_view());
                }
                match deser_body_child(name.as_str(), rdr, patent_grant) {
                    Ok(()) => {},
                    Err(e) => {
                        return Err(e);
                    },
                }
            },
            Some(XmlEvent::End { name }) => {
                if same_text(name.as_str(), "us-patent-grant") {
                    return Ok(());
                }
            },
            Some(XmlEvent::Invalid { msg }) => {
                return Err(Error::Stream { msg });
            },
            Some(_) => {},
        }
    }
}

/// The grants of a feed, read on demand from its bytes.
pub struct PatentGrants<'a> {
    rdr: EventReader<'a>,
}

impl<'a> PatentGrants<'a> {
    /// The events of the feed that have not been read yet.
    pub closed spec fn pending(&self) -> Seq<EventView> {
        self.rdr.pending()
    }

    /// How many bytes of the feed have been read; `None` for a reader over
    /// events at hand.
    pub closed spec fn position(&self) -> Option<u64> {
        self.rdr.position()
    }

    /// How many bytes of the feed have been read, which is where a failure
    /// lies that has just been met; `None` for a reader over events at hand.
    pub fn offset(&self) -> (offset: Option<u64>)
        ensures
            offset == self.position(),
    {
        self.rdr.offset()
    }

    /// A reader at the start of the feed `bytes`, which are no more than the
    /// tokenizer takes.
    pub fn from_bytes(bytes: &'a [u8]) -> (grants: Self)
        requires
            bytes@.len() <= MAX_INPUT_LEN,
        ensures
            grants.pending() == events_of(bytes@),
    {
        PatentGrants { rdr: EventReader::from_bytes(bytes) }
    }

    /// A reader of the feed whose events are `events`.
    pub fn from_events(events: Vec<XmlEvent>) -> (grants: Self)
        ensures
            grants.pending() == events.deep_view(),
    {
        PatentGrants { rdr: EventReader::from_events(events) }
    }

    /// Reads the next document into a record. Returns `None` at the end of
    /// input, and `Some(Err(..))` where the document cannot be read; what is
    /// read after a failure starts where the failure left off.
    pub fn deser_patent_grant(&mut self) -> (pulled: Option<Result<PatentGrant, Error>>)
        ensures
            pulls(grant_read(old(self).pending()), pulled),
            final(self).pending() == grant_read(old(self).pending()).rest,
    {
        match deser_header(&mut self.rdr) {
            None => {
                return None;
            },
            Some(Err(e)) => {
                return Some(Err(e));
            },
            Some(Ok(())) => {},
        }
        let mut patent_grant = PatentGrant::default();
        match deser_body(&mut self.rdr, &mut patent_grant) {
            Ok(()) => Some(Ok(patent_grant)),
            Err(e) => Some(Err(e)),
        }
    }

    /// Pulls records up to the end of the feed or to the first failure, and
    /// returns what was pulled, in order.
    pub fn read_all(&mut self) -> (all: Vec<Result<PatentGrant, Error>>)
        ensures
            results_view(all@) == records_of(old(self).pending()),
    {
        let mut all: Vec<Result<PatentGrant, Error>> = Vec::new();
        proof {
            assert(results_view(all@) =~= Seq::empty());
        }
        loop
            invariant
                records_of(old(self).pending()) == results_view(all@) + records_of(
                    self.pending(),
                ),
            decreases self.pending().len(),
        {
            let ghost before = results_view(all@);
            proof {
                lemma_grant_read_rest(self.pending());
            }
            match self.deser_patent_grant() {
                None => {
                    proof {
                        assert(before + Seq::empty() =~= before);
                    }
                    return all;
                },
                Some(Ok(grant)) => {
                    all.push(Ok(grant));
                    proof {
                        assert(results_view(all@) =~= before + seq![
                            Ok::<PatentGrantView, ErrorView>(grant.deep_view()),
                        ]);
                        assert((before + seq![Ok::<PatentGrantView, ErrorView>(grant.deep_view())])
                            + records_of(self.pending()) =~= before + (seq![
                            Ok::<PatentGrantView, ErrorView>(grant.deep_view()),
                        ] + records_of(self.pending())));
                    }
                },
                Some(Err(e)) => {
                    all.push(Err(e));
                    proof {
                        assert(results_view(all@) =~= before + seq![
                            Err::<PatentGrantView, ErrorView>(e.deep_view()),
                        ]);
                    }
                    return all;
                },
            }
        }
    }

    /// The next record of the feed, or `None` when the feed has no more.
    pub fn next(&mut self) -> (pulled: Option<Result<PatentGrant, Error>>)
        ensures
            pulls(grant_read(old(self).pending()), pulled),
            final(self).pending() == grant_read(old(self).pending()).rest,
    {
        self.deser_patent_grant()
    }
}

} // verus!
