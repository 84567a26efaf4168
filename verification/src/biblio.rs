//! The bibliographic block of a grant.

use vstd::prelude::*;
use crate::data::{
    BibliographicDataGrant, BibliographicDataGrantView, ClassificationNational,
    ClassificationNationalView, UsFieldOfClassificationSearch, UsFieldOfClassificationSearchView,
};
use crate::error::{Error, ErrorView};
use crate::event::{EventView, XmlEvent};
use crate::fields::{
    deser_class_locarno, deser_class_national, deser_doc_id, doc_id_names, doc_id_read,
    lemma_record_read_rest, locarno_names, locarno_read, national_names, national_read,
};
use crate::parse::{fills, lift, lift_ok, out_of_place, unexpected, unexpected_element, Outcome};
use crate::parties::{
    agents_read, applicants_read, assignees_read, deser_agents, deser_assignees,
    deser_examiners, deser_inventors, deser_us_applicants, examiners_read, inventors_read,
    lemma_agents_read_rest, lemma_applicants_read_rest, lemma_assignees_read_rest,
    lemma_examiners_read_rest, lemma_inventors_read_rest,
};
use crate::reader::EventReader;
use crate::strings::same_text;
use crate::text::{
    deser_text_from, deser_text_with_tags_from, flat_text, lemma_flat_text_rest,
    lemma_stripped_text_rest, stripped_text,
};
use crate::util::{lemma_skipped_to_rest, skip_to_tag_within, skipped_to, start_consumed};

verus! {

/// The field-of-classification-search block, whose opening tag has been
/// read: national classifications and two lists of text, each in the order of
/// the feed and added to what `search` holds. The element
/// `us-classifications-ipcr` is passed over. Any other element is a failure,
/// and so is anything that is no tag.
pub open spec fn field_search_read(
    evs: Seq<EventView>,
    search: UsFieldOfClassificationSearchView,
) -> Outcome<UsFieldOfClassificationSearchView>
    decreases evs.len(),
{
    let within = "us-field-of-classification-search"@;
    if evs.len() == 0 {
        Outcome::failed(search, unexpected(Seq::empty(), within), evs)
    } else {
        let rest = evs.drop_first();
        match evs[0] {
            EventView::Start { name, .. } => if name == "us-classifications-ipcr"@ {
                let skip = skipped_to(rest, ""@, name);
                if skip.fault is Some {
                    Outcome { value: search, fault: skip.fault, rest: skip.rest }
                } else {
                    proof {
                        lemma_skipped_to_rest(rest, ""@, name);
                    }
                    field_search_read(skip.rest, search)
                }
            } else if name == "classification-national"@ {
                let one = national_read(rest, ClassificationNationalView::empty());
                if one.fault is Some {
                    Outcome { value: search, fault: one.fault, rest: one.rest }
                } else {
                    proof {
                        lemma_record_read_rest(
                            rest,
                            "classification-national"@,
                            national_names(),
                            3,
                        );
                    }
                    field_search_read(
                        one.rest,
                        UsFieldOfClassificationSearchView {
                            classification_nationals: search.classification_nationals.push(
                                one.value,
                            ),
                            ..search
                        },
                    )
                }
            } else if name == "classification-cpc-text"@ || name
                == "classification-cpc-combination-text"@ {
                let text = flat_text(rest, name, None);
                if text.fault is Some {
                    Outcome { value: search, fault: text.fault, rest: text.rest }
                } else {
                    proof {
                        lemma_flat_text_rest(rest, name, None);
                    }
                    field_search_read(
                        text.rest,
                        if name == "classification-cpc-text"@ {
                            UsFieldOfClassificationSearchView {
                                classification_cpc_texts: search.classification_cpc_texts.push(
                                    text.value,
                                ),
                                ..search
                            }
                        } else {
                            UsFieldOfClassificationSearchView {
                                classification_cpc_combination_texts:
                                    search.classification_cpc_combination_texts.push(text.value),
                                ..search
                            }
                        },
                    )
                }
            } else {
                Outcome::failed(search, unexpected(name, within), rest)
            },
            EventView::End { name } => if name == within {
                Outcome::done(search, rest)
            } else {
                field_search_read(rest, search)
            },
            EventView::Invalid { msg } => Outcome::failed(search, ErrorView::Stream { msg }, rest),
            _ => Outcome::failed(search, unexpected(Seq::empty(), within), rest),
        }
    }
}

/// Reading the field-of-classification-search block consumes events and
/// makes none.
pub proof fn lemma_field_search_read_rest(
    evs: Seq<EventView>,
    search: UsFieldOfClassificationSearchView,
)
    ensures
        field_search_read(evs, search).rest.len() <= evs.len(),
    decreases evs.len(),
{
    if evs.len() > 0 {
        let rest = evs.drop_first();
        lemma_field_search_read_rest(rest, search);
        match evs[0] {
            EventView::Start { name, .. } => {
                lemma_skipped_to_rest(rest, ""@, name);
                lemma_record_read_rest(rest, "classification-national"@, national_names(), 3);
                lemma_flat_text_rest(rest, name, None);
                let skip = skipped_to(rest, ""@, name);
                lemma_field_search_read_rest(skip.rest, search);
                let one = national_read(rest, ClassificationNationalView::empty());
                lemma_field_search_read_rest(
                    one.rest,
                    UsFieldOfClassificationSearchView {
                        classification_nationals: search.classification_nationals.push(one.value),
                        ..search
                    },
                );
                let text = flat_text(rest, name, None);
                lemma_field_search_read_rest(
                    text.rest,
                    UsFieldOfClassificationSearchView {
                        classification_cpc_texts: search.classification_cpc_texts.push(text.value),
                        ..search
                    },
                );
                lemma_field_search_read_rest(
                    text.rest,
                    UsFieldOfClassificationSearchView {
                        classification_cpc_combination_texts:
                            search.classification_cpc_combination_texts.push(text.value),
                        ..search
                    },
                );
            },
            _ => {},
        }
    }
}

/// Reads the field-of-classification-search block, whose opening tag has
/// been read.
pub fn deser_field_class_search(
    rdr: &mut EventReader<'_>,
    field_class_search: &mut UsFieldOfClassificationSearch,
) -> (result: Result<(), Error>)
    ensures
        fills(
            field_search_read(old(rdr).pending(), old(field_class_search).deep_view()),
            result,
            final(field_class_search).deep_view(),
            final(rdr).pending(),
        ),
{
    loop
        invariant
            field_search_read(old(rdr).pending(), old(field_class_search).deep_view())
                == field_search_read(rdr.pending(), field_class_search.deep_view()),
        decreases rdr.pending().len(),
    {
        match rdr.next_event() {
            None => {
                return Err(out_of_place("us-field-of-classification-search"));
            },
            Some(XmlEvent::Start { name, attrs }) => {
                proof {
                    lemma_skipped_to_rest(rdr.pending(), ""@, name@);
                    lemma_record_read_rest(
                        rdr.pending(),
                        "classification-national"@,
                        national_names(),
                        3,
                    );
                    lemma_flat_text_rest(rdr.pending(), name@, None);
                }
                if same_text(name.as_str(), "us-classifications-ipcr") {
                    match skip_to_tag_within("", name.as_str(), rdr) {
                        Ok(_) => {},
                        Err(e) => {
                            return Err(e);
                        },
                    }
                } else if same_text(name.as_str(), "classification-national") {
                    let mut class_national = ClassificationNational::default();
                    match deser_class_national(rdr, &mut class_national) {
                        Ok(()) => {
                            let ghost before =
                                field_class_search.classification_nationals.deep_view();
                            field_class_search.classification_nationals.push(class_national);
                            proof {
                                assert(field_class_search.classification_nationals.deep_view()
                                    =~= before.push(class_national.deep_view()));
                            }
                        },
                        Err(e) => {
                            return Err(e);
                        },
                    }
                } else if same_text(name.as_str(), "classification-cpc-text") {
                    match deser_text_from(name.as_str(), rdr) {
                        Ok(text) => {
                            let ghost before =
                                field_class_search.classification_cpc_texts.deep_view();
                            field_class_search.classification_cpc_texts.push(text);
                            proof {
                                assert(field_class_search.classification_cpc_texts.deep_view()
                                    =~= before.push(text@));
                            }
                        },
                        Err(e) => {
                            return Err(e);
                        },
                    }
                } else if same_text(name.as_str(), "classification-cpc-combination-text") {
                    match deser_text_from(name.as_str(), rdr) {
                        Ok(text) => {
                            let texts =
                                &mut field_class_search.classification_cpc_combination_texts;
                            let ghost before = texts.deep_view();
                            texts.push(text);
                            proof {
                                assert(texts.deep_view() =~= before.push(text@));
                            }
                        },
                        Err(e) => {
                            return Err(e);
                        },
                    }
                } else {
                    return Err(
                        unexpected_element(name.as_str(), "us-field-of-classification-search"),
                    );
                }
            },
            Some(XmlEvent::End { name }) => {
                if same_text(name.as_str(), "us-field-of-classification-search") {
                    return Ok(());
                }
            },
            Some(XmlEvent::Invalid { msg }) => {
                return Err(Error::Stream { msg });
            },
            Some(_) => {
                return Err(out_of_place("us-field-of-classification-search"));
            },
        }
    }
}

/// The term of grant, whose opening tag has been read: the text of its
/// `length-of-grant` element, and nothing where it closes without one.
pub open spec fn term_of_grant_read(
    evs: Seq<EventView>,
    biblio: BibliographicDataGrantView,
) -> Outcome<BibliographicDataGrantView> {
    let skip = skipped_to(evs, "length-of-grant"@, "us-term-of-grant"@);
    if skip.fault is Some || !skip.value {
        Outcome { value: biblio, fault: skip.fault, rest: skip.rest }
    } else {
        lift_ok(
            flat_text(skip.rest, "length-of-grant"@, None),
            biblio,
            |text: Seq<char>| BibliographicDataGrantView { us_term_of_grant: text, ..biblio },
        )
    }
}

/// One child element of the bibliographic block, whose opening tag `name`
/// has been read, read into the part of the record that its name stands for.
/// The elements `classifications-ipcr` and `classifications-cpc` are passed
/// over; of an element of any other name nothing is read.
pub open spec fn biblio_child_read(
    name: Seq<char>,
    evs: Seq<EventView>,
    biblio: BibliographicDataGrantView,
) -> Outcome<BibliographicDataGrantView> {
    if name == "publication-reference"@ {
        lift(
            doc_id_read(evs, biblio.publication_reference),
            |part| BibliographicDataGrantView { publication_reference: part, ..biblio },
        )
    } else if name == "application-reference"@ {
        lift(
            doc_id_read(evs, biblio.application_reference),
            |part| BibliographicDataGrantView { application_reference: part, ..biblio },
        )
    } else if name == "us-application-series-code"@ {
        lift_ok(
            flat_text(evs, name, None),
            biblio,
            |text: Seq<char>|
                BibliographicDataGrantView { us_application_series_code: text, ..biblio },
        )
    } else if name == "us-term-of-grant"@ {
        term_of_grant_read(evs, biblio)
    } else if name == "classifications-ipcr"@ || name == "classifications-cpc"@ {
        let skip = skipped_to(evs, ""@, name);
        Outcome { value: biblio, fault: skip.fault, rest: skip.rest }
    } else if name == "classification-locarno"@ {
        lift(
            locarno_read(evs, biblio.classification_locarno),
            |part| BibliographicDataGrantView { classification_locarno: part, ..biblio },
        )
    } else if name == "classification-national"@ {
        lift(
            national_read(evs, biblio.classification_national),
            |part| BibliographicDataGrantView { classification_national: part, ..biblio },
        )
    } else if name == "invention-title"@ {
        lift_ok(
            stripped_text(evs, name, 1, Seq::empty()),
            biblio,
            |text: Seq<char>| BibliographicDataGrantView { invention_title: text, ..biblio },
        )
    } else if name == "number-of-claims"@ {
        lift_ok(
            flat_text(evs, name, None),
            biblio,
            |text: Seq<char>| BibliographicDataGrantView { number_of_claims: text, ..biblio },
        )
    } else if name == "us-exemplary-claim"@ {
        lift_ok(
            flat_text(evs, name, None),
            biblio,
            |text: Seq<char>| BibliographicDataGrantView { us_exemplary_claim: text, ..biblio },
        )
    } else if name == "us-field-of-classification-search"@ {
        lift(
            field_search_read(evs, biblio.us_field_of_classification_search),
            |part| BibliographicDataGrantView { us_field_of_classification_search: part, ..biblio },
        )
    } else if name == "us-applicants"@ {
        lift(
            applicants_read(evs, biblio.us_applicants),
            |part| BibliographicDataGrantView { us_applicants: part, ..biblio },
        )
    } else if name == "inventors"@ {
        lift(
            inventors_read(evs, biblio.inventors),
            |part| BibliographicDataGrantView { inventors: part, ..biblio },
        )
    } else if name == "agents"@ {
        lift(
            agents_read(evs, biblio.agents),
            |part| BibliographicDataGrantView { agents: part, ..biblio },
        )
    } else if name == "assignees"@ {
        lift(
            assignees_read(evs, biblio.assignees),
            |part| BibliographicDataGrantView { assignees: part, ..biblio },
        )
    } else if name == "examiners"@ {
        lift(
            examiners_read(evs, biblio.examiners),
            |part| BibliographicDataGrantView { examiners: part, ..biblio },
        )
    } else {
        Outcome::done(biblio, evs)
    }
}

/// Reading a child of the bibliographic block consumes events and makes none.
pub proof fn lemma_biblio_child_read_rest(
    name: Seq<char>,
    evs: Seq<EventView>,
    biblio: BibliographicDataGrantView,
)
    ensures
        biblio_child_read(name, evs, biblio).rest.len() <= evs.len(),
{
    lemma_skipped_to_rest(evs, "length-of-grant"@, "us-term-of-grant"@);
    lemma_flat_text_rest(
        skipped_to(evs, "length-of-grant"@, "us-term-of-grant"@).rest,
        "length-of-grant"@,
        None,
    );
    lemma_skipped_to_rest(evs, ""@, name);
    lemma_flat_text_rest(evs, name, None);
    lemma_stripped_text_rest(evs, name, 1, Seq::empty());
    lemma_record_read_rest(
        start_consumed(evs, "document-id"@).rest,
        "document-id"@,
        doc_id_names(),
        3,
    );
    lemma_record_read_rest(evs, "classification-locarno"@, locarno_names(), 2);
    lemma_record_read_rest(evs, "classification-national"@, national_names(), 3);
    lemma_field_search_read_rest(evs, biblio.us_field_of_classification_search);
    lemma_applicants_read_rest(evs, biblio.us_applicants);
    lemma_inventors_read_rest(evs, biblio.inventors);
    lemma_agents_read_rest(evs, biblio.agents);
    lemma_assignees_read_rest(evs, biblio.assignees);
    lemma_examiners_read_rest(evs, biblio.examiners);
}

/// The bibliographic block, whose opening tag has been read: each child
/// element is read into the part of the record that its name stands for, up
/// to the closing tag of the block. What is no opening tag is passed over;
/// the input must not end before the block closes.
pub open spec fn biblio_read(
    evs: Seq<EventView>,
    biblio: BibliographicDataGrantView,
) -> Outcome<BibliographicDataGrantView>
    decreases evs.len(),
{
    if evs.len() == 0 {
        Outcome::failed(biblio, unexpected(Seq::empty(), "us-bibliographic-data-grant"@), evs)
    } else {
        let rest = evs.drop_first();
        match evs[0] {
            EventView::Start { name, .. } => {
                let child = biblio_child_read(name, rest, biblio);
                if child.fault is Some {
                    child
                } else {
                    proof {
                        lemma_biblio_child_read_rest(name, rest, biblio);
                    }
                    biblio_read(child.rest, child.value)
                }
            },
            EventView::End { name } => if name == "us-bibliographic-data-grant"@ {
                Outcome::done(biblio, rest)
            } else {
                biblio_read(rest, biblio)
            },
            EventView::Invalid { msg } => Outcome::failed(biblio, ErrorView::Stream { msg }, rest),
            _ => biblio_read(rest, biblio),
        }
    }
}

/// Reading the bibliographic block consumes events and makes none.
pub proof fn lemma_biblio_read_rest(evs: Seq<EventView>, biblio: BibliographicDataGrantView)
    ensures
        biblio_read(evs, biblio).rest.len() <= evs.len(),
    decreases evs.len(),
{
    if evs.len() > 0 {
        let rest = evs.drop_first();
        lemma_biblio_read_rest(rest, biblio);
        match evs[0] {
            EventView::Start { name, .. } => {
                lemma_biblio_child_read_rest(name, rest, biblio);
                let child = biblio_child_read(name, rest, biblio);
                lemma_biblio_read_rest(child.rest, child.value);
            },
            _ => {},
        }
    }
}

/// Reads one child element of the bibliographic block, whose opening tag
/// `name` has been read.
pub fn deser_biblio_child(
    name: &str,
    rdr: &mut EventReader<'_>,
    biblio: &mut BibliographicDataGrant,
) -> (result: Result<(), Error>)
    ensures
        fills(
            biblio_child_read(name@, old(rdr).pending(), old(biblio).deep_view()),
            result,
            final(biblio).deep_view(),
            final(rdr).pending(),
        ),
{
    if same_text(name, "publication-reference") {
        deser_doc_id(rdr, &mut biblio.publication_reference)
    } else if same_text(name, "application-reference") {
        deser_doc_id(rdr, &mut biblio.application_reference)
    } else if same_text(name, "us-application-series-code") {
        match deser_text_from(name, rdr) {
            Ok(text) => {
                biblio.us_application_series_code = text;
                Ok(())
            },
            Err(e) => Err(e),
        }
    } else if same_text(name, "us-term-of-grant") {
        match skip_to_tag_within("length-of-grant", "us-term-of-grant", rdr) {
            Ok(true) => match deser_text_from("length-of-grant", rdr) {
                Ok(text) => {
                    biblio.us_term_of_grant = text;
                    Ok(())
                },
                Err(e) => Err(e),
            },
            Ok(false) => Ok(()),
            Err(e) => Err(e),
        }
    } else if same_text(name, "classifications-ipcr") || same_text(name, "classifications-cpc") {
        match skip_to_tag_within("", name, rdr) {
            Ok(_) => Ok(()),
            Err(e) => Err(e),
        }
    } else if same_text(name, "classification-locarno") {
        deser_class_locarno(rdr, &mut biblio.classification_locarno)
    } else if same_text(name, "classification-national") {
        deser_class_national(rdr, &mut biblio.classification_national)
    } else if same_text(name, "invention-title") {
        match deser_text_with_tags_from(name, rdr) {
            Ok(text) => {
                biblio.invention_title = text;
                Ok(())
            },
            Err(e) => Err(e),
        }
    } else if same_text(name, "number-of-claims") {
        match deser_text_from(name, rdr) {
            Ok(text) => {
                biblio.number_of_claims = text;
                Ok(())
            },
            Err(e) => Err(e),
        }
    } else if same_text(name, "us-exemplary-claim") {
        match deser_text_from(name, rdr) {
            Ok(text) => {
                biblio.us_exemplary_claim = text;
                Ok(())
            },
            Err(e) => Err(e),
        }
    } else if same_text(name, "us-field-of-classification-search") {
        deser_field_class_search(rdr, &mut biblio.us_field_of_classification_search)
    } else if same_text(name, "us-applicants") {
        deser_us_applicants(rdr, &mut biblio.us_applicants)
    } else if same_text(name, "inventors") {
        deser_inventors(rdr, &mut biblio.inventors)
    } else if same_text(name, "agents") {
        deser_agents(rdr, &mut biblio.agents)
    } else if same_text(name, "assignees") {
        deser_assignees(rdr, &mut biblio.assignees)
    } else if same_text(name, "examiners") {
        deser_examiners(rdr, &mut biblio.examiners)
    } else {
        Ok(())
    }
}

/// Reads the bibliographic block, whose opening tag has been read.
pub fn deser_biblio(
    rdr: &mut EventReader<'_>,
    biblio: &mut BibliographicDataGrant,
) -> (result: Result<(), Error>)
    ensures
        fills(
            biblio_read(old(rdr).pending(), old(biblio).deep_view()),
            result,
            final(biblio).deep_view(),
            final(rdr).pending(),
        ),
{
    loop
        invariant
            biblio_read(old(rdr).pending(), old(biblio).deep_view()) == biblio_read(
                rdr.pending(),
                biblio.deep_view(),
            ),
        decreases rdr.pending().len(),
    {
        match rdr.next_event() {
            None => {
                return Err(out_of_place("us-bibliographic-data-grant"));
            },
            Some(XmlEvent::Start { name, attrs }) => {
                proof {
                    lemma_biblio_child_read_rest(name@, rdr.pending(), biblio.deep_view());
                }
                match deser_biblio_child(name.as_str(), rdr, biblio) {
                    Ok(()) => {},
                    Err(e) => {
                        return Err(e);
                    },
                }
            },
            Some(XmlEvent::End { name }) => {
                if same_text(name.as_str(), "us-bibliographic-data-grant") {
                    return Ok(());
                }
            },
            Some(XmlEvent::Invalid { msg }) => {
                return Err(Error::Stream { msg });
            },
            Some(_) => {},
        }
    }
}

} // verus!
