//! What a reader makes of its input depends on nothing but the events that
//! it consumes: with other events in place of those that it left, it reads
//! the same and leaves the others. So a document that is read to its end
//! before the feed ends is read the same wherever it stands in a feed.

use vstd::prelude::*;
use crate::event::EventView;
use crate::fields::{
    address_names, address_read, doc_id_names, doc_id_read, examiner_names, examiner_read,
    fields_read, lemma_fields_read_rest, lemma_record_read_rest, locarno_names, locarno_read,
    national_names, national_read, position, record_read, FieldValues,
};
use crate::data::{
    AddressBookView, AddressView, ClassificationLocarnoView, ClassificationNationalView,
    DocumentIdView, ExaminerView,
};
use crate::data::{
    AgentView, AssigneeView, ExaminersView, InventorView, UsApplicantView,
};
use crate::biblio::{
    biblio_child_read, biblio_read, field_search_read, lemma_biblio_child_read_rest,
    lemma_biblio_read_rest, lemma_field_search_read_rest, term_of_grant_read,
};
use crate::data::{
    BibliographicDataGrantView, PatentGrantView, UsFieldOfClassificationSearchView,
};
use crate::deserialize::{
    body_child_read, body_read, claim_texts_read, claims_read, concatenated, grant_read,
    header_read, holds_record, lemma_body_child_read_rest, lemma_body_read_rest,
    lemma_claim_texts_read_rest, lemma_claims_read_rest, lemma_one_record_per_document,
    records_of,
};
use crate::error::ErrorView;
use crate::event::AttrView;
use crate::sections::{
    lemma_section_text_rest, lemma_top_pi_read_rest, section_text, top_pi_read,
};
use crate::parse::Outcome;
use crate::parties::{
    addressbook_from_read, addressbook_read, agent_read, agents_read, applicant_read,
    applicants_read, assignee_read, assignees_read, examiners_read, inventor_read,
    inventors_read, lemma_addressbook_from_read_rest, lemma_addressbook_read_rest,
    lemma_agent_read_rest, lemma_agents_read_rest, lemma_applicant_read_rest,
    lemma_applicants_read_rest, lemma_assignee_read_rest, lemma_assignees_read_rest,
    lemma_examiners_read_rest, lemma_inventor_read_rest, lemma_inventors_read_rest,
    lemma_residence_read_rest, residence_read,
};
use crate::text::{
    flat_text, lemma_flat_text_rest, lemma_named_text_rest, lemma_stripped_text_rest,
    named_text, stripped_text,
};
use crate::util::{lemma_skipped_to_rest, skipped_to, start_consumed};

verus! {

/// The events that a reader consumed, with `tail` in place of those that it
/// left.
pub open spec fn consumed_then<T>(
    evs: Seq<EventView>,
    out: Outcome<T>,
    tail: Seq<EventView>,
) -> Seq<EventView> {
    evs.take(evs.len() - out.rest.len()) + tail
}

/// A reader that left something is settled: what it left is the end of its
/// input, and `again`, which is what it makes of the events that it consumed
/// with `tail` in place of what it left, is the same outcome with `tail`
/// left.
pub open spec fn settled<T>(
    evs: Seq<EventView>,
    out: Outcome<T>,
    tail: Seq<EventView>,
    again: Outcome<T>,
) -> bool {
    out.rest.len() > 0 ==> {
        &&& out.rest.len() <= evs.len()
        &&& out.rest == evs.skip(evs.len() - out.rest.len())
        &&& again == Outcome { rest: tail, ..out }
    }
}

/// The first event of what was consumed, and what follows it.
pub proof fn lemma_consumed_first<T>(evs: Seq<EventView>, out: Outcome<T>, tail: Seq<EventView>)
    requires
        0 < out.rest.len() < evs.len(),
    ensures
        consumed_then(evs, out, tail).len() > 0,
        consumed_then(evs, out, tail)[0] == evs[0],
        consumed_then(evs, out, tail).drop_first() == evs.drop_first().take(
            evs.len() - 1 - out.rest.len(),
        ) + tail,
        evs.skip(evs.len() - out.rest.len()) == evs.drop_first().skip(
            evs.len() - 1 - out.rest.len(),
        ),
{
    let k = evs.len() - out.rest.len();
    assert(consumed_then(evs, out, tail).drop_first() =~= evs.drop_first().take(k - 1) + tail);
    assert(evs.skip(k) =~= evs.drop_first().skip(k - 1));
}

/// Nothing consumed: what was left is the whole input.
pub proof fn lemma_consumed_nothing<T>(evs: Seq<EventView>, out: Outcome<T>, tail: Seq<EventView>)
    requires
        out.rest == evs,
    ensures
        consumed_then(evs, out, tail) == tail,
        evs.skip(evs.len() - out.rest.len()) == evs,
{
    assert(consumed_then(evs, out, tail) =~= tail);
    assert(evs.skip(0) =~= evs);
}

/// Two readers, one after the other: what the first consumed and then the
/// second is what both consumed.
pub proof fn lemma_consumed_twice<A, B>(
    evs: Seq<EventView>,
    first: Outcome<A>,
    second: Outcome<B>,
    tail: Seq<EventView>,
)
    requires
        first.rest.len() <= evs.len(),
        second.rest.len() <= first.rest.len(),
        first.rest == evs.skip(evs.len() - first.rest.len()),
        second.rest == first.rest.skip(first.rest.len() - second.rest.len()),
    ensures
        consumed_then(evs, first, consumed_then(first.rest, second, tail)) == evs.take(
            evs.len() - second.rest.len(),
        ) + tail,
        second.rest == evs.skip(evs.len() - second.rest.len()),
{
    let k1 = evs.len() - first.rest.len();
    let k2 = first.rest.len() - second.rest.len();
    assert(evs.take(k1) + (evs.skip(k1).take(k2) + tail) =~= evs.take(k1 + k2) + tail);
    assert(evs.skip(k1).skip(k2) =~= evs.skip(k1 + k2));
}

/// Flat extraction is settled by what it consumes.
pub proof fn lemma_flat_text_settled(
    evs: Seq<EventView>,
    end: Seq<char>,
    found: Option<Seq<char>>,
    tail: Seq<EventView>,
)
    ensures
        settled(
            evs,
            flat_text(evs, end, found),
            tail,
            flat_text(consumed_then(evs, flat_text(evs, end, found), tail), end, found),
        ),
    decreases evs.len(),
{
    let out = flat_text(evs, end, found);
    if evs.len() > 0 && out.rest.len() > 0 {
        let rest = evs.drop_first();
        lemma_flat_text_rest(rest, end, found);
        lemma_flat_text_settled(rest, end, found, tail);
        match evs[0] {
            EventView::Text { text } => {
                lemma_flat_text_rest(rest, end, text);
                lemma_flat_text_settled(rest, end, text, tail);
            },
            _ => {},
        }
        lemma_consumed_first(evs, out, tail);
    }
}

/// Tag-stripping extraction is settled by what it consumes.
pub proof fn lemma_stripped_text_settled(
    evs: Seq<EventView>,
    end: Seq<char>,
    depth: nat,
    frags: Seq<Seq<char>>,
    tail: Seq<EventView>,
)
    ensures
        settled(
            evs,
            stripped_text(evs, end, depth, frags),
            tail,
            stripped_text(
                consumed_then(evs, stripped_text(evs, end, depth, frags), tail),
                end,
                depth,
                frags,
            ),
        ),
    decreases evs.len(),
{
    let out = stripped_text(evs, end, depth, frags);
    if evs.len() > 0 && out.rest.len() > 0 {
        let rest = evs.drop_first();
        lemma_stripped_text_rest(rest, end, depth, frags);
        lemma_stripped_text_rest(rest, end, depth + 1, frags);
        lemma_stripped_text_rest(rest, end, (depth - 1) as nat, frags);
        lemma_stripped_text_settled(rest, end, depth, frags, tail);
        lemma_stripped_text_settled(rest, end, depth + 1, frags, tail);
        lemma_stripped_text_settled(rest, end, (depth - 1) as nat, frags, tail);
        match evs[0] {
            EventView::Text { text: Some(frag) } => {
                lemma_stripped_text_rest(rest, end, depth, frags.push(frag));
                lemma_stripped_text_settled(rest, end, depth, frags.push(frag), tail);
            },
            _ => {},
        }
        lemma_consumed_first(evs, out, tail);
    }
}

/// Skipping is settled by what it consumes.
pub proof fn lemma_skipped_to_settled(
    evs: Seq<EventView>,
    to_tag: Seq<char>,
    within_tag: Seq<char>,
    tail: Seq<EventView>,
)
    ensures
        settled(
            evs,
            skipped_to(evs, to_tag, within_tag),
            tail,
            skipped_to(
                consumed_then(evs, skipped_to(evs, to_tag, within_tag), tail),
                to_tag,
                within_tag,
            ),
        ),
    decreases evs.len(),
{
    let out = skipped_to(evs, to_tag, within_tag);
    if evs.len() > 0 && out.rest.len() > 0 {
        let rest = evs.drop_first();
        lemma_skipped_to_rest(rest, to_tag, within_tag);
        lemma_skipped_to_settled(rest, to_tag, within_tag, tail);
        lemma_consumed_first(evs, out, tail);
    }
}

/// Consuming an opening tag is settled by what it consumes.
pub proof fn lemma_start_consumed_settled(
    evs: Seq<EventView>,
    element: Seq<char>,
    tail: Seq<EventView>,
)
    ensures
        settled(
            evs,
            start_consumed(evs, element),
            tail,
            start_consumed(consumed_then(evs, start_consumed(evs, element), tail), element),
        ),
{
    let out = start_consumed(evs, element);
    if evs.len() > 0 && out.rest.len() > 0 {
        lemma_consumed_first(evs, out, tail);
        assert(evs.drop_first().take(0) + tail =~= tail);
    }
}

/// Flat extraction of a named element is settled by what it consumes.
pub proof fn lemma_named_text_settled(evs: Seq<EventView>, name: Seq<char>, tail: Seq<EventView>)
    ensures
        settled(
            evs,
            named_text(evs, name),
            tail,
            named_text(consumed_then(evs, named_text(evs, name), tail), name),
        ),
{
    let out = named_text(evs, name);
    if evs.len() > 0 && out.rest.len() > 0 {
        let rest = evs.drop_first();
        lemma_flat_text_rest(rest, name, None);
        lemma_flat_text_settled(rest, name, None, tail);
        lemma_consumed_first(evs, out, tail);
        assert(rest.take(0) + tail =~= tail);
    }
}

/// Reading a group of fields is settled by what it consumes.
pub proof fn lemma_fields_read_settled(
    evs: Seq<EventView>,
    element: Seq<char>,
    names: Seq<Seq<char>>,
    seen: FieldValues,
    tail: Seq<EventView>,
)
    requires
        seen.len() == names.len(),
    ensures
        settled(
            evs,
            fields_read(evs, element, names, seen),
            tail,
            fields_read(
                consumed_then(evs, fields_read(evs, element, names, seen), tail),
                element,
                names,
                seen,
            ),
        ),
    decreases evs.len(),
{
    let out = fields_read(evs, element, names, seen);
    if evs.len() > 0 && out.rest.len() > 0 {
        let rest = evs.drop_first();
        lemma_fields_read_rest(rest, element, names, seen);
        lemma_fields_read_settled(rest, element, names, seen, tail);
        match evs[0] {
            EventView::Start { name, .. } => {
                let field = flat_text(rest, name, None);
                lemma_flat_text_rest(rest, name, None);
                lemma_flat_text_settled(rest, name, None, tail);
                match position(names, name) {
                    Some(i) => {
                        if field.fault is None {
                            let more = seen.update(i, Some(field.value));
                            let next = fields_read(field.rest, element, names, more);
                            lemma_fields_read_rest(field.rest, element, names, more);
                            lemma_flat_text_settled(
                                rest,
                                name,
                                None,
                                consumed_then(field.rest, next, tail),
                            );
                            lemma_fields_read_settled(field.rest, element, names, more, tail);
                            if next.rest.len() > 0 {
                                lemma_consumed_twice(rest, field, next, tail);
                            }
                        }
                    },
                    None => {},
                }
            },
            _ => {},
        }
        lemma_consumed_first(evs, out, tail);
    }
}

/// Reading a record is settled by what it consumes.
pub proof fn lemma_record_read_settled(
    evs: Seq<EventView>,
    element: Seq<char>,
    names: Seq<Seq<char>>,
    required: nat,
    tail: Seq<EventView>,
)
    ensures
        settled(
            evs,
            record_read(evs, element, names, required),
            tail,
            record_read(
                consumed_then(evs, record_read(evs, element, names, required), tail),
                element,
                names,
                required,
            ),
        ),
{
    lemma_fields_read_settled(evs, element, names, crate::fields::blank(names.len()), tail);
}

/// Reading a document identifier is settled by what it consumes.
pub proof fn lemma_doc_id_read_settled(
    evs: Seq<EventView>,
    kept: DocumentIdView,
    tail: Seq<EventView>,
)
    ensures
        settled(
            evs,
            doc_id_read(evs, kept),
            tail,
            doc_id_read(consumed_then(evs, doc_id_read(evs, kept), tail), kept),
        ),
{
    let out = doc_id_read(evs, kept);
    if evs.len() > 0 && out.rest.len() > 0 {
        let rest = evs.drop_first();
        lemma_record_read_rest(rest, "document-id"@, doc_id_names(), 3);
        lemma_record_read_settled(rest, "document-id"@, doc_id_names(), 3, tail);
        lemma_consumed_first(evs, out, tail);
        assert(rest.take(0) + tail =~= tail);
    }
}

/// Reading a Locarno classification is settled by what it consumes.
pub proof fn lemma_locarno_read_settled(
    evs: Seq<EventView>,
    kept: ClassificationLocarnoView,
    tail: Seq<EventView>,
)
    ensures
        settled(
            evs,
            locarno_read(evs, kept),
            tail,
            locarno_read(consumed_then(evs, locarno_read(evs, kept), tail), kept),
        ),
{
    lemma_record_read_settled(evs, "classification-locarno"@, locarno_names(), 2, tail);
}

/// Reading a national classification is settled by what it consumes.
pub proof fn lemma_national_read_settled(
    evs: Seq<EventView>,
    kept: ClassificationNationalView,
    tail: Seq<EventView>,
)
    ensures
        settled(
            evs,
            national_read(evs, kept),
            tail,
            national_read(consumed_then(evs, national_read(evs, kept), tail), kept),
        ),
{
    lemma_record_read_settled(evs, "classification-national"@, national_names(), 3, tail);
}

/// Reading an address is settled by what it consumes.
pub proof fn lemma_address_read_settled(
    evs: Seq<EventView>,
    kept: AddressView,
    tail: Seq<EventView>,
)
    ensures
        settled(
            evs,
            address_read(evs, kept),
            tail,
            address_read(consumed_then(evs, address_read(evs, kept), tail), kept),
        ),
{
    lemma_record_read_settled(evs, "address"@, address_names(), 0, tail);
}

/// Reading an examiner is settled by what it consumes.
pub proof fn lemma_examiner_read_settled(
    evs: Seq<EventView>,
    element: Seq<char>,
    kept: ExaminerView,
    tail: Seq<EventView>,
)
    ensures
        settled(
            evs,
            examiner_read(evs, element, kept),
            tail,
            examiner_read(
                consumed_then(evs, examiner_read(evs, element, kept), tail),
                element,
                kept,
            ),
        ),
{
    lemma_record_read_settled(evs, element, examiner_names(), 2, tail);
}

/// Reading the content of an address book is settled by what it consumes.
pub proof fn lemma_addressbook_from_read_settled(
    evs: Seq<EventView>,
    book: AddressBookView,
    tail: Seq<EventView>,
)
    ensures
        settled(
            evs,
            addressbook_from_read(evs, book),
            tail,
            addressbook_from_read(
                consumed_then(evs, addressbook_from_read(evs, book), tail),
                book,
            ),
        ),
    decreases evs.len(),
{
    let out = addressbook_from_read(evs, book);
    if evs.len() > 0 && out.rest.len() > 0 {
        let rest = evs.drop_first();
        lemma_addressbook_from_read_rest(rest, book);
        lemma_addressbook_from_read_settled(rest, book, tail);
        match evs[0] {
            EventView::Start { name, .. } => {
                let field = flat_text(rest, name, None);
                lemma_flat_text_rest(rest, name, None);
                lemma_flat_text_settled(rest, name, None, tail);
                if field.fault is None {
                    let more = if name == "orgname"@ {
                        AddressBookView { orgname: Some(field.value), ..book }
                    } else if name == "first-name"@ {
                        AddressBookView { first_name: Some(field.value), ..book }
                    } else if name == "last-name"@ {
                        AddressBookView { last_name: Some(field.value), ..book }
                    } else {
                        AddressBookView { role: Some(field.value), ..book }
                    };
                    let next = addressbook_from_read(field.rest, more);
                    lemma_addressbook_from_read_rest(field.rest, more);
                    lemma_flat_text_settled(
                        rest,
                        name,
                        None,
                        consumed_then(field.rest, next, tail),
                    );
                    lemma_addressbook_from_read_settled(field.rest, more, tail);
                    if next.rest.len() > 0 {
                        lemma_consumed_twice(rest, field, next, tail);
                    }
                }
                let address = address_read(rest, book.address);
                lemma_record_read_rest(rest, "address"@, address_names(), 0);
                lemma_address_read_settled(rest, book.address, tail);
                if address.fault is None {
                    let more = AddressBookView { address: address.value, ..book };
                    let next = addressbook_from_read(address.rest, more);
                    lemma_addressbook_from_read_rest(address.rest, more);
                    lemma_address_read_settled(
                        rest,
                        book.address,
                        consumed_then(address.rest, next, tail),
                    );
                    lemma_addressbook_from_read_settled(address.rest, more, tail);
                    if next.rest.len() > 0 {
                        lemma_consumed_twice(rest, address, next, tail);
                    }
                }
            },
            _ => {},
        }
        lemma_consumed_first(evs, out, tail);
    }
}

/// Reading an address book is settled by what it consumes.
pub proof fn lemma_addressbook_read_settled(
    evs: Seq<EventView>,
    book: AddressBookView,
    tail: Seq<EventView>,
)
    ensures
        settled(
            evs,
            addressbook_read(evs, book),
            tail,
            addressbook_read(consumed_then(evs, addressbook_read(evs, book), tail), book),
        ),
{
    let out = addressbook_read(evs, book);
    if evs.len() > 0 && out.rest.len() > 0 {
        let rest = evs.drop_first();
        lemma_addressbook_from_read_rest(rest, book);
        lemma_addressbook_from_read_settled(rest, book, tail);
        lemma_consumed_first(evs, out, tail);
        assert(rest.take(0) + tail =~= tail);
    }
}

/// Reading a residence is settled by what it consumes.
pub proof fn lemma_residence_read_settled(evs: Seq<EventView>, tail: Seq<EventView>)
    ensures
        settled(
            evs,
            residence_read(evs),
            tail,
            residence_read(consumed_then(evs, residence_read(evs), tail)),
        ),
{
    let out = residence_read(evs);
    if out.rest.len() > 0 {
        let skip = skipped_to(evs, "residence"@, "us-applicant"@);
        lemma_skipped_to_rest(evs, "residence"@, "us-applicant"@);
        lemma_skipped_to_settled(evs, "residence"@, "us-applicant"@, tail);
        if skip.fault is None && skip.value {
            let country = named_text(skip.rest, "country"@);
            lemma_named_text_rest(skip.rest, "country"@);
            lemma_skipped_to_settled(
                evs,
                "residence"@,
                "us-applicant"@,
                consumed_then(skip.rest, country, tail),
            );
            lemma_named_text_settled(skip.rest, "country"@, tail);
            if country.rest.len() > 0 {
                lemma_consumed_twice(evs, skip, country, tail);
            }
        }
    }
}

/// Reading an applicant is settled by what it consumes.
pub proof fn lemma_applicant_read_settled(
    attrs: Seq<AttrView>,
    evs: Seq<EventView>,
    tail: Seq<EventView>,
)
    ensures
        settled(
            evs,
            applicant_read(attrs, evs),
            tail,
            applicant_read(attrs, consumed_then(evs, applicant_read(attrs, evs), tail)),
        ),
{
    let out = applicant_read(attrs, evs);
    if out.rest.len() > 0 {
        let book = addressbook_read(evs, AddressBookView::empty());
        lemma_addressbook_read_rest(evs, AddressBookView::empty());
        lemma_addressbook_read_settled(evs, AddressBookView::empty(), tail);
        if out.rest == evs {
            lemma_consumed_nothing(evs, out, tail);
        }
        if book.fault is None {
            let residence = residence_read(book.rest);
            lemma_residence_read_rest(book.rest);
            lemma_addressbook_read_settled(
                evs,
                AddressBookView::empty(),
                consumed_then(book.rest, residence, tail),
            );
            lemma_residence_read_settled(book.rest, tail);
            if residence.rest.len() > 0 {
                lemma_consumed_twice(evs, book, residence, tail);
            }
        }
    }
}

/// Reading an inventor is settled by what it consumes.
pub proof fn lemma_inventor_read_settled(
    attrs: Seq<AttrView>,
    evs: Seq<EventView>,
    tail: Seq<EventView>,
)
    ensures
        settled(
            evs,
            inventor_read(attrs, evs),
            tail,
            inventor_read(attrs, consumed_then(evs, inventor_read(attrs, evs), tail)),
        ),
{
    let out = inventor_read(attrs, evs);
    if out.rest.len() > 0 {
        lemma_addressbook_read_rest(evs, AddressBookView::empty());
        lemma_addressbook_read_settled(evs, AddressBookView::empty(), tail);
        if out.rest == evs {
            lemma_consumed_nothing(evs, out, tail);
        }
    }
}

/// Reading an agent is settled by what it consumes.
pub proof fn lemma_agent_read_settled(
    attrs: Seq<AttrView>,
    evs: Seq<EventView>,
    tail: Seq<EventView>,
)
    ensures
        settled(
            evs,
            agent_read(attrs, evs),
            tail,
            agent_read(attrs, consumed_then(evs, agent_read(attrs, evs), tail)),
        ),
{
    let out = agent_read(attrs, evs);
    if out.rest.len() > 0 {
        lemma_addressbook_read_rest(evs, AddressBookView::empty());
        lemma_addressbook_read_settled(evs, AddressBookView::empty(), tail);
        if out.rest == evs {
            lemma_consumed_nothing(evs, out, tail);
        }
    }
}

/// Reading the list `us-applicants` is settled by what it consumes.
pub proof fn lemma_applicants_read_settled(
    evs: Seq<EventView>,
    list: Seq<UsApplicantView>,
    tail: Seq<EventView>,
)
    ensures
        settled(
            evs,
            applicants_read(evs, list),
            tail,
            applicants_read(consumed_then(evs, applicants_read(evs, list), tail), list),
        ),
    decreases evs.len(),
{
    let out = applicants_read(evs, list);
    if evs.len() > 0 && out.rest.len() > 0 {
        let rest = evs.drop_first();
        lemma_applicants_read_rest(rest, list);
        lemma_applicants_read_settled(rest, list, tail);
        match evs[0] {
            EventView::Start { name, attrs } => {
                let one = applicant_read(attrs, rest);
                lemma_applicant_read_rest(attrs, rest);
                lemma_applicant_read_settled(attrs, rest, tail);
                if one.fault is None {
                    let next = applicants_read(one.rest, list.push(one.value));
                    lemma_applicants_read_rest(one.rest, list.push(one.value));
                    lemma_applicant_read_settled(attrs, rest, consumed_then(one.rest, next, tail));
                    lemma_applicants_read_settled(one.rest, list.push(one.value), tail);
                    if next.rest.len() > 0 {
                        lemma_consumed_twice(rest, one, next, tail);
                    }
                }
            },
            _ => {},
        }
        lemma_consumed_first(evs, out, tail);
    }
}

/// Reading the list `inventors` is settled by what it consumes.
pub proof fn lemma_inventors_read_settled(
    evs: Seq<EventView>,
    list: Seq<InventorView>,
    tail: Seq<EventView>,
)
    ensures
        settled(
            evs,
            inventors_read(evs, list),
            tail,
            inventors_read(consumed_then(evs, inventors_read(evs, list), tail), list),
        ),
    decreases evs.len(),
{
    let out = inventors_read(evs, list);
    if evs.len() > 0 && out.rest.len() > 0 {
        let rest = evs.drop_first();
        lemma_inventors_read_rest(rest, list);
        lemma_inventors_read_settled(rest, list, tail);
        match evs[0] {
            EventView::Start { name, attrs } => {
                let one = inventor_read(attrs, rest);
                lemma_inventor_read_rest(attrs, rest);
                lemma_inventor_read_settled(attrs, rest, tail);
                if one.fault is None {
                    let next = inventors_read(one.rest, list.push(one.value));
                    lemma_inventors_read_rest(one.rest, list.push(one.value));
                    lemma_inventor_read_settled(attrs, rest, consumed_then(one.rest, next, tail));
                    lemma_inventors_read_settled(one.rest, list.push(one.value), tail);
                    if next.rest.len() > 0 {
                        lemma_consumed_twice(rest, one, next, tail);
                    }
                }
            },
            _ => {},
        }
        lemma_consumed_first(evs, out, tail);
    }
}

/// Reading the list `agents` is settled by what it consumes.
pub proof fn lemma_agents_read_settled(
    evs: Seq<EventView>,
    list: Seq<AgentView>,
    tail: Seq<EventView>,
)
    ensures
        settled(
            evs,
            agents_read(evs, list),
            tail,
            agents_read(consumed_then(evs, agents_read(evs, list), tail), list),
        ),
    decreases evs.len(),
{
    let out = agents_read(evs, list);
    if evs.len() > 0 && out.rest.len() > 0 {
        let rest = evs.drop_first();
        lemma_agents_read_rest(rest, list);
        lemma_agents_read_settled(rest, list, tail);
        match evs[0] {
            EventView::Start { name, attrs } => {
                let one = agent_read(attrs, rest);
                lemma_agent_read_rest(attrs, rest);
                lemma_agent_read_settled(attrs, rest, tail);
                if one.fault is None {
                    let next = agents_read(one.rest, list.push(one.value));
                    lemma_agents_read_rest(one.rest, list.push(one.value));
                    lemma_agent_read_settled(attrs, rest, consumed_then(one.rest, next, tail));
                    lemma_agents_read_settled(one.rest, list.push(one.value), tail);
                    if next.rest.len() > 0 {
                        lemma_consumed_twice(rest, one, next, tail);
                    }
                }
            },
            _ => {},
        }
        lemma_consumed_first(evs, out, tail);
    }
}

/// Reading an assignee is settled by what it consumes.
pub proof fn lemma_assignee_read_settled(
    evs: Seq<EventView>,
    assignee: AssigneeView,
    tail: Seq<EventView>,
)
    ensures
        settled(
            evs,
            assignee_read(evs, assignee),
            tail,
            assignee_read(consumed_then(evs, assignee_read(evs, assignee), tail), assignee),
        ),
    decreases evs.len(),
{
    let out = assignee_read(evs, assignee);
    if evs.len() > 0 && out.rest.len() > 0 {
        let rest = evs.drop_first();
        lemma_assignee_read_rest(rest, assignee);
        lemma_assignee_read_settled(rest, assignee, tail);
        match evs[0] {
            EventView::Start { name, .. } => {
                let field = flat_text(rest, name, None);
                lemma_flat_text_rest(rest, name, None);
                lemma_flat_text_settled(rest, name, None, tail);
                if field.fault is None {
                    let more = if name == "orgname"@ {
                        AssigneeView { orgname: Some(field.value), ..assignee }
                    } else {
                        AssigneeView { role: Some(field.value), ..assignee }
                    };
                    let next = assignee_read(field.rest, more);
                    lemma_assignee_read_rest(field.rest, more);
                    lemma_flat_text_settled(
                        rest,
                        name,
                        None,
                        consumed_then(field.rest, next, tail),
                    );
                    lemma_assignee_read_settled(field.rest, more, tail);
                    if next.rest.len() > 0 {
                        lemma_consumed_twice(rest, field, next, tail);
                    }
                }
                let book = addressbook_from_read(rest, assignee.addressbook);
                lemma_addressbook_from_read_rest(rest, assignee.addressbook);
                lemma_addressbook_from_read_settled(rest, assignee.addressbook, tail);
                if book.fault is None {
                    let more = AssigneeView { addressbook: book.value, ..assignee };
                    let next = assignee_read(book.rest, more);
                    lemma_assignee_read_rest(book.rest, more);
                    lemma_addressbook_from_read_settled(
                        rest,
                        assignee.addressbook,
                        consumed_then(book.rest, next, tail),
                    );
                    lemma_assignee_read_settled(book.rest, more, tail);
                    if next.rest.len() > 0 {
                        lemma_consumed_twice(rest, book, next, tail);
                    }
                }
            },
            _ => {},
        }
        lemma_consumed_first(evs, out, tail);
    }
}

/// Reading the list `assignees` is settled by what it consumes.
pub proof fn lemma_assignees_read_settled(
    evs: Seq<EventView>,
    list: Seq<AssigneeView>,
    tail: Seq<EventView>,
)
    ensures
        settled(
            evs,
            assignees_read(evs, list),
            tail,
            assignees_read(consumed_then(evs, assignees_read(evs, list), tail), list),
        ),
    decreases evs.len(),
{
    let out = assignees_read(evs, list);
    if evs.len() > 0 && out.rest.len() > 0 {
        let rest = evs.drop_first();
        lemma_assignees_read_rest(rest, list);
        lemma_assignees_read_settled(rest, list, tail);
        let one = assignee_read(rest, AssigneeView::empty());
        lemma_assignee_read_rest(rest, AssigneeView::empty());
        lemma_assignee_read_settled(rest, AssigneeView::empty(), tail);
        if one.fault is None {
            let next = assignees_read(one.rest, list.push(one.value));
            lemma_assignees_read_rest(one.rest, list.push(one.value));
            lemma_assignee_read_settled(
                rest,
                AssigneeView::empty(),
                consumed_then(one.rest, next, tail),
            );
            lemma_assignees_read_settled(one.rest, list.push(one.value), tail);
            if next.rest.len() > 0 {
                lemma_consumed_twice(rest, one, next, tail);
            }
        }
        lemma_consumed_first(evs, out, tail);
    }
}

/// Reading the examiners is settled by what it consumes.
pub proof fn lemma_examiners_read_settled(
    evs: Seq<EventView>,
    examiners: ExaminersView,
    tail: Seq<EventView>,
)
    ensures
        settled(
            evs,
            examiners_read(evs, examiners),
            tail,
            examiners_read(consumed_then(evs, examiners_read(evs, examiners), tail), examiners),
        ),
    decreases evs.len(),
{
    let out = examiners_read(evs, examiners);
    if evs.len() > 0 && out.rest.len() > 0 {
        let rest = evs.drop_first();
        lemma_examiners_read_rest(rest, examiners);
        lemma_examiners_read_settled(rest, examiners, tail);
        match evs[0] {
            EventView::Start { name, .. } => {
                lemma_record_read_rest(rest, name, examiner_names(), 2);
                let primary = examiner_read(rest, name, examiners.primary_examiner);
                lemma_examiner_read_settled(rest, name, examiners.primary_examiner, tail);
                if primary.fault is None {
                    let more = ExaminersView { primary_examiner: primary.value, ..examiners };
                    let next = examiners_read(primary.rest, more);
                    lemma_examiners_read_rest(primary.rest, more);
                    lemma_examiner_read_settled(
                        rest,
                        name,
                        examiners.primary_examiner,
                        consumed_then(primary.rest, next, tail),
                    );
                    lemma_examiners_read_settled(primary.rest, more, tail);
                    if next.rest.len() > 0 {
                        lemma_consumed_twice(rest, primary, next, tail);
                    }
                }
                let assistant = examiner_read(rest, name, examiners.assistant_examiner);
                lemma_examiner_read_settled(rest, name, examiners.assistant_examiner, tail);
                if assistant.fault is None {
                    let more = ExaminersView { assistant_examiner: assistant.value, ..examiners };
                    let next = examiners_read(assistant.rest, more);
                    lemma_examiners_read_rest(assistant.rest, more);
                    lemma_examiner_read_settled(
                        rest,
                        name,
                        examiners.assistant_examiner,
                        consumed_then(assistant.rest, next, tail),
                    );
                    lemma_examiners_read_settled(assistant.rest, more, tail);
                    if next.rest.len() > 0 {
                        lemma_consumed_twice(rest, assistant, next, tail);
                    }
                }
            },
            _ => {},
        }
        lemma_consumed_first(evs, out, tail);
    }
}

/// Reading the field-of-classification-search block is settled by what it
/// consumes.
pub proof fn lemma_field_search_read_settled(
    evs: Seq<EventView>,
    search: UsFieldOfClassificationSearchView,
    tail: Seq<EventView>,
)
    ensures
        settled(
            evs,
            field_search_read(evs, search),
            tail,
            field_search_read(consumed_then(evs, field_search_read(evs, search), tail), search),
        ),
    decreases evs.len(),
{
    let out = field_search_read(evs, search);
    if evs.len() > 0 && out.rest.len() > 0 {
        let rest = evs.drop_first();
        lemma_field_search_read_rest(rest, search);
        lemma_field_search_read_settled(rest, search, tail);
        match evs[0] {
            EventView::Start { name, .. } => {
                let skip = skipped_to(rest, ""@, name);
                lemma_skipped_to_rest(rest, ""@, name);
                lemma_skipped_to_settled(rest, ""@, name, tail);
                if skip.fault is None {
                    let next = field_search_read(skip.rest, search);
                    lemma_field_search_read_rest(skip.rest, search);
                    lemma_skipped_to_settled(rest, ""@, name, consumed_then(skip.rest, next, tail));
                    lemma_field_search_read_settled(skip.rest, search, tail);
                    if next.rest.len() > 0 {
                        lemma_consumed_twice(rest, skip, next, tail);
                    }
                }
                let blank = ClassificationNationalView::empty();
                let one = national_read(rest, blank);
                lemma_record_read_rest(rest, "classification-national"@, national_names(), 3);
                lemma_national_read_settled(rest, blank, tail);
                if one.fault is None {
                    let more = UsFieldOfClassificationSearchView {
                        classification_nationals: search.classification_nationals.push(one.value),
                        ..search
                    };
                    let next = field_search_read(one.rest, more);
                    lemma_field_search_read_rest(one.rest, more);
                    lemma_national_read_settled(rest, blank, consumed_then(one.rest, next, tail));
                    lemma_field_search_read_settled(one.rest, more, tail);
                    if next.rest.len() > 0 {
                        lemma_consumed_twice(rest, one, next, tail);
                    }
                }
                let text = flat_text(rest, name, None);
                lemma_flat_text_rest(rest, name, None);
                lemma_flat_text_settled(rest, name, None, tail);
                if text.fault is None {
                    let more = if name == "classification-cpc-text"@ {
                        UsFieldOfClassificationSearchView {
                            classification_cpc_texts: search.classification_cpc_texts.push(
                                text.value,
                            ),
                            ..search
                        }
                    } else {
                        UsFieldOfClassificationSearchView {
                            classification_cpc_combination_texts:
                                search.classification_cpc_combination_texts.push(text.value),
                            ..search
                        }
                    };
                    let next = field_search_read(text.rest, more);
                    lemma_field_search_read_rest(text.rest, more);
                    lemma_flat_text_settled(rest, name, None, consumed_then(text.rest, next, tail));
                    lemma_field_search_read_settled(text.rest, more, tail);
                    if next.rest.len() > 0 {
                        lemma_consumed_twice(rest, text, next, tail);
                    }
                }
            },
            _ => {},
        }
        lemma_consumed_first(evs, out, tail);
    }
}

/// Reading the term of grant is settled by what it consumes.
pub proof fn lemma_term_of_grant_read_settled(
    evs: Seq<EventView>,
    biblio: BibliographicDataGrantView,
    tail: Seq<EventView>,
)
    ensures
        settled(
            evs,
            term_of_grant_read(evs, biblio),
            tail,
            term_of_grant_read(consumed_then(evs, term_of_grant_read(evs, biblio), tail), biblio),
        ),
{
    let out = term_of_grant_read(evs, biblio);
    if out.rest.len() > 0 {
        let skip = skipped_to(evs, "length-of-grant"@, "us-term-of-grant"@);
        lemma_skipped_to_rest(evs, "length-of-grant"@, "us-term-of-grant"@);
        lemma_skipped_to_settled(evs, "length-of-grant"@, "us-term-of-grant"@, tail);
        if skip.fault is None && skip.value {
            let text = flat_text(skip.rest, "length-of-grant"@, None);
            lemma_flat_text_rest(skip.rest, "length-of-grant"@, None);
            lemma_skipped_to_settled(
                evs,
                "length-of-grant"@,
                "us-term-of-grant"@,
                consumed_then(skip.rest, text, tail),
            );
            lemma_flat_text_settled(skip.rest, "length-of-grant"@, None, tail);
            if text.rest.len() > 0 {
                lemma_consumed_twice(evs, skip, text, tail);
            }
        }
    }
}

/// Reading a child of the bibliographic block is settled by what it
/// consumes.
pub proof fn lemma_biblio_child_read_settled(
    name: Seq<char>,
    evs: Seq<EventView>,
    biblio: BibliographicDataGrantView,
    tail: Seq<EventView>,
)
    ensures
        settled(
            evs,
            biblio_child_read(name, evs, biblio),
            tail,
            biblio_child_read(
                name,
                consumed_then(evs, biblio_child_read(name, evs, biblio), tail),
                biblio,
            ),
        ),
{
    let out = biblio_child_read(name, evs, biblio);
    if out.rest.len() > 0 {
        if name == "publication-reference"@ {
            lemma_doc_id_read_settled(evs, biblio.publication_reference, tail);
        } else if name == "application-reference"@ {
            lemma_doc_id_read_settled(evs, biblio.application_reference, tail);
        } else if name == "us-application-series-code"@ {
            lemma_flat_text_settled(evs, name, None, tail);
        } else if name == "us-term-of-grant"@ {
            lemma_term_of_grant_read_settled(evs, biblio, tail);
        } else if name == "classifications-ipcr"@ || name == "classifications-cpc"@ {
            lemma_skipped_to_settled(evs, ""@, name, tail);
        } else if name == "classification-locarno"@ {
            lemma_locarno_read_settled(evs, biblio.classification_locarno, tail);
        } else if name == "classification-national"@ {
            lemma_national_read_settled(evs, biblio.classification_national, tail);
        } else if name == "invention-title"@ {
            lemma_stripped_text_settled(evs, name, 1, Seq::empty(), tail);
        } else if name == "number-of-claims"@ {
            lemma_flat_text_settled(evs, name, None, tail);
        } else if name == "us-exemplary-claim"@ {
            lemma_flat_text_settled(evs, name, None, tail);
        } else if name == "us-field-of-classification-search"@ {
            lemma_field_search_read_settled(evs, biblio.us_field_of_classification_search, tail);
        } else if name == "us-applicants"@ {
            lemma_applicants_read_settled(evs, biblio.us_applicants, tail);
        } else if name == "inventors"@ {
            lemma_inventors_read_settled(evs, biblio.inventors, tail);
        } else if name == "agents"@ {
            lemma_agents_read_settled(evs, biblio.agents, tail);
        } else if name == "assignees"@ {
            lemma_assignees_read_settled(evs, biblio.assignees, tail);
        } else if name == "examiners"@ {
            lemma_examiners_read_settled(evs, biblio.examiners, tail);
        } else {
            lemma_consumed_nothing(evs, out, tail);
        }
    }
}

/// Reading the bibliographic block is settled by what it consumes.
pub proof fn lemma_biblio_read_settled(
    evs: Seq<EventView>,
    biblio: BibliographicDataGrantView,
    tail: Seq<EventView>,
)
    ensures
        settled(
            evs,
            biblio_read(evs, biblio),
            tail,
            biblio_read(consumed_then(evs, biblio_read(evs, biblio), tail), biblio),
        ),
    decreases evs.len(),
{
    let out = biblio_read(evs, biblio);
    if evs.len() > 0 && out.rest.len() > 0 {
        let rest = evs.drop_first();
        lemma_biblio_read_rest(rest, biblio);
        lemma_biblio_read_settled(rest, biblio, tail);
        match evs[0] {
            EventView::Start { name, .. } => {
                let child = biblio_child_read(name, rest, biblio);
                lemma_biblio_child_read_rest(name, rest, biblio);
                lemma_biblio_child_read_settled(name, rest, biblio, tail);
                if child.fault is None {
                    let next = biblio_read(child.rest, child.value);
                    lemma_biblio_read_rest(child.rest, child.value);
                    lemma_biblio_child_read_settled(
                        name,
                        rest,
                        biblio,
                        consumed_then(child.rest, next, tail),
                    );
                    lemma_biblio_read_settled(child.rest, child.value, tail);
                    if next.rest.len() > 0 {
                        lemma_consumed_twice(rest, child, next, tail);
                    }
                }
            },
            _ => {},
        }
        lemma_consumed_first(evs, out, tail);
    }
}

/// Reading the text of a section is settled by what it consumes.
pub proof fn lemma_section_text_settled(
    evs: Seq<EventView>,
    frags: Seq<Seq<char>>,
    tail: Seq<EventView>,
)
    ensures
        settled(
            evs,
            section_text(evs, frags),
            tail,
            section_text(consumed_then(evs, section_text(evs, frags), tail), frags),
        ),
    decreases evs.len(),
{
    let out = section_text(evs, frags);
    if evs.len() > 0 && out.rest.len() > 0 {
        let rest = evs.drop_first();
        lemma_section_text_rest(rest, frags);
        lemma_section_text_settled(rest, frags, tail);
        match evs[0] {
            EventView::Text { text: Some(frag) } => {
                lemma_section_text_rest(rest, frags.push(frag));
                lemma_section_text_settled(rest, frags.push(frag), tail);
            },
            _ => {},
        }
        lemma_consumed_first(evs, out, tail);
    }
}

/// Reading a top-level instruction is settled by what it consumes.
pub proof fn lemma_top_pi_read_settled(
    pi: Option<Seq<char>>,
    evs: Seq<EventView>,
    grant: PatentGrantView,
    tail: Seq<EventView>,
)
    ensures
        settled(
            evs,
            top_pi_read(pi, evs, grant),
            tail,
            top_pi_read(pi, consumed_then(evs, top_pi_read(pi, evs, grant), tail), grant),
        ),
{
    let out = top_pi_read(pi, evs, grant);
    if out.rest.len() > 0 {
        if out.rest == evs {
            lemma_consumed_nothing(evs, out, tail);
        }
        lemma_section_text_settled(evs, Seq::empty(), tail);
    }
}

/// Reading the texts of a claim is settled by what it consumes.
pub proof fn lemma_claim_texts_read_settled(
    evs: Seq<EventView>,
    claims: Seq<Seq<char>>,
    tail: Seq<EventView>,
)
    ensures
        settled(
            evs,
            claim_texts_read(evs, claims),
            tail,
            claim_texts_read(consumed_then(evs, claim_texts_read(evs, claims), tail), claims),
        ),
    decreases evs.len(),
{
    let out = claim_texts_read(evs, claims);
    if evs.len() > 0 && out.rest.len() > 0 {
        let rest = evs.drop_first();
        match evs[0] {
            EventView::Start { name, .. } => {
                let text = stripped_text(rest, name, 1, Seq::empty());
                lemma_stripped_text_rest(rest, name, 1, Seq::empty());
                lemma_stripped_text_settled(rest, name, 1, Seq::empty(), tail);
                if text.fault is None {
                    let next = claim_texts_read(text.rest, claims.push(text.value));
                    lemma_claim_texts_read_rest(text.rest, claims.push(text.value));
                    lemma_stripped_text_settled(
                        rest,
                        name,
                        1,
                        Seq::empty(),
                        consumed_then(text.rest, next, tail),
                    );
                    lemma_claim_texts_read_settled(text.rest, claims.push(text.value), tail);
                    if next.rest.len() > 0 {
                        lemma_consumed_twice(rest, text, next, tail);
                    }
                }
            },
            _ => {},
        }
        lemma_consumed_first(evs, out, tail);
    }
}

/// Reading the list of claims is settled by what it consumes.
pub proof fn lemma_claims_read_settled(
    evs: Seq<EventView>,
    claims: Seq<Seq<char>>,
    tail: Seq<EventView>,
)
    ensures
        settled(
            evs,
            claims_read(evs, claims),
            tail,
            claims_read(consumed_then(evs, claims_read(evs, claims), tail), claims),
        ),
    decreases evs.len(),
{
    let out = claims_read(evs, claims);
    if evs.len() > 0 && out.rest.len() > 0 {
        let rest = evs.drop_first();
        let claim = claim_texts_read(rest, claims);
        lemma_claim_texts_read_rest(rest, claims);
        lemma_claim_texts_read_settled(rest, claims, tail);
        if claim.fault is None {
            let next = claims_read(claim.rest, claim.value);
            lemma_claims_read_rest(claim.rest, claim.value);
            lemma_claim_texts_read_settled(rest, claims, consumed_then(claim.rest, next, tail));
            lemma_claims_read_settled(claim.rest, claim.value, tail);
            if next.rest.len() > 0 {
                lemma_consumed_twice(rest, claim, next, tail);
            }
        }
        lemma_consumed_first(evs, out, tail);
    }
}

/// Reading an element at the top level is settled by what it consumes.
pub proof fn lemma_body_child_read_settled(
    name: Seq<char>,
    evs: Seq<EventView>,
    grant: PatentGrantView,
    tail: Seq<EventView>,
)
    ensures
        settled(
            evs,
            body_child_read(name, evs, grant),
            tail,
            body_child_read(
                name,
                consumed_then(evs, body_child_read(name, evs, grant), tail),
                grant,
            ),
        ),
{
    let out = body_child_read(name, evs, grant);
    if out.rest.len() > 0 {
        if out.rest == evs {
            lemma_consumed_nothing(evs, out, tail);
        }
        lemma_flat_text_settled(evs, name, None, tail);
        lemma_claims_read_settled(evs, grant.claims, tail);
        lemma_biblio_read_settled(evs, grant.us_bibliographic_data_grant, tail);
    }
}

/// Reading the body of a document is settled by what it consumes.
pub proof fn lemma_body_read_settled(
    evs: Seq<EventView>,
    grant: PatentGrantView,
    tail: Seq<EventView>,
)
    ensures
        settled(
            evs,
            body_read(evs, grant),
            tail,
            body_read(consumed_then(evs, body_read(evs, grant), tail), grant),
        ),
    decreases evs.len(),
{
    let out = body_read(evs, grant);
    if evs.len() > 0 && out.rest.len() > 0 {
        let rest = evs.drop_first();
        lemma_body_read_rest(rest, grant);
        lemma_body_read_settled(rest, grant, tail);
        match evs[0] {
            EventView::Pi { text } => {
                let section = top_pi_read(text, rest, grant);
                lemma_top_pi_read_rest(text, rest, grant);
                lemma_top_pi_read_settled(text, rest, grant, tail);
                if section.fault is None {
                    let next = body_read(section.rest, section.value);
                    lemma_body_read_rest(section.rest, section.value);
                    lemma_top_pi_read_settled(
                        text,
                        rest,
                        grant,
                        consumed_then(section.rest, next, tail),
                    );
                    lemma_body_read_settled(section.rest, section.value, tail);
                    if next.rest.len() > 0 {
                        lemma_consumed_twice(rest, section, next, tail);
                    }
                }
            },
            EventView::Start { name, .. } => {
                let child = body_child_read(name, rest, grant);
                lemma_body_child_read_rest(name, rest, grant);
                lemma_body_child_read_settled(name, rest, grant, tail);
                if child.fault is None {
                    let next = body_read(child.rest, child.value);
                    lemma_body_read_rest(child.rest, child.value);
                    lemma_body_child_read_settled(
                        name,
                        rest,
                        grant,
                        consumed_then(child.rest, next, tail),
                    );
                    lemma_body_read_settled(child.rest, child.value, tail);
                    if next.rest.len() > 0 {
                        lemma_consumed_twice(rest, child, next, tail);
                    }
                }
            },
            _ => {},
        }
        lemma_consumed_first(evs, out, tail);
    }
}

/// Reading a header is settled by what it consumes.
pub proof fn lemma_header_read_settled(evs: Seq<EventView>, tail: Seq<EventView>)
    ensures
        settled(
            evs,
            header_read(evs),
            tail,
            header_read(consumed_then(evs, header_read(evs), tail)),
        ),
{
    let out = header_read(evs);
    if evs.len() > 0 && out.rest.len() > 0 {
        let rest = evs.drop_first();
        lemma_consumed_first(evs, out, tail);
        assert(rest.take(0) + tail =~= tail);
        if rest.len() > 0 && out.rest.len() < rest.len() {
            let again = consumed_then(evs, out, tail);
            assert(again.drop_first()[0] == rest[0]);
            assert(again.drop_first().drop_first() =~= tail);
            assert(rest.drop_first() =~= evs.skip(2));
        }
    }
}

/// Reading a document is settled by what it consumes.
pub proof fn lemma_grant_read_settled(evs: Seq<EventView>, tail: Seq<EventView>)
    ensures
        settled(
            evs,
            grant_read(evs),
            tail,
            grant_read(consumed_then(evs, grant_read(evs), tail)),
        ),
{
    let out = grant_read(evs);
    if out.rest.len() > 0 {
        let header = header_read(evs);
        lemma_header_read_settled(evs, tail);
        if header.fault is None && header.value {
            let body = body_read(header.rest, PatentGrantView::empty());
            lemma_body_read_rest(header.rest, PatentGrantView::empty());
            lemma_header_read_settled(evs, consumed_then(header.rest, body, tail));
            lemma_body_read_settled(header.rest, PatentGrantView::empty(), tail);
            if body.rest.len() > 0 {
                lemma_consumed_twice(evs, header, body, tail);
            }
        }
    }
}

/// A document holds its record wherever it stands: if it gives the record
/// when something follows it, and leaves what follows, then it gives the
/// record and leaves what follows, whatever that is.
pub proof fn lemma_document_holds_its_record(
    doc: Seq<EventView>,
    record: PatentGrantView,
    next: Seq<EventView>,
)
    requires
        next.len() > 0,
        grant_read(doc + next) == Outcome::done(Some(record), next),
    ensures
        holds_record(doc, record),
{
    assert forall|tail: Seq<EventView>| #[trigger]
        grant_read(doc + tail) == Outcome::done(Some(record), tail) by {
        let evs = doc + next;
        lemma_grant_read_settled(evs, tail);
        assert(consumed_then(evs, grant_read(evs), tail) =~= doc + tail);
    }
}

/// Read with `next` after it, the document gives the record and leaves
/// `next`, which is not empty.
pub open spec fn read_before(
    doc: Seq<EventView>,
    record: PatentGrantView,
    next: Seq<EventView>,
) -> bool {
    next.len() > 0 && grant_read(doc + next) == Outcome::done(Some(record), next)
}

/// A well-formed document: read with something after it, it gives a record
/// and leaves what is after it.
pub open spec fn well_formed(doc: Seq<EventView>, record: PatentGrantView) -> bool {
    exists|next: Seq<EventView>| read_before(doc, record, next)
}

/// A feed of N well-formed documents gives N records, in the order of the
/// documents and each without failure.
pub proof fn lemma_well_formed_feed(docs: Seq<Seq<EventView>>, records: Seq<PatentGrantView>)
    requires
        docs.len() == records.len(),
        forall|i: int| 0 <= i < docs.len() ==> well_formed(#[trigger] docs[i], records[i]),
    ensures
        records_of(concatenated(docs)) == records.map_values(
            |record: PatentGrantView| Ok::<PatentGrantView, ErrorView>(record),
        ),
{
    assert forall|i: int| 0 <= i < docs.len() implies holds_record(
        #[trigger] docs[i],
        records[i],
    ) by {
        assert(well_formed(docs[i], records[i]));
        let next = choose|next: Seq<EventView>| read_before(docs[i], records[i], next);
        lemma_document_holds_its_record(docs[i], records[i], next);
    }
    lemma_one_record_per_document(docs, records);
}

} // verus!
