//! The parties of a grant: applicants, inventors, agents and assignees, each
//! with an address book, and the examiners.

use vstd::prelude::*;
use crate::data::{
    AddressBook, AddressBookView, Agent, AgentView, Assignee, AssigneeView, Examiners,
    ExaminersView, Inventor, InventorView, UsApplicant, UsApplicantView,
};
use crate::error::{Error, ErrorView};
use crate::event::{Attr, AttrView, EventView, XmlEvent};
use crate::fields::{
    address_read, blank, blank_values, deser_address, deser_examiner, examiner_names,
    examiner_read, find_name, lemma_record_read_rest, address_names, position, take_last,
    FieldValues,
};
use crate::parse::{fills, gives, out_of_place, unexpected, unexpected_element, Outcome};
use crate::reader::EventReader;
use crate::strings::same_text;
use crate::text::{
    deser_text, deser_text_from, flat_text, lemma_flat_text_rest, lemma_named_text_rest,
    named_text, text_or_empty,
};
use crate::util::{
    consume_start, lemma_skipped_to_rest, skip_to_tag_within, skipped_to, start_consumed,
};

verus! {

/// The values of the attributes named in `names`, by the name's place in the
/// list. The attributes are taken in the order of the tag, a later value
/// replacing an earlier one, up to the first that is malformed, not named in
/// `names`, or not decodable: these are failures, and so are attributes that
/// are not valid UTF-8.
pub open spec fn attrs_read(
    attrs: Seq<AttrView>,
    names: Seq<Seq<char>>,
    seen: FieldValues,
) -> Result<FieldValues, ErrorView>
    recommends
        seen.len() == names.len(),
    decreases attrs.len(),
{
    if attrs.len() == 0 {
        Ok(seen)
    } else {
        match attrs[0] {
            AttrView::Malformed { msg } => Err(ErrorView::Stream { msg }),
            AttrView::Garbled => Err(ErrorView::Encoding),
            AttrView::Pair { key, value } => match position(names, key) {
                Some(i) => attrs_read(attrs.drop_first(), names, seen.update(i, Some(value))),
                None => Err(ErrorView::UnrecognizedAttribute { key }),
            },
            AttrView::Undecodable { key } => match position(names, key) {
                Some(_) => Err(ErrorView::Encoding),
                None => Err(ErrorView::UnrecognizedAttribute { key }),
            },
        }
    }
}

/// Reading attributes keeps the number of values.
pub proof fn lemma_attrs_read_len(attrs: Seq<AttrView>, names: Seq<Seq<char>>, seen: FieldValues)
    requires
        seen.len() == names.len(),
    ensures
        attrs_read(attrs, names, seen) matches Ok(values) ==> values.len() == names.len(),
    decreases attrs.len(),
{
    if attrs.len() > 0 {
        match attrs[0] {
            AttrView::Pair { key, value } => match position(names, key) {
                Some(i) => {
                    lemma_attrs_read_len(attrs.drop_first(), names, seen.update(i, Some(value)));
                },
                None => {},
            },
            _ => {},
        }
    }
}

/// Reads the attributes of a tag; `names` are the attributes that it may have.
pub fn read_attributes(attrs: &Vec<Attr>, names: &Vec<&str>) -> (result: Result<
    Vec<Option<String>>,
    Error,
>)
    ensures
        match attrs_read(attrs.deep_view(), names.deep_view(), blank(names.len() as nat)) {
            Ok(values) => result matches Ok(v) && v.deep_view() == values && v.len()
                == names.len(),
            Err(fault) => result matches Err(e) && e.deep_view() == fault,
        },
{
    let mut seen = blank_values(names.len());
    let mut i: usize = 0;
    proof {
        assert(attrs.deep_view().skip(0) =~= attrs.deep_view());
    }
    while i < attrs.len()
        invariant
            i <= attrs.len(),
            seen.len() == names.len(),
            attrs_read(attrs.deep_view(), names.deep_view(), blank(names.len() as nat))
                == attrs_read(
                attrs.deep_view().skip(i as int),
                names.deep_view(),
                seen.deep_view(),
            ),
        decreases attrs.len() - i,
    {
        proof {
            assert(attrs.deep_view().skip(i as int).drop_first() =~= attrs.deep_view().skip(
                i + 1,
            ));
            assert(attrs.deep_view().skip(i as int)[0] == attrs[i as int].deep_view());
        }
        match &attrs[i] {
            Attr::Malformed { msg } => {
                return Err(Error::Stream { msg: msg.clone() });
            },
            Attr::Garbled => {
                return Err(Error::Encoding);
            },
            Attr::Pair { key, value } => {
                match find_name(names, key.as_str()) {
                    Some(k) => {
                        let ghost before = seen.deep_view();
                        seen.set(k, Some(value.clone()));
                        proof {
                            assert(seen.deep_view() =~= before.update(k as int, Some(value@)));
                        }
                    },
                    None => {
                        return Err(Error::UnrecognizedAttribute { key: key.clone() });
                    },
                }
            },
            Attr::Undecodable { key } => {
                match find_name(names, key.as_str()) {
                    Some(_) => {
                        return Err(Error::Encoding);
                    },
                    None => {
                        return Err(Error::UnrecognizedAttribute { key: key.clone() });
                    },
                }
            },
        }
        i = i + 1;
    }
    Ok(seen)
}

/// An attribute's text; empty where the tag does not have the attribute.
pub(crate) fn text_or_default(value: Option<String>) -> (text: String)
    ensures
        text@ == text_or_empty(value.deep_view()),
{
    match value {
        Some(text) => text,
        None => String::new(),
    }
}

/// The content of an address book, whose opening tag has been read:
/// organization, first and last name and role, each extracted flat, and an
/// address, in any order and each where the feed gives one. Any other child
/// is a failure, and so is anything that is no tag.
pub open spec fn addressbook_from_read(evs: Seq<EventView>, book: AddressBookView) -> Outcome<
    AddressBookView,
>
    decreases evs.len(),
{
    if evs.len() == 0 {
        Outcome::failed(book, unexpected(Seq::empty(), "addressbook"@), evs)
    } else {
        let rest = evs.drop_first();
        match evs[0] {
            EventView::Start { name, .. } => if name == "orgname"@ || name == "first-name"@ || name
                == "last-name"@ || name == "role"@ {
                let field = flat_text(rest, name, None);
                if field.fault is Some {
                    Outcome { value: book, fault: field.fault, rest: field.rest }
                } else {
                    proof {
                        lemma_flat_text_rest(rest, name, None);
                    }
                    addressbook_from_read(
                        field.rest,
                        if name == "orgname"@ {
                            AddressBookView { orgname: Some(field.value), ..book }
                        } else if name == "first-name"@ {
                            AddressBookView { first_name: Some(field.value), ..book }
                        } else if name == "last-name"@ {
                            AddressBookView { last_name: Some(field.value), ..book }
                        } else {
                            AddressBookView { role: Some(field.value), ..book }
                        },
                    )
                }
            } else if name == "address"@ {
                let address = address_read(rest, book.address);
                if address.fault is Some {
                    Outcome { value: book, fault: address.fault, rest: address.rest }
                } else {
                    proof {
                        lemma_record_read_rest(rest, "address"@, address_names(), 0);
                    }
                    addressbook_from_read(
                        address.rest,
                        AddressBookView { address: address.value, ..book },
                    )
                }
            } else {
                Outcome::failed(book, unexpected(name, "addressbook"@), rest)
            },
            EventView::End { name } => if name == "addressbook"@ {
                Outcome::done(book, rest)
            } else {
                addressbook_from_read(rest, book)
            },
            EventView::Invalid { msg } => Outcome::failed(book, ErrorView::Stream { msg }, rest),
            _ => Outcome::failed(book, unexpected(Seq::empty(), "addressbook"@), rest),
        }
    }
}

/// An address book: the `addressbook` element, which comes next.
pub open spec fn addressbook_read(evs: Seq<EventView>, book: AddressBookView) -> Outcome<
    AddressBookView,
> {
    let opened = start_consumed(evs, "addressbook"@);
    if opened.fault is Some {
        Outcome { value: book, fault: opened.fault, rest: opened.rest }
    } else {
        addressbook_from_read(opened.rest, book)
    }
}

/// Reading an address book consumes events and makes none.
pub proof fn lemma_addressbook_from_read_rest(evs: Seq<EventView>, book: AddressBookView)
    ensures
        addressbook_from_read(evs, book).rest.len() <= evs.len(),
    decreases evs.len(),
{
    if evs.len() > 0 {
        let rest = evs.drop_first();
        lemma_addressbook_from_read_rest(rest, book);
        match evs[0] {
            EventView::Start { name, .. } => {
                lemma_flat_text_rest(rest, name, None);
                lemma_record_read_rest(rest, "address"@, address_names(), 0);
                let field = flat_text(rest, name, None);
                lemma_addressbook_from_read_rest(
                    field.rest,
                    AddressBookView { orgname: Some(field.value), ..book },
                );
                lemma_addressbook_from_read_rest(
                    field.rest,
                    AddressBookView { first_name: Some(field.value), ..book },
                );
                lemma_addressbook_from_read_rest(
                    field.rest,
                    AddressBookView { last_name: Some(field.value), ..book },
                );
                lemma_addressbook_from_read_rest(
                    field.rest,
                    AddressBookView { role: Some(field.value), ..book },
                );
                let address = address_read(rest, book.address);
                lemma_addressbook_from_read_rest(
                    address.rest,
                    AddressBookView { address: address.value, ..book },
                );
            },
            _ => {},
        }
    }
}

/// Reading an address book consumes events and makes none.
pub proof fn lemma_addressbook_read_rest(evs: Seq<EventView>, book: AddressBookView)
    ensures
        addressbook_read(evs, book).rest.len() <= evs.len(),
{
    lemma_addressbook_from_read_rest(start_consumed(evs, "addressbook"@).rest, book);
}

/// Reads the content of an address book, whose opening tag has been read.
pub fn deser_addressbook_from(rdr: &mut EventReader<'_>, addressbook: &mut AddressBook) -> (result:
    Result<(), Error>)
    ensures
        fills(
            addressbook_from_read(old(rdr).pending(), old(addressbook).deep_view()),
            result,
            final(addressbook).deep_view(),
            final(rdr).pending(),
        ),
{
    loop
        invariant
            addressbook_from_read(old(rdr).pending(), old(addressbook).deep_view())
                == addressbook_from_read(rdr.pending(), addressbook.deep_view()),
        decreases rdr.pending().len(),
    {
        match rdr.next_event() {
            None => {
                return Err(out_of_place("addressbook"));
            },
            Some(XmlEvent::Start { name, attrs }) => {
                proof {
                    lemma_flat_text_rest(rdr.pending(), name@, None);
                    lemma_record_read_rest(rdr.pending(), "address"@, address_names(), 0);
                }
                if same_text(name.as_str(), "orgname") {
                    match deser_text_from(name.as_str(), rdr) {
                        Ok(text) => {
                            addressbook.orgname = Some(text);
                        },
                        Err(e) => {
                            return Err(e);
                        },
                    }
                } else if same_text(name.as_str(), "first-name") {
                    match deser_text_from(name.as_str(), rdr) {
                        Ok(text) => {
                            addressbook.first_name = Some(text);
                        },
                        Err(e) => {
                            return Err(e);
                        },
                    }
                } else if same_text(name.as_str(), "last-name") {
                    match deser_text_from(name.as_str(), rdr) {
                        Ok(text) => {
                            addressbook.last_name = Some(text);
                        },
                        Err(e) => {
                            return Err(e);
                        },
                    }
                } else if same_text(name.as_str(), "role") {
                    match deser_text_from(name.as_str(), rdr) {
                        Ok(text) => {
                            addressbook.role = Some(text);
                        },
                        Err(e) => {
                            return Err(e);
                        },
                    }
                } else if same_text(name.as_str(), "address") {
                    match deser_address(rdr, &mut addressbook.address) {
                        Ok(()) => {},
                        Err(e) => {
                            return Err(e);
                        },
                    }
                } else {
                    return Err(unexpected_element(name.as_str(), "addressbook"));
                }
            },
            Some(XmlEvent::End { name }) => {
                if same_text(name.as_str(), "addressbook") {
                    return Ok(());
                }
            },
            Some(XmlEvent::Invalid { msg }) => {
                return Err(Error::Stream { msg });
            },
            Some(_) => {
                return Err(out_of_place("addressbook"));
            },
        }
    }
}

/// Reads an address book; the `addressbook` element comes next.
pub fn deser_addressbook(rdr: &mut EventReader<'_>, addressbook: &mut AddressBook) -> (result:
    Result<(), Error>)
    ensures
        fills(
            addressbook_read(old(rdr).pending(), old(addressbook).deep_view()),
            result,
            final(addressbook).deep_view(),
            final(rdr).pending(),
        ),
{
    match consume_start(rdr, "addressbook") {
        Ok(()) => deser_addressbook_from(rdr, addressbook),
        Err(e) => Err(e),
    }
}

/// The attributes that an applicant's tag may have.
pub open spec fn applicant_attr_names() -> Seq<Seq<char>> {
    seq!["sequence"@, "app-type"@, "designation"@, "applicant-authority-category"@]
}

/// The attributes that an inventor's tag may have.
pub open spec fn inventor_attr_names() -> Seq<Seq<char>> {
    seq!["sequence"@, "designation"@]
}

/// The attributes that an agent's tag may have.
pub open spec fn agent_attr_names() -> Seq<Seq<char>> {
    seq!["sequence"@, "rep-type"@]
}

/// An applicant's country of residence: the text of the `country` element
/// that follows the opening tag `residence`, and `None` where the applicant's
/// element closes before any such tag.
pub open spec fn residence_read(evs: Seq<EventView>) -> Outcome<Option<Seq<char>>> {
    let skip = skipped_to(evs, "residence"@, "us-applicant"@);
    if skip.fault is Some || !skip.value {
        Outcome { value: None, fault: skip.fault, rest: skip.rest }
    } else {
        let country = named_text(skip.rest, "country"@);
        Outcome {
            value: if country.fault is Some {
                None
            } else {
                Some(country.value)
            },
            fault: country.fault,
            rest: country.rest,
        }
    }
}

/// An applicant, whose opening tag with the attributes `attrs` has been
/// read: the attributes, then an address book, then the residence.
pub open spec fn applicant_read(attrs: Seq<AttrView>, evs: Seq<EventView>) -> Outcome<
    UsApplicantView,
> {
    match attrs_read(attrs, applicant_attr_names(), blank(4)) {
        Err(fault) => Outcome::failed(UsApplicantView::empty(), fault, evs),
        Ok(values) => {
            let book = addressbook_read(evs, AddressBookView::empty());
            if book.fault is Some {
                Outcome { value: UsApplicantView::empty(), fault: book.fault, rest: book.rest }
            } else {
                let residence = residence_read(book.rest);
                Outcome {
                    value: UsApplicantView {
                        sequence: text_or_empty(values[0]),
                        app_type: text_or_empty(values[1]),
                        designation: text_or_empty(values[2]),
                        applicant_authority_category: values[3],
                        addressbook: book.value,
                        residence: residence.value,
                    },
                    fault: residence.fault,
                    rest: residence.rest,
                }
            }
        },
    }
}

/// An inventor, whose opening tag with the attributes `attrs` has been read:
/// the attributes, then an address book.
pub open spec fn inventor_read(attrs: Seq<AttrView>, evs: Seq<EventView>) -> Outcome<InventorView> {
    match attrs_read(attrs, inventor_attr_names(), blank(2)) {
        Err(fault) => Outcome::failed(InventorView::empty(), fault, evs),
        Ok(values) => {
            let book = addressbook_read(evs, AddressBookView::empty());
            Outcome {
                value: InventorView {
                    sequence: text_or_empty(values[0]),
                    designation: text_or_empty(values[1]),
                    addressbook: book.value,
                },
                fault: book.fault,
                rest: book.rest,
            }
        },
    }
}

/// An agent, whose opening tag with the attributes `attrs` has been read:
/// the attributes, then an address book.
pub open spec fn agent_read(attrs: Seq<AttrView>, evs: Seq<EventView>) -> Outcome<AgentView> {
    match attrs_read(attrs, agent_attr_names(), blank(2)) {
        Err(fault) => Outcome::failed(AgentView::empty(), fault, evs),
        Ok(values) => {
            let book = addressbook_read(evs, AddressBookView::empty());
            Outcome {
                value: AgentView {
                    sequence: text_or_empty(values[0]),
                    rep_type: text_or_empty(values[1]),
                    addressbook: book.value,
                },
                fault: book.fault,
                rest: book.rest,
            }
        },
    }
}

/// Reading a residence consumes events and makes none.
pub proof fn lemma_residence_read_rest(evs: Seq<EventView>)
    ensures
        residence_read(evs).rest.len() <= evs.len(),
{
    lemma_skipped_to_rest(evs, "residence"@, "us-applicant"@);
    lemma_named_text_rest(skipped_to(evs, "residence"@, "us-applicant"@).rest, "country"@);
}

/// Reading an applicant consumes events and makes none.
pub proof fn lemma_applicant_read_rest(attrs: Seq<AttrView>, evs: Seq<EventView>)
    ensures
        applicant_read(attrs, evs).rest.len() <= evs.len(),
{
    lemma_addressbook_read_rest(evs, AddressBookView::empty());
    lemma_residence_read_rest(addressbook_read(evs, AddressBookView::empty()).rest);
}

/// Reading an inventor consumes events and makes none.
pub proof fn lemma_inventor_read_rest(attrs: Seq<AttrView>, evs: Seq<EventView>)
    ensures
        inventor_read(attrs, evs).rest.len() <= evs.len(),
{
    lemma_addressbook_read_rest(evs, AddressBookView::empty());
}

/// Reading an agent consumes events and makes none.
pub proof fn lemma_agent_read_rest(attrs: Seq<AttrView>, evs: Seq<EventView>)
    ensures
        agent_read(attrs, evs).rest.len() <= evs.len(),
{
    lemma_addressbook_read_rest(evs, AddressBookView::empty());
}

/// Reads an applicant's country of residence, if the feed gives one.
pub fn deser_residence(rdr: &mut EventReader<'_>) -> (result: Result<Option<String>, Error>)
    ensures
        gives(residence_read(old(rdr).pending()), result, final(rdr).pending()),
{
    match skip_to_tag_within("residence", "us-applicant", rdr) {
        Ok(true) => match deser_text("country", rdr) {
            Ok(country) => Ok(Some(country)),
            Err(e) => Err(e),
        },
        Ok(false) => Ok(None),
        Err(e) => Err(e),
    }
}

/// Reads an applicant, whose opening tag with the attributes `attrs` has
/// been read.
pub fn deser_us_applicant(attrs: &Vec<Attr>, rdr: &mut EventReader<'_>) -> (result: Result<
    UsApplicant,
    Error,
>)
    ensures
        gives(applicant_read(attrs.deep_view(), old(rdr).pending()), result, final(rdr).pending()),
{
    let names = vec!["sequence", "app-type", "designation", "applicant-authority-category"];
    proof {
        assert(names.deep_view() =~= applicant_attr_names());
    }
    let mut values = match read_attributes(attrs, &names) {
        Ok(values) => values,
        Err(e) => {
            return Err(e);
        },
    };
    let mut applicant = UsApplicant::default();
    applicant.applicant_authority_category = take_last(&mut values);
    applicant.designation = text_or_default(take_last(&mut values));
    applicant.app_type = text_or_default(take_last(&mut values));
    applicant.sequence = text_or_default(take_last(&mut values));
    match deser_addressbook(rdr, &mut applicant.addressbook) {
        Ok(()) => {},
        Err(e) => {
            return Err(e);
        },
    }
    match deser_residence(rdr) {
        Ok(residence) => {
            applicant.residence = residence;
            Ok(applicant)
        },
        Err(e) => Err(e),
    }
}

/// Reads an inventor, whose opening tag with the attributes `attrs` has been
/// read.
pub fn deser_inventor(attrs: &Vec<Attr>, rdr: &mut EventReader<'_>) -> (result: Result<
    Inventor,
    Error,
>)
    ensures
        gives(inventor_read(attrs.deep_view(), old(rdr).pending()), result, final(rdr).pending()),
{
    let names = vec!["sequence", "designation"];
    proof {
        assert(names.deep_view() =~= inventor_attr_names());
    }
    let mut values = match read_attributes(attrs, &names) {
        Ok(values) => values,
        Err(e) => {
            return Err(e);
        },
    };
    let mut inventor = Inventor::default();
    inventor.designation = text_or_default(take_last(&mut values));
    inventor.sequence = text_or_default(take_last(&mut values));
    match deser_addressbook(rdr, &mut inventor.addressbook) {
        Ok(()) => Ok(inventor),
        Err(e) => Err(e),
    }
}

/// Reads an agent, whose opening tag with the attributes `attrs` has been
/// read.
pub fn deser_agent(attrs: &Vec<Attr>, rdr: &mut EventReader<'_>) -> (result: Result<Agent, Error>)
    ensures
        gives(agent_read(attrs.deep_view(), old(rdr).pending()), result, final(rdr).pending()),
{
    let names = vec!["sequence", "rep-type"];
    proof {
        assert(names.deep_view() =~= agent_attr_names());
    }
    let mut values = match read_attributes(attrs, &names) {
        Ok(values) => values,
        Err(e) => {
            return Err(e);
        },
    };
    let mut agent = Agent::default();
    agent.rep_type = text_or_default(take_last(&mut values));
    agent.sequence = text_or_default(take_last(&mut values));
    match deser_addressbook(rdr, &mut agent.addressbook) {
        Ok(()) => Ok(agent),
        Err(e) => Err(e),
    }
}

/// The list `us-applicants`, whose opening tag has been read: its `us-applicant`
/// elements in the order of the feed, added to `list`, up to the closing tag
/// of the list. A list without any is empty. Any other element is a failure,
/// and so is anything that is no tag.
pub open spec fn applicants_read(evs: Seq<EventView>, list: Seq<UsApplicantView>) -> Outcome<
    Seq<UsApplicantView>,
>
    decreases evs.len(),
{
    if evs.len() == 0 {
        Outcome::failed(list, unexpected(Seq::empty(), "us-applicants"@), evs)
    } else {
        let rest = evs.drop_first();
        match evs[0] {
            EventView::Start { name, attrs } => if name == "us-applicant"@ {
                let one = applicant_read(attrs, rest);
                if one.fault is Some {
                    Outcome { value: list, fault: one.fault, rest: one.rest }
                } else {
                    proof {
                        lemma_applicant_read_rest(attrs, rest);
                    }
                    applicants_read(one.rest, list.push(one.value))
                }
            } else {
                Outcome::failed(list, unexpected(name, "us-applicants"@), rest)
            },
            EventView::End { name } => if name == "us-applicants"@ {
                Outcome::done(list, rest)
            } else {
                applicants_read(rest, list)
            },
            EventView::Invalid { msg } => Outcome::failed(list, ErrorView::Stream { msg }, rest),
            _ => Outcome::failed(list, unexpected(Seq::empty(), "us-applicants"@), rest),
        }
    }
}

/// Reading the list `us-applicants` consumes events and makes none.
pub proof fn lemma_applicants_read_rest(evs: Seq<EventView>, list: Seq<UsApplicantView>)
    ensures
        applicants_read(evs, list).rest.len() <= evs.len(),
    decreases evs.len(),
{
    if evs.len() > 0 {
        let rest = evs.drop_first();
        lemma_applicants_read_rest(rest, list);
        match evs[0] {
            EventView::Start { name, attrs } => {
                lemma_applicant_read_rest(attrs, rest);
                let one = applicant_read(attrs, rest);
                lemma_applicants_read_rest(one.rest, list.push(one.value));
            },
            _ => {},
        }
    }
}

/// Reads the list `us-applicants`, whose opening tag has been read, and adds its
/// items to `applicants`.
pub fn deser_us_applicants(
    rdr: &mut EventReader<'_>,
    applicants: &mut Vec<UsApplicant>,
) -> (result: Result<(), Error>)
    ensures
        fills(
            applicants_read(old(rdr).pending(), old(applicants).deep_view()),
            result,
            final(applicants).deep_view(),
            final(rdr).pending(),
        ),
{
    loop
        invariant
            applicants_read(old(rdr).pending(), old(applicants).deep_view()) == applicants_read(
                rdr.pending(),
                applicants.deep_view(),
            ),
        decreases rdr.pending().len(),
    {
        match rdr.next_event() {
            None => {
                return Err(out_of_place("us-applicants"));
            },
            Some(XmlEvent::Start { name, attrs }) => {
                if !same_text(name.as_str(), "us-applicant") {
                    return Err(unexpected_element(name.as_str(), "us-applicants"));
                }
                proof {
                    lemma_applicant_read_rest(attrs.deep_view(), rdr.pending());
                }
                match deser_us_applicant(&attrs, rdr) {
                    Ok(applicant) => {
                        let ghost before = applicants.deep_view();
                        applicants.push(applicant);
                        proof {
                            assert(applicants.deep_view() =~= before.push(applicant.deep_view()));
                        }
                    },
                    Err(e) => {
                        return Err(e);
                    },
                }
            },
            Some(XmlEvent::End { name }) => {
                if same_text(name.as_str(), "us-applicants") {
                    return Ok(());
                }
            },
            Some(XmlEvent::Invalid { msg }) => {
                return Err(Error::Stream { msg });
            },
            Some(_) => {
                return Err(out_of_place("us-applicants"));
            },
        }
    }
}

/// The list `inventors`, whose opening tag has been read: its `inventor`
/// elements in the order of the feed, added to `list`, up to the closing tag
/// of the list. A list without any is empty. Any other element is a failure,
/// and so is anything that is no tag.
pub open spec fn inventors_read(evs: Seq<EventView>, list: Seq<InventorView>) -> Outcome<
    Seq<InventorView>,
>
    decreases evs.len(),
{
    if evs.len() == 0 {
        Outcome::failed(list, unexpected(Seq::empty(), "inventors"@), evs)
    } else {
        let rest = evs.drop_first();
        match evs[0] {
            EventView::Start { name, attrs } => if name == "inventor"@ {
                let one = inventor_read(attrs, rest);
                if one.fault is Some {
                    Outcome { value: list, fault: one.fault, rest: one.rest }
                } else {
                    proof {
                        lemma_inventor_read_rest(attrs, rest);
                    }
                    inventors_read(one.rest, list.push(one.value))
                }
            } else {
                Outcome::failed(list, unexpected(name, "inventors"@), rest)
            },
            EventView::End { name } => if name == "inventors"@ {
                Outcome::done(list, rest)
            } else {
                inventors_read(rest, list)
            },
            EventView::Invalid { msg } => Outcome::failed(list, ErrorView::Stream { msg }, rest),
            _ => Outcome::failed(list, unexpected(Seq::empty(), "inventors"@), rest),
        }
    }
}

/// Reading the list `inventors` consumes events and makes none.
pub proof fn lemma_inventors_read_rest(evs: Seq<EventView>, list: Seq<InventorView>)
    ensures
        inventors_read(evs, list).rest.len() <= evs.len(),
    decreases evs.len(),
{
    if evs.len() > 0 {
        let rest = evs.drop_first();
        lemma_inventors_read_rest(rest, list);
        match evs[0] {
            EventView::Start { name, attrs } => {
                lemma_inventor_read_rest(attrs, rest);
                let one = inventor_read(attrs, rest);
                lemma_inventors_read_rest(one.rest, list.push(one.value));
            },
            _ => {},
        }
    }
}

/// Reads the list `inventors`, whose opening tag has been read, and adds its
/// items to `inventors`.
pub fn deser_inventors(rdr: &mut EventReader<'_>, inventors: &mut Vec<Inventor>) -> (result: Result<
    (),
    Error,
>)
    ensures
        fills(
            inventors_read(old(rdr).pending(), old(inventors).deep_view()),
            result,
            final(inventors).deep_view(),
            final(rdr).pending(),
        ),
{
    loop
        invariant
            inventors_read(old(rdr).pending(), old(inventors).deep_view()) == inventors_read(
                rdr.pending(),
                inventors.deep_view(),
            ),
        decreases rdr.pending().len(),
    {
        match rdr.next_event() {
            None => {
                return Err(out_of_place("inventors"));
            },
            Some(XmlEvent::Start { name, attrs }) => {
                if !same_text(name.as_str(), "inventor") {
                    return Err(unexpected_element(name.as_str(), "inventors"));
                }
                proof {
                    lemma_inventor_read_rest(attrs.deep_view(), rdr.pending());
                }
                match deser_inventor(&attrs, rdr) {
                    Ok(inventor) => {
                        let ghost before = inventors.deep_view();
                        inventors.push(inventor);
                        proof {
                            assert(inventors.deep_view() =~= before.push(inventor.deep_view()));
                        }
                    },
                    Err(e) => {
                        return Err(e);
                    },
                }
            },
            Some(XmlEvent::End { name }) => {
                if same_text(name.as_str(), "inventors") {
                    return Ok(());
                }
            },
            Some(XmlEvent::Invalid { msg }) => {
                return Err(Error::Stream { msg });
            },
            Some(_) => {
                return Err(out_of_place("inventors"));
            },
        }
    }
}

/// The list `agents`, whose opening tag has been read: its `agent`
/// elements in the order of the feed, added to `list`, up to the closing tag
/// of the list. A list without any is empty. Any other element is a failure,
/// and so is anything that is no tag.
pub open spec fn agents_read(evs: Seq<EventView>, list: Seq<AgentView>) -> Outcome<Seq<AgentView>>
    decreases evs.len(),
{
    if evs.len() == 0 {
        Outcome::failed(list, unexpected(Seq::empty(), "agents"@), evs)
    } else {
        let rest = evs.drop_first();
        match evs[0] {
            EventView::Start { name, attrs } => if name == "agent"@ {
                let one = agent_read(attrs, rest);
                if one.fault is Some {
                    Outcome { value: list, fault: one.fault, rest: one.rest }
                } else {
                    proof {
                        lemma_agent_read_rest(attrs, rest);
                    }
                    agents_read(one.rest, list.push(one.value))
                }
            } else {
                Outcome::failed(list, unexpected(name, "agents"@), rest)
            },
            EventView::End { name } => if name == "agents"@ {
                Outcome::done(list, rest)
            } else {
                agents_read(rest, list)
            },
            EventView::Invalid { msg } => Outcome::failed(list, ErrorView::Stream { msg }, rest),
            _ => Outcome::failed(list, unexpected(Seq::empty(), "agents"@), rest),
        }
    }
}

/// Reading the list `agents` consumes events and makes none.
pub proof fn lemma_agents_read_rest(evs: Seq<EventView>, list: Seq<AgentView>)
    ensures
        agents_read(evs, list).rest.len() <= evs.len(),
    decreases evs.len(),
{
    if evs.len() > 0 {
        let rest = evs.drop_first();
        lemma_agents_read_rest(rest, list);
        match evs[0] {
            EventView::Start { name, attrs } => {
                lemma_agent_read_rest(attrs, rest);
                let one = agent_read(attrs, rest);
                lemma_agents_read_rest(one.rest, list.push(one.value));
            },
            _ => {},
        }
    }
}

/// Reads the list `agents`, whose opening tag has been read, and adds its
/// items to `agents`.
pub fn deser_agents(rdr: &mut EventReader<'_>, agents: &mut Vec<Agent>) -> (result: Result<
    (),
    Error,
>)
    ensures
        fills(
            agents_read(old(rdr).pending(), old(agents).deep_view()),
            result,
            final(agents).deep_view(),
            final(rdr).pending(),
        ),
{
    loop
        invariant
            agents_read(old(rdr).pending(), old(agents).deep_view()) == agents_read(
                rdr.pending(),
                agents.deep_view(),
            ),
        decreases rdr.pending().len(),
    {
        match rdr.next_event() {
            None => {
                return Err(out_of_place("agents"));
            },
            Some(XmlEvent::Start { name, attrs }) => {
                if !same_text(name.as_str(), "agent") {
                    return Err(unexpected_element(name.as_str(), "agents"));
                }
                proof {
                    lemma_agent_read_rest(attrs.deep_view(), rdr.pending());
                }
                match deser_agent(&attrs, rdr) {
                    Ok(agent) => {
                        let ghost before = agents.deep_view();
                        agents.push(agent);
                        proof {
                            assert(agents.deep_view() =~= before.push(agent.deep_view()));
                        }
                    },
                    Err(e) => {
                        return Err(e);
                    },
                }
            },
            Some(XmlEvent::End { name }) => {
                if same_text(name.as_str(), "agents") {
                    return Ok(());
                }
            },
            Some(XmlEvent::Invalid { msg }) => {
                return Err(Error::Stream { msg });
            },
            Some(_) => {
                return Err(out_of_place("agents"));
            },
        }
    }
}

/// The content of an assignee, whose opening tag has been read: an
/// organization and a role, each extracted flat, and an address book, in any
/// order and each where the feed gives one. Any other child is a failure, and
/// so is anything that is no tag.
pub open spec fn assignee_read(evs: Seq<EventView>, assignee: AssigneeView) -> Outcome<AssigneeView>
    decreases evs.len(),
{
    if evs.len() == 0 {
        Outcome::failed(assignee, unexpected(Seq::empty(), "assignee"@), evs)
    } else {
        let rest = evs.drop_first();
        match evs[0] {
            EventView::Start { name, .. } => if name == "orgname"@ || name == "role"@ {
                let field = flat_text(rest, name, None);
                if field.fault is Some {
                    Outcome { value: assignee, fault: field.fault, rest: field.rest }
                } else {
                    proof {
                        lemma_flat_text_rest(rest, name, None);
                    }
                    assignee_read(
                        field.rest,
                        if name == "orgname"@ {
                            AssigneeView { orgname: Some(field.value), ..assignee }
                        } else {
                            AssigneeView { role: Some(field.value), ..assignee }
                        },
                    )
                }
            } else if name == "addressbook"@ {
                let book = addressbook_from_read(rest, assignee.addressbook);
                if book.fault is Some {
                    Outcome {
                        value: AssigneeView { addressbook: book.value, ..assignee },
                        fault: book.fault,
                        rest: book.rest,
                    }
                } else {
                    proof {
                        lemma_addressbook_from_read_rest(rest, assignee.addressbook);
                    }
                    assignee_read(book.rest, AssigneeView { addressbook: book.value, ..assignee })
                }
            } else {
                Outcome::failed(assignee, unexpected(name, "assignee"@), rest)
            },
            EventView::End { name } => if name == "assignee"@ {
                Outcome::done(assignee, rest)
            } else {
                assignee_read(rest, assignee)
            },
            EventView::Invalid { msg } => Outcome::failed(
                assignee,
                ErrorView::Stream { msg },
                rest,
            ),
            _ => Outcome::failed(assignee, unexpected(Seq::empty(), "assignee"@), rest),
        }
    }
}

/// Reading an assignee consumes events and makes none.
pub proof fn lemma_assignee_read_rest(evs: Seq<EventView>, assignee: AssigneeView)
    ensures
        assignee_read(evs, assignee).rest.len() <= evs.len(),
    decreases evs.len(),
{
    if evs.len() > 0 {
        let rest = evs.drop_first();
        lemma_assignee_read_rest(rest, assignee);
        match evs[0] {
            EventView::Start { name, .. } => {
                lemma_flat_text_rest(rest, name, None);
                lemma_addressbook_from_read_rest(rest, assignee.addressbook);
                let field = flat_text(rest, name, None);
                lemma_assignee_read_rest(
                    field.rest,
                    AssigneeView { orgname: Some(field.value), ..assignee },
                );
                lemma_assignee_read_rest(
                    field.rest,
                    AssigneeView { role: Some(field.value), ..assignee },
                );
                let book = addressbook_from_read(rest, assignee.addressbook);
                lemma_assignee_read_rest(
                    book.rest,
                    AssigneeView { addressbook: book.value, ..assignee },
                );
            },
            _ => {},
        }
    }
}

/// Reads the content of an assignee, whose opening tag has been read.
pub fn deser_assignee(rdr: &mut EventReader<'_>, assignee: &mut Assignee) -> (result: Result<
    (),
    Error,
>)
    ensures
        fills(
            assignee_read(old(rdr).pending(), old(assignee).deep_view()),
            result,
            final(assignee).deep_view(),
            final(rdr).pending(),
        ),
{
    loop
        invariant
            assignee_read(old(rdr).pending(), old(assignee).deep_view()) == assignee_read(
                rdr.pending(),
                assignee.deep_view(),
            ),
        decreases rdr.pending().len(),
    {
        match rdr.next_event() {
            None => {
                return Err(out_of_place("assignee"));
            },
            Some(XmlEvent::Start { name, attrs }) => {
                proof {
                    lemma_flat_text_rest(rdr.pending(), name@, None);
                    lemma_addressbook_from_read_rest(
                        rdr.pending(),
                        assignee.addressbook.deep_view(),
                    );
                }
                if same_text(name.as_str(), "orgname") {
                    match deser_text_from(name.as_str(), rdr) {
                        Ok(text) => {
                            assignee.orgname = Some(text);
                        },
                        Err(e) => {
                            return Err(e);
                        },
                    }
                } else if same_text(name.as_str(), "role") {
                    match deser_text_from(name.as_str(), rdr) {
                        Ok(text) => {
                            assignee.role = Some(text);
                        },
                        Err(e) => {
                            return Err(e);
                        },
                    }
                } else if same_text(name.as_str(), "addressbook") {
                    match deser_addressbook_from(rdr, &mut assignee.addressbook) {
                        Ok(()) => {},
                        Err(e) => {
                            return Err(e);
                        },
                    }
                } else {
                    return Err(unexpected_element(name.as_str(), "assignee"));
                }
            },
            Some(XmlEvent::End { name }) => {
                if same_text(name.as_str(), "assignee") {
                    return Ok(());
                }
            },
            Some(XmlEvent::Invalid { msg }) => {
                return Err(Error::Stream { msg });
            },
            Some(_) => {
                return Err(out_of_place("assignee"));
            },
        }
    }
}

/// The list `assignees`, whose opening tag has been read: its `assignee`
/// elements in the order of the feed, added to `list`, up to the closing tag
/// of the list. A list without any is empty. Any other element is a failure,
/// and so is anything that is no tag.
pub open spec fn assignees_read(evs: Seq<EventView>, list: Seq<AssigneeView>) -> Outcome<
    Seq<AssigneeView>,
>
    decreases evs.len(),
{
    if evs.len() == 0 {
        Outcome::failed(list, unexpected(Seq::empty(), "assignees"@), evs)
    } else {
        let rest = evs.drop_first();
        match evs[0] {
            EventView::Start { name, .. } => if name == "assignee"@ {
                let one = assignee_read(rest, AssigneeView::empty());
                if one.fault is Some {
                    Outcome { value: list, fault: one.fault, rest: one.rest }
                } else {
                    proof {
                        lemma_assignee_read_rest(rest, AssigneeView::empty());
                    }
                    assignees_read(one.rest, list.push(one.value))
                }
            } else {
                Outcome::failed(list, unexpected(name, "assignees"@), rest)
            },
            EventView::End { name } => if name == "assignees"@ {
                Outcome::done(list, rest)
            } else {
                assignees_read(rest, list)
            },
            EventView::Invalid { msg } => Outcome::failed(list, ErrorView::Stream { msg }, rest),
            _ => Outcome::failed(list, unexpected(Seq::empty(), "assignees"@), rest),
        }
    }
}

/// Reading the list `assignees` consumes events and makes none.
pub proof fn lemma_assignees_read_rest(evs: Seq<EventView>, list: Seq<AssigneeView>)
    ensures
        assignees_read(evs, list).rest.len() <= evs.len(),
    decreases evs.len(),
{
    if evs.len() > 0 {
        let rest = evs.drop_first();
        lemma_assignees_read_rest(rest, list);
        lemma_assignee_read_rest(rest, AssigneeView::empty());
        let one = assignee_read(rest, AssigneeView::empty());
        lemma_assignees_read_rest(one.rest, list.push(one.value));
    }
}

/// Reads the list `assignees`, whose opening tag has been read, and adds its
/// items to `assignees`.
pub fn deser_assignees(rdr: &mut EventReader<'_>, assignees: &mut Vec<Assignee>) -> (result: Result<
    (),
    Error,
>)
    ensures
        fills(
            assignees_read(old(rdr).pending(), old(assignees).deep_view()),
            result,
            final(assignees).deep_view(),
            final(rdr).pending(),
        ),
{
    loop
        invariant
            assignees_read(old(rdr).pending(), old(assignees).deep_view()) == assignees_read(
                rdr.pending(),
                assignees.deep_view(),
            ),
        decreases rdr.pending().len(),
    {
        match rdr.next_event() {
            None => {
                return Err(out_of_place("assignees"));
            },
            Some(XmlEvent::Start { name, attrs }) => {
                if !same_text(name.as_str(), "assignee") {
                    return Err(unexpected_element(name.as_str(), "assignees"));
                }
                proof {
                    lemma_assignee_read_rest(rdr.pending(), AssigneeView::empty());
                }
                let mut assignee = Assignee::default();
                match deser_assignee(rdr, &mut assignee) {
                    Ok(()) => {
                        let ghost before = assignees.deep_view();
                        assignees.push(assignee);
                        proof {
                            assert(assignees.deep_view() =~= before.push(assignee.deep_view()));
                        }
                    },
                    Err(e) => {
                        return Err(e);
                    },
                }
            },
            Some(XmlEvent::End { name }) => {
                if same_text(name.as_str(), "assignees") {
                    return Ok(());
                }
            },
            Some(XmlEvent::Invalid { msg }) => {
                return Err(Error::Stream { msg });
            },
            Some(_) => {
                return Err(out_of_place("assignees"));
            },
        }
    }
}

/// The examiners, whose opening tag has been read: a primary examiner and,
/// where the feed gives one, an assistant examiner, each with first and last
/// name and a department where the feed gives one. Any other element is a
/// failure, and so is anything that is no tag.
pub open spec fn examiners_read(evs: Seq<EventView>, examiners: ExaminersView) -> Outcome<
    ExaminersView,
>
    decreases evs.len(),
{
    if evs.len() == 0 {
        Outcome::failed(examiners, unexpected(Seq::empty(), "examiners"@), evs)
    } else {
        let rest = evs.drop_first();
        match evs[0] {
            EventView::Start { name, .. } => if name == "primary-examiner"@ {
                let one = examiner_read(rest, name, examiners.primary_examiner);
                if one.fault is Some {
                    Outcome { value: examiners, fault: one.fault, rest: one.rest }
                } else {
                    proof {
                        lemma_record_read_rest(rest, name, examiner_names(), 2);
                    }
                    examiners_read(
                        one.rest,
                        ExaminersView { primary_examiner: one.value, ..examiners },
                    )
                }
            } else if name == "assistant-examiner"@ {
                let one = examiner_read(rest, name, examiners.assistant_examiner);
                if one.fault is Some {
                    Outcome { value: examiners, fault: one.fault, rest: one.rest }
                } else {
                    proof {
                        lemma_record_read_rest(rest, name, examiner_names(), 2);
                    }
                    examiners_read(
                        one.rest,
                        ExaminersView { assistant_examiner: one.value, ..examiners },
                    )
                }
            } else {
                Outcome::failed(examiners, unexpected(name, "examiners"@), rest)
            },
            EventView::End { name } => if name == "examiners"@ {
                Outcome::done(examiners, rest)
            } else {
                examiners_read(rest, examiners)
            },
            EventView::Invalid { msg } => Outcome::failed(
                examiners,
                ErrorView::Stream { msg },
                rest,
            ),
            _ => Outcome::failed(examiners, unexpected(Seq::empty(), "examiners"@), rest),
        }
    }
}

/// Reading the examiners consumes events and makes none.
pub proof fn lemma_examiners_read_rest(evs: Seq<EventView>, examiners: ExaminersView)
    ensures
        examiners_read(evs, examiners).rest.len() <= evs.len(),
    decreases evs.len(),
{
    if evs.len() > 0 {
        let rest = evs.drop_first();
        lemma_examiners_read_rest(rest, examiners);
        match evs[0] {
            EventView::Start { name, .. } => {
                lemma_record_read_rest(rest, name, examiner_names(), 2);
                let primary = examiner_read(rest, name, examiners.primary_examiner);
                lemma_examiners_read_rest(
                    primary.rest,
                    ExaminersView { primary_examiner: primary.value, ..examiners },
                );
                let assistant = examiner_read(rest, name, examiners.assistant_examiner);
                lemma_examiners_read_rest(
                    assistant.rest,
                    ExaminersView { assistant_examiner: assistant.value, ..examiners },
                );
            },
            _ => {},
        }
    }
}

/// Reads the examiners, whose opening tag has been read.
pub fn deser_examiners(rdr: &mut EventReader<'_>, examiners: &mut Examiners) -> (result: Result<
    (),
    Error,
>)
    ensures
        fills(
            examiners_read(old(rdr).pending(), old(examiners).deep_view()),
            result,
            final(examiners).deep_view(),
            final(rdr).pending(),
        ),
{
    loop
        invariant
            examiners_read(old(rdr).pending(), old(examiners).deep_view()) == examiners_read(
                rdr.pending(),
                examiners.deep_view(),
            ),
        decreases rdr.pending().len(),
    {
        match rdr.next_event() {
            None => {
                return Err(out_of_place("examiners"));
            },
            Some(XmlEvent::Start { name, attrs }) => {
                proof {
                    lemma_record_read_rest(rdr.pending(), name@, examiner_names(), 2);
                }
                if same_text(name.as_str(), "primary-examiner") {
                    match deser_examiner(rdr, name.as_str(), &mut examiners.primary_examiner) {
                        Ok(()) => {},
                        Err(e) => {
                            return Err(e);
                        },
                    }
                } else if same_text(name.as_str(), "assistant-examiner") {
                    match deser_examiner(rdr, name.as_str(), &mut examiners.assistant_examiner) {
                        Ok(()) => {},
                        Err(e) => {
                            return Err(e);
                        },
                    }
                } else {
                    return Err(unexpected_element(name.as_str(), "examiners"));
                }
            },
            Some(XmlEvent::End { name }) => {
                if same_text(name.as_str(), "examiners") {
                    return Ok(());
                }
            },
            Some(XmlEvent::Invalid { msg }) => {
                return Err(Error::Stream { msg });
            },
            Some(_) => {
                return Err(out_of_place("examiners"));
            },
        }
    }
}

/// A list `us-applicants` without items is the empty list and no failure: where the
/// list closes at once, nothing is added and reading goes on after the
/// closing tag.
pub proof fn lemma_applicants_none(tail: Seq<EventView>, list: Seq<UsApplicantView>)
    ensures
        applicants_read(seq![EventView::End { name: "us-applicants"@ }] + tail, list)
            == Outcome::done(list, tail),
{
    let evs = seq![EventView::End { name: "us-applicants"@ }] + tail;
    assert(evs.drop_first() =~= tail);
}

/// A list `inventors` without items is the empty list and no failure: where the
/// list closes at once, nothing is added and reading goes on after the
/// closing tag.
pub proof fn lemma_inventors_none(tail: Seq<EventView>, list: Seq<InventorView>)
    ensures
        inventors_read(seq![EventView::End { name: "inventors"@ }] + tail, list) == Outcome::done(
            list,
            tail,
        ),
{
    let evs = seq![EventView::End { name: "inventors"@ }] + tail;
    assert(evs.drop_first() =~= tail);
}

/// A list `agents` without items is the empty list and no failure: where the
/// list closes at once, nothing is added and reading goes on after the
/// closing tag.
pub proof fn lemma_agents_none(tail: Seq<EventView>, list: Seq<AgentView>)
    ensures
        agents_read(seq![EventView::End { name: "agents"@ }] + tail, list) == Outcome::done(
            list,
            tail,
        ),
{
    let evs = seq![EventView::End { name: "agents"@ }] + tail;
    assert(evs.drop_first() =~= tail);
}

/// A list `assignees` without items is the empty list and no failure: where the
/// list closes at once, nothing is added and reading goes on after the
/// closing tag.
pub proof fn lemma_assignees_none(tail: Seq<EventView>, list: Seq<AssigneeView>)
    ensures
        assignees_read(seq![EventView::End { name: "assignees"@ }] + tail, list) == Outcome::done(
            list,
            tail,
        ),
{
    let evs = seq![EventView::End { name: "assignees"@ }] + tail;
    assert(evs.drop_first() =~= tail);
}

/// An applicant's residence is there exactly where the feed gives one: a
/// `residence` element with a country gives that country, and an applicant
/// whose element closes without one has none.
pub proof fn lemma_residence_present_or_absent(country: Seq<char>, tail: Seq<EventView>)
    ensures
        residence_read(
            seq![
                EventView::Start { name: "residence"@, attrs: Seq::empty() },
                EventView::Start { name: "country"@, attrs: Seq::empty() },
                EventView::Text { text: Some(country) },
                EventView::End { name: "country"@ },
            ] + tail,
        ) == Outcome::done(Some(country), tail),
        residence_read(seq![EventView::End { name: "us-applicant"@ }] + tail) == Outcome::done(
            None::<Seq<char>>,
            tail,
        ),
{
    let present = seq![
        EventView::Start { name: "residence"@, attrs: Seq::empty() },
        EventView::Start { name: "country"@, attrs: Seq::empty() },
        EventView::Text { text: Some(country) },
        EventView::End { name: "country"@ },
    ] + tail;
    let one = present.drop_first();
    let two = one.drop_first();
    let three = two.drop_first();
    assert(three.drop_first() =~= tail);
    assert(flat_text(three, "country"@, Some(country)) == Outcome::done(country, tail));
    assert(flat_text(two, "country"@, None) == Outcome::done(country, tail));
    assert(named_text(one, "country"@) == Outcome::done(country, tail));
    let absent = seq![EventView::End { name: "us-applicant"@ }] + tail;
    assert(absent.drop_first() =~= tail);
}

/// The list `us-applicants` is kept in the order of the document: its items are
/// added behind the items read before, which stay as they are and in their
/// order; what is added does not depend on them.
pub proof fn lemma_applicants_are_appended(evs: Seq<EventView>, list: Seq<UsApplicantView>)
    ensures
        applicants_read(evs, list) == (Outcome {
            value: list + applicants_read(evs, Seq::empty()).value,
            ..applicants_read(evs, Seq::empty())
        }),
    decreases evs.len(),
{
    let none = Seq::<UsApplicantView>::empty();
    assert(list + none =~= list);
    if evs.len() > 0 {
        let rest = evs.drop_first();
        match evs[0] {
            EventView::Start { name, attrs } => {
                let one = applicant_read(attrs, rest);
                if name == "us-applicant"@ && one.fault is None {
                    lemma_applicant_read_rest(attrs, rest);
                    lemma_applicants_are_appended(one.rest, list.push(one.value));
                    lemma_applicants_are_appended(one.rest, none.push(one.value));
                    let more = applicants_read(one.rest, Seq::empty()).value;
                    assert(list.push(one.value) + more =~= list + (none.push(one.value) + more));
                }
            },
            EventView::End { name } => {
                if name != "us-applicants"@ {
                    lemma_applicants_are_appended(rest, list);
                }
            },
            _ => {},
        }
    }
}

/// The list `inventors` is kept in the order of the document: its items are
/// added behind the items read before, which stay as they are and in their
/// order; what is added does not depend on them.
pub proof fn lemma_inventors_are_appended(evs: Seq<EventView>, list: Seq<InventorView>)
    ensures
        inventors_read(evs, list) == (Outcome {
            value: list + inventors_read(evs, Seq::empty()).value,
            ..inventors_read(evs, Seq::empty())
        }),
    decreases evs.len(),
{
    let none = Seq::<InventorView>::empty();
    assert(list + none =~= list);
    if evs.len() > 0 {
        let rest = evs.drop_first();
        match evs[0] {
            EventView::Start { name, attrs } => {
                let one = inventor_read(attrs, rest);
                if name == "inventor"@ && one.fault is None {
                    lemma_inventor_read_rest(attrs, rest);
                    lemma_inventors_are_appended(one.rest, list.push(one.value));
                    lemma_inventors_are_appended(one.rest, none.push(one.value));
                    let more = inventors_read(one.rest, Seq::empty()).value;
                    assert(list.push(one.value) + more =~= list + (none.push(one.value) + more));
                }
            },
            EventView::End { name } => {
                if name != "inventors"@ {
                    lemma_inventors_are_appended(rest, list);
                }
            },
            _ => {},
        }
    }
}

/// The list `agents` is kept in the order of the document: its items are
/// added behind the items read before, which stay as they are and in their
/// order; what is added does not depend on them.
pub proof fn lemma_agents_are_appended(evs: Seq<EventView>, list: Seq<AgentView>)
    ensures
        agents_read(evs, list) == (Outcome {
            value: list + agents_read(evs, Seq::empty()).value,
            ..agents_read(evs, Seq::empty())
        }),
    decreases evs.len(),
{
    let none = Seq::<AgentView>::empty();
    assert(list + none =~= list);
    if evs.len() > 0 {
        let rest = evs.drop_first();
        match evs[0] {
            EventView::Start { name, attrs } => {
                let one = agent_read(attrs, rest);
                if name == "agent"@ && one.fault is None {
                    lemma_agent_read_rest(attrs, rest);
                    lemma_agents_are_appended(one.rest, list.push(one.value));
                    lemma_agents_are_appended(one.rest, none.push(one.value));
                    let more = agents_read(one.rest, Seq::empty()).value;
                    assert(list.push(one.value) + more =~= list + (none.push(one.value) + more));
                }
            },
            EventView::End { name } => {
                if name != "agents"@ {
                    lemma_agents_are_appended(rest, list);
                }
            },
            _ => {},
        }
    }
}

/// The list `assignees` is kept in the order of the document: its items are
/// added behind the items read before, which stay as they are and in their
/// order; what is added does not depend on them.
pub proof fn lemma_assignees_are_appended(evs: Seq<EventView>, list: Seq<AssigneeView>)
    ensures
        assignees_read(evs, list) == (Outcome {
            value: list + assignees_read(evs, Seq::empty()).value,
            ..assignees_read(evs, Seq::empty())
        }),
    decreases evs.len(),
{
    let none = Seq::<AssigneeView>::empty();
    assert(list + none =~= list);
    if evs.len() > 0 {
        let rest = evs.drop_first();
        match evs[0] {
            EventView::Start { name, .. } => {
                let one = assignee_read(rest, AssigneeView::empty());
                if name == "assignee"@ && one.fault is None {
                    lemma_assignee_read_rest(rest, AssigneeView::empty());
                    lemma_assignees_are_appended(one.rest, list.push(one.value));
                    lemma_assignees_are_appended(one.rest, none.push(one.value));
                    let more = assignees_read(one.rest, Seq::empty()).value;
                    assert(list.push(one.value) + more =~= list + (none.push(one.value) + more));
                }
            },
            EventView::End { name } => {
                if name != "assignees"@ {
                    lemma_assignees_are_appended(rest, list);
                }
            },
            _ => {},
        }
    }
}

} // verus!
