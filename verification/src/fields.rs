//! Records that are a flat group of text fields: each child element of the
//! record's element is one field, named by its tag.

use vstd::prelude::*;
use crate::data::{
    Address, AddressView, ClassificationLocarno, ClassificationLocarnoView,
    ClassificationNational, ClassificationNationalView, DocumentId, DocumentIdView, Examiner,
    ExaminerView,
};
use crate::error::{Error, ErrorView};
use crate::event::{EventView, XmlEvent};
use crate::parse::{fills, gives, out_of_place, unexpected, unexpected_element, Outcome};
use crate::reader::EventReader;
use crate::strings::same_text;
use crate::text::{deser_text_from, flat_text, lemma_flat_text_rest};
use crate::util::{consume_start, start_consumed};

verus! {

/// The values of a group of fields, by the field's place in the list of
/// names; `None` for a field that was not met.
pub type FieldValues = Seq<Option<Seq<char>>>;

/// `i` is the first place at which `names` holds `name`.
pub open spec fn is_first(names: Seq<Seq<char>>, name: Seq<char>, i: int) -> bool {
    &&& 0 <= i < names.len()
    &&& names[i] == name
    &&& forall|j: int| 0 <= j < i ==> names[j] != name
}

/// The first place at which `names` holds `name`.
pub open spec fn position(names: Seq<Seq<char>>, name: Seq<char>) -> Option<int> {
    if exists|i: int| is_first(names, name, i) {
        Some(choose|i: int| is_first(names, name, i))
    } else {
        None
    }
}

/// No field met yet.
pub open spec fn blank(n: nat) -> FieldValues {
    Seq::new(n, |i: int| None)
}

/// The first `required` fields are there.
pub open spec fn complete(seen: FieldValues, required: nat) -> bool {
    forall|i: int| 0 <= i < required && i < seen.len() ==> seen[i] is Some
}

/// A field's new value: what was read, or else what it held before.
pub open spec fn or_kept(read: Option<Seq<char>>, kept: Option<Seq<char>>) -> Option<Seq<char>> {
    if read is Some {
        read
    } else {
        kept
    }
}

/// The fields of `element`, whose opening tag has been read. Each child
/// element named in `names` is extracted flat and becomes the value of its
/// field, a later one replacing an earlier one; a child of another name is a
/// failure. The closing tag of `element` ends the group, and so does the end
/// of input or any event that is no tag, which is consumed.
pub open spec fn fields_read(
    evs: Seq<EventView>,
    element: Seq<char>,
    names: Seq<Seq<char>>,
    seen: FieldValues,
) -> Outcome<FieldValues>
    recommends
        seen.len() == names.len(),
    decreases evs.len(),
{
    if evs.len() == 0 {
        Outcome::done(seen, evs)
    } else {
        let rest = evs.drop_first();
        match evs[0] {
            EventView::Start { name, .. } => match position(names, name) {
                Some(i) => {
                    let field = flat_text(rest, name, None);
                    if field.fault is Some {
                        Outcome { value: seen, fault: field.fault, rest: field.rest }
                    } else {
                        proof {
                            lemma_flat_text_rest(rest, name, None);
                        }
                        fields_read(field.rest, element, names, seen.update(i, Some(field.value)))
                    }
                },
                None => Outcome::failed(seen, unexpected(name, element), rest),
            },
            EventView::End { name } => if name == element {
                Outcome::done(seen, rest)
            } else {
                fields_read(rest, element, names, seen)
            },
            EventView::Invalid { msg } => Outcome::failed(seen, ErrorView::Stream { msg }, rest),
            _ => Outcome::done(seen, rest),
        }
    }
}

/// The fields of `element` with the first `required` of them compulsory: a
/// group that ends without one of these is a failure.
pub open spec fn record_read(
    evs: Seq<EventView>,
    element: Seq<char>,
    names: Seq<Seq<char>>,
    required: nat,
) -> Outcome<FieldValues> {
    let group = fields_read(evs, element, names, blank(names.len()));
    if group.fault is None && !complete(group.value, required) {
        Outcome::failed(group.value, unexpected(Seq::empty(), element), group.rest)
    } else {
        group
    }
}

/// Reading a group of fields consumes events and makes none.
pub proof fn lemma_fields_read_rest(
    evs: Seq<EventView>,
    element: Seq<char>,
    names: Seq<Seq<char>>,
    seen: FieldValues,
)
    requires
        seen.len() == names.len(),
    ensures
        fields_read(evs, element, names, seen).rest.len() <= evs.len(),
        fields_read(evs, element, names, seen).value.len() == seen.len(),
    decreases evs.len(),
{
    if evs.len() > 0 {
        let rest = evs.drop_first();
        lemma_fields_read_rest(rest, element, names, seen);
        match evs[0] {
            EventView::Start { name, .. } => {
                lemma_flat_text_rest(rest, name, None);
                let field = flat_text(rest, name, None);
                match position(names, name) {
                    Some(i) => {
                        if field.fault is None {
                            lemma_fields_read_rest(
                                field.rest,
                                element,
                                names,
                                seen.update(i, Some(field.value)),
                            );
                        }
                    },
                    None => {},
                }
            },
            _ => {},
        }
    }
}

/// Reading a record consumes events and makes none.
pub proof fn lemma_record_read_rest(
    evs: Seq<EventView>,
    element: Seq<char>,
    names: Seq<Seq<char>>,
    required: nat,
)
    ensures
        record_read(evs, element, names, required).rest.len() <= evs.len(),
        record_read(evs, element, names, required).value.len() == names.len(),
{
    lemma_fields_read_rest(evs, element, names, blank(names.len()));
}

/// Finds the first place at which `names` holds `name`.
pub fn find_name(names: &Vec<&str>, name: &str) -> (place: Option<usize>)
    ensures
        match place {
            Some(i) => i < names.len() && position(names.deep_view(), name@) == Some(i as int),
            None => position(names.deep_view(), name@) is None,
        },
{
    let mut i: usize = 0;
    while i < names.len()
        invariant
            i <= names.len(),
            forall|j: int| 0 <= j < i ==> names.deep_view()[j] != name@,
        decreases names.len() - i,
    {
        if same_text(names[i], name) {
            proof {
                assert(is_first(names.deep_view(), name@, i as int));
                let k = choose|k: int| is_first(names.deep_view(), name@, k);
                assert(k == i) by {
                    if k < i {
                        assert(names.deep_view()[k] != name@);
                    }
                    if i < k {
                        assert(names.deep_view()[i as int] != name@);
                    }
                }
            }
            return Some(i);
        }
        i = i + 1;
    }
    proof {
        assert forall|k: int| !is_first(names.deep_view(), name@, k) by {
            if 0 <= k < names.len() {
                assert(names.deep_view()[k] != name@);
            }
        }
    }
    None
}

/// A list of `n` values, none of them met yet.
pub(crate) fn blank_values(n: usize) -> (values: Vec<Option<String>>)
    ensures
        values.deep_view() == blank(n as nat),
        values.len() == n,
{
    let mut values: Vec<Option<String>> = Vec::new();
    while values.len() < n
        invariant
            values.len() <= n,
            values.deep_view() == blank(values.len() as nat),
        decreases n - values.len(),
    {
        let ghost before = values.deep_view();
        values.push(None);
        proof {
            assert(values.deep_view() =~= before.push(None));
            assert(before.push(None) =~= blank(values.len() as nat));
        }
    }
    values
}

/// Whether the first `required` values are there.
pub(crate) fn all_present(values: &Vec<Option<String>>, required: usize) -> (yes: bool)
    ensures
        yes == complete(values.deep_view(), required as nat),
{
    let mut i: usize = 0;
    while i < values.len() && i < required
        invariant
            i <= values.len(),
            forall|j: int| 0 <= j < i ==> values.deep_view()[j] is Some,
        decreases values.len() - i,
    {
        if values[i].is_none() {
            proof {
                assert(values.deep_view()[i as int] is None);
            }
            return false;
        }
        i = i + 1;
    }
    true
}

/// Reads the fields of `element`, whose opening tag has been read, and
/// returns their values in the order of `names`. The first `required` names
/// are compulsory.
pub fn deser_record(
    rdr: &mut EventReader<'_>,
    element: &str,
    names: &Vec<&str>,
    required: usize,
) -> (result: Result<Vec<Option<String>>, Error>)
    ensures
        gives(
            record_read(old(rdr).pending(), element@, names.deep_view(), required as nat),
            result,
            final(rdr).pending(),
        ),
        result matches Ok(values) ==> values.len() == names.len(),
{
    let mut seen = blank_values(names.len());
    let mut open = true;
    while open
        invariant
            seen.len() == names.len(),
            open ==> fields_read(
                old(rdr).pending(),
                element@,
                names.deep_view(),
                blank(names.len() as nat),
            ) == fields_read(rdr.pending(), element@, names.deep_view(), seen.deep_view()),
            !open ==> fields_read(
                old(rdr).pending(),
                element@,
                names.deep_view(),
                blank(names.len() as nat),
            ) == Outcome::done(seen.deep_view(), rdr.pending()),
        decreases rdr.pending().len(), if open { 1nat } else { 0nat },
    {
        match rdr.next_event() {
            Some(XmlEvent::Start { name, attrs }) => {
                match find_name(names, name.as_str()) {
                    Some(i) => {
                        proof {
                            lemma_flat_text_rest(rdr.pending(), name@, None);
                        }
                        match deser_text_from(name.as_str(), rdr) {
                            Ok(text) => {
                                let ghost before = seen.deep_view();
                                seen.set(i, Some(text));
                                proof {
                                    assert(seen.deep_view() =~= before.update(
                                        i as int,
                                        Some(text@),
                                    ));
                                }
                            },
                            Err(e) => {
                                return Err(e);
                            },
                        }
                    },
                    None => {
                        return Err(unexpected_element(name.as_str(), element));
                    },
                }
            },
            Some(XmlEvent::End { name }) => {
                if same_text(name.as_str(), element) {
                    open = false;
                }
            },
            Some(XmlEvent::Invalid { msg }) => {
                return Err(Error::Stream { msg });
            },
            _ => {
                open = false;
            },
        }
    }
    if all_present(&seen, required) {
        Ok(seen)
    } else {
        Err(out_of_place(element))
    }
}

/// Takes the last value off a list of field values.
pub(crate) fn take_last(values: &mut Vec<Option<String>>) -> (value: Option<String>)
    requires
        old(values).len() > 0,
    ensures
        value.deep_view() == old(values).deep_view().last(),
        final(values).deep_view() == old(values).deep_view().drop_last(),
        final(values).len() == old(values).len() - 1,
{
    let ghost before = values.deep_view();
    let last = values.pop();
    proof {
        assert(values.deep_view() =~= before.drop_last());
    }
    match last {
        Some(value) => value,
        None => None,
    }
}

/// A compulsory field's text.
pub(crate) fn text_of(value: Option<String>) -> (text: String)
    requires
        value is Some,
    ensures
        Some(text@) == value.deep_view(),
{
    match value {
        Some(text) => text,
        None => String::new(),
    }
}

/// Sets an optional field to what was read, if anything was.
pub(crate) fn keep_or_set(field: &mut Option<String>, read: Option<String>)
    ensures
        final(field).deep_view() == or_kept(read.deep_view(), old(field).deep_view()),
{
    if read.is_some() {
        *field = read;
    }
}

/// The names of a document identifier's fields, compulsory ones first.
pub open spec fn doc_id_names() -> Seq<Seq<char>> {
    seq!["country"@, "doc-number"@, "date"@, "kind"@]
}

/// A document identifier: the `document-id` element, which comes next, with
/// country, number and date, and a kind where the feed gives one. Where
/// reading fails the record stays as it was.
pub open spec fn doc_id_read(evs: Seq<EventView>, kept: DocumentIdView) -> Outcome<DocumentIdView> {
    let opened = start_consumed(evs, "document-id"@);
    if opened.fault is Some {
        Outcome { value: kept, fault: opened.fault, rest: opened.rest }
    } else {
        let group = record_read(opened.rest, "document-id"@, doc_id_names(), 3);
        Outcome {
            value: if group.fault is Some {
                kept
            } else {
                DocumentIdView {
                    country: group.value[0]->0,
                    doc_number: group.value[1]->0,
                    date: group.value[2]->0,
                    kind: or_kept(group.value[3], kept.kind),
                }
            },
            fault: group.fault,
            rest: group.rest,
        }
    }
}

/// The names of a Locarno classification's fields.
pub open spec fn locarno_names() -> Seq<Seq<char>> {
    seq!["edition"@, "main-classification"@]
}

/// A Locarno classification, whose opening tag has been read: edition and
/// main class, both compulsory. Where reading fails the record stays as it
/// was.
pub open spec fn locarno_read(
    evs: Seq<EventView>,
    kept: ClassificationLocarnoView,
) -> Outcome<ClassificationLocarnoView> {
    let group = record_read(evs, "classification-locarno"@, locarno_names(), 2);
    Outcome {
        value: if group.fault is Some {
            kept
        } else {
            ClassificationLocarnoView {
                edition: group.value[0]->0,
                main_classification: group.value[1]->0,
            }
        },
        fault: group.fault,
        rest: group.rest,
    }
}

/// The names of a national classification's fields, compulsory ones first.
pub open spec fn national_names() -> Seq<Seq<char>> {
    seq!["country"@, "additional-info"@, "main-classification"@, "further-classification"@]
}

/// A national classification, whose opening tag has been read: country,
/// additional information and main class, and a further class where the feed
/// gives one. Where reading fails the record stays as it was.
pub open spec fn national_read(
    evs: Seq<EventView>,
    kept: ClassificationNationalView,
) -> Outcome<ClassificationNationalView> {
    let group = record_read(evs, "classification-national"@, national_names(), 3);
    Outcome {
        value: if group.fault is Some {
            kept
        } else {
            ClassificationNationalView {
                country: group.value[0]->0,
                additional_info: group.value[1]->0,
                main_classification: group.value[2]->0,
                further_classification: or_kept(group.value[3], kept.further_classification),
            }
        },
        fault: group.fault,
        rest: group.rest,
    }
}

/// The names of an address's fields.
pub open spec fn address_names() -> Seq<Seq<char>> {
    seq!["city"@, "state"@, "country"@]
}

/// An address, whose opening tag has been read: city, state and country,
/// each where the feed gives one.
pub open spec fn address_read(evs: Seq<EventView>, kept: AddressView) -> Outcome<AddressView> {
    let group = record_read(evs, "address"@, address_names(), 0);
    Outcome {
        value: if group.fault is Some {
            kept
        } else {
            AddressView {
                city: or_kept(group.value[0], kept.city),
                state: or_kept(group.value[1], kept.state),
                country: or_kept(group.value[2], kept.country),
            }
        },
        fault: group.fault,
        rest: group.rest,
    }
}

/// The names of an examiner's fields, compulsory ones first.
pub open spec fn examiner_names() -> Seq<Seq<char>> {
    seq!["first-name"@, "last-name"@, "department"@]
}

/// An examiner, in the element `element` whose opening tag has been read:
/// first and last name, and a department where the feed gives one. Where
/// reading fails the record stays as it was.
pub open spec fn examiner_read(
    evs: Seq<EventView>,
    element: Seq<char>,
    kept: ExaminerView,
) -> Outcome<ExaminerView> {
    let group = record_read(evs, element, examiner_names(), 2);
    Outcome {
        value: if group.fault is Some {
            kept
        } else {
            ExaminerView {
                first_name: group.value[0]->0,
                last_name: group.value[1]->0,
                department: or_kept(group.value[2], kept.department),
            }
        },
        fault: group.fault,
        rest: group.rest,
    }
}

/// Reads a document identifier; the `document-id` element comes next.
pub fn deser_doc_id(rdr: &mut EventReader<'_>, doc_id: &mut DocumentId) -> (result: Result<
    (),
    Error,
>)
    ensures
        fills(
            doc_id_read(old(rdr).pending(), old(doc_id).deep_view()),
            result,
            final(doc_id).deep_view(),
            final(rdr).pending(),
        ),
{
    match consume_start(rdr, "document-id") {
        Ok(()) => {},
        Err(e) => {
            return Err(e);
        },
    }
    let names = vec!["country", "doc-number", "date", "kind"];
    proof {
        assert(names.deep_view() =~= doc_id_names());
        lemma_record_read_rest(rdr.pending(), "document-id"@, doc_id_names(), 3);
    }
    match deser_record(rdr, "document-id", &names, 3) {
        Ok(values) => {
            let mut values = values;
            let kind = take_last(&mut values);
            let date = take_last(&mut values);
            let doc_number = take_last(&mut values);
            let country = take_last(&mut values);
            doc_id.country = text_of(country);
            doc_id.doc_number = text_of(doc_number);
            doc_id.date = text_of(date);
            keep_or_set(&mut doc_id.kind, kind);
            Ok(())
        },
        Err(e) => Err(e),
    }
}

/// Reads a Locarno classification, whose opening tag has been read.
pub fn deser_class_locarno(
    rdr: &mut EventReader<'_>,
    class_locarno: &mut ClassificationLocarno,
) -> (result: Result<(), Error>)
    ensures
        fills(
            locarno_read(old(rdr).pending(), old(class_locarno).deep_view()),
            result,
            final(class_locarno).deep_view(),
            final(rdr).pending(),
        ),
{
    let names = vec!["edition", "main-classification"];
    proof {
        assert(names.deep_view() =~= locarno_names());
        lemma_record_read_rest(rdr.pending(), "classification-locarno"@, locarno_names(), 2);
    }
    match deser_record(rdr, "classification-locarno", &names, 2) {
        Ok(values) => {
            let mut values = values;
            let main_classification = take_last(&mut values);
            let edition = take_last(&mut values);
            class_locarno.edition = text_of(edition);
            class_locarno.main_classification = text_of(main_classification);
            Ok(())
        },
        Err(e) => Err(e),
    }
}

/// Reads a national classification, whose opening tag has been read.
pub fn deser_class_national(
    rdr: &mut EventReader<'_>,
    class_national: &mut ClassificationNational,
) -> (result: Result<(), Error>)
    ensures
        fills(
            national_read(old(rdr).pending(), old(class_national).deep_view()),
            result,
            final(class_national).deep_view(),
            final(rdr).pending(),
        ),
{
    let names = vec!["country", "additional-info", "main-classification", "further-classification"];
    proof {
        assert(names.deep_view() =~= national_names());
        lemma_record_read_rest(rdr.pending(), "classification-national"@, national_names(), 3);
    }
    match deser_record(rdr, "classification-national", &names, 3) {
        Ok(values) => {
            let mut values = values;
            let further_classification = take_last(&mut values);
            let main_classification = take_last(&mut values);
            let additional_info = take_last(&mut values);
            let country = take_last(&mut values);
            class_national.country = text_of(country);
            class_national.additional_info = text_of(additional_info);
            class_national.main_classification = text_of(main_classification);
            keep_or_set(&mut class_national.further_classification, further_classification);
            Ok(())
        },
        Err(e) => Err(e),
    }
}

/// Reads an address, whose opening tag has been read.
pub fn deser_address(rdr: &mut EventReader<'_>, address: &mut Address)-> (result: Result<(), Error>)
    ensures
        fills(
            address_read(old(rdr).pending(), old(address).deep_view()),
            result,
            final(address).deep_view(),
            final(rdr).pending(),
        ),
{
    let names = vec!["city", "state", "country"];
    proof {
        assert(names.deep_view() =~= address_names());
        lemma_record_read_rest(rdr.pending(), "address"@, address_names(), 0);
    }
    match deser_record(rdr, "address", &names, 0) {
        Ok(values) => {
            let mut values = values;
            let country = take_last(&mut values);
            let state = take_last(&mut values);
            let city = take_last(&mut values);
            keep_or_set(&mut address.city, city);
            keep_or_set(&mut address.state, state);
            keep_or_set(&mut address.country, country);
            Ok(())
        },
        Err(e) => Err(e),
    }
}

/// Reads an examiner, in the element `element` whose opening tag has been read.
pub fn deser_examiner(
    rdr: &mut EventReader<'_>,
    element: &str,
    examiner: &mut Examiner,
) -> (result: Result<(), Error>)
    ensures
        fills(
            examiner_read(old(rdr).pending(), element@, old(examiner).deep_view()),
            result,
            final(examiner).deep_view(),
            final(rdr).pending(),
        ),
{
    let names = vec!["first-name", "last-name", "department"];
    proof {
        assert(names.deep_view() =~= examiner_names());
        lemma_record_read_rest(rdr.pending(), element@, examiner_names(), 2);
    }
    match deser_record(rdr, element, &names, 2) {
        Ok(values) => {
            let mut values = values;
            let department = take_last(&mut values);
            let last_name = take_last(&mut values);
            let first_name = take_last(&mut values);
            examiner.first_name = text_of(first_name);
            examiner.last_name = text_of(last_name);
            keep_or_set(&mut examiner.department, department);
            Ok(())
        },
        Err(e) => Err(e),
    }
}

/// A record is read without failure only where each of its compulsory fields
/// was met.
pub proof fn lemma_record_needs_required_fields(
    evs: Seq<EventView>,
    element: Seq<char>,
    names: Seq<Seq<char>>,
    required: nat,
)
    requires
        required <= names.len(),
    ensures
        record_read(evs, element, names, required).fault is None ==> forall|i: int|
            0 <= i < required ==> (#[trigger] record_read(
                evs,
                element,
                names,
                required,
            ).value[i]) is Some,
{
    lemma_record_read_rest(evs, element, names, required);
}

/// A document identifier needs its country, number and date, and may lack
/// its kind: one that is read without failure has the three, and has a kind
/// only where the feed gave one or the record held one before.
pub proof fn lemma_doc_id_fields(evs: Seq<EventView>, kept: DocumentIdView)
    ensures
        ({
            let out = doc_id_read(evs, kept);
            let group = record_read(
                start_consumed(evs, "document-id"@).rest,
                "document-id"@,
                doc_id_names(),
                3,
            );
            out.fault is None ==> {
                &&& group.value[0] == Some(out.value.country)
                &&& group.value[1] == Some(out.value.doc_number)
                &&& group.value[2] == Some(out.value.date)
                &&& (group.value[3] is None && kept.kind is None ==> out.value.kind is None)
            }
        }),
{
    lemma_record_needs_required_fields(
        start_consumed(evs, "document-id"@).rest,
        "document-id"@,
        doc_id_names(),
        3,
    );
}

/// A document identifier that closes without any field is a failure.
pub proof fn lemma_doc_id_without_fields_fails(tail: Seq<EventView>, kept: DocumentIdView)
    ensures
        doc_id_read(
            seq![
                EventView::Start { name: "document-id"@, attrs: Seq::empty() },
                EventView::End { name: "document-id"@ },
            ] + tail,
            kept,
        ) == Outcome::failed(kept, unexpected(Seq::empty(), "document-id"@), tail),
{
    let evs = seq![
        EventView::Start { name: "document-id"@, attrs: Seq::empty() },
        EventView::End { name: "document-id"@ },
    ] + tail;
    let one = evs.drop_first();
    assert(one.drop_first() =~= tail);
    let group = fields_read(one, "document-id"@, doc_id_names(), blank(4));
    assert(group == Outcome::done(blank(4), tail));
    assert(blank(4)[0] is None);
    assert(!complete(blank(4), 3));
}

} // verus!
