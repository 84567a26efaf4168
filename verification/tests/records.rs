use uspto::biblio::{deser_biblio, deser_field_class_search};
use uspto::data::{
    Address, AddressBook, Agent, Assignee, BibliographicDataGrant, ClassificationLocarno,
    ClassificationNational, DocumentId, Examiner, Examiners, Inventor, PatentGrant, UsApplicant,
    UsFieldOfClassificationSearch,
};
use uspto::event::XmlEvent;
use uspto::fields::{
    deser_address, deser_class_locarno, deser_class_national, deser_doc_id, deser_examiner,
    deser_record, find_name,
};
use uspto::parties::{
    deser_addressbook, deser_agents, deser_assignees, deser_examiners, deser_inventors,
    deser_us_applicants, read_attributes,
};
use uspto::reader::EventReader;
use uspto::{Error, PatentGrants, PatentOutput};

fn some(text: &str) -> Option<String> {
    Some(text.to_string())
}

fn unexpected(found: &str, within: &str) -> Error {
    Error::UnexpectedElement { found: found.to_string(), within: within.to_string() }
}

/// A reader over `markup`, just behind its first tag.
fn inside(markup: &str) -> EventReader<'_> {
    let mut rdr = EventReader::from_bytes(markup.as_bytes());
    assert!(matches!(rdr.next_event(), Some(XmlEvent::Start { .. })));
    rdr
}

const GRANT: &str = r#"<?xml version="1.0" encoding="UTF-8"?>
<!DOCTYPE us-patent-grant SYSTEM "us-patent-grant-v45-2014-04-03.dtd" [ ]>
<us-patent-grant lang="EN" dtd-version="v4.5 2014-04-03" file="USD0839563-20190205.XML">
<us-bibliographic-data-grant>
<publication-reference>
<document-id>
<country>US</country>
<doc-number>D0839563</doc-number>
<kind>S1</kind>
<date>20190205</date>
</document-id>
</publication-reference>
<application-reference appl-type="design">
<document-id>
<country>US</country>
<doc-number>29581359</doc-number>
<date>20161018</date>
</document-id>
</application-reference>
<us-application-series-code>29</us-application-series-code>
<us-term-of-grant>
<length-of-grant>15</length-of-grant>
</us-term-of-grant>
<classifications-ipcr>
<classification-ipcr><section>A</section></classification-ipcr>
</classifications-ipcr>
<classification-locarno>
<edition>11</edition>
<main-classification>0204</main-classification>
</classification-locarno>
<classification-national>
<country>US</country>
<additional-info>unlinked</additional-info>
<main-classification>D 2947</main-classification>
</classification-national>
<invention-title id="d2e43">Shoe <i>sole</i></invention-title>
<number-of-claims>1</number-of-claims>
<us-exemplary-claim>1</us-exemplary-claim>
<us-field-of-classification-search>
<classification-national>
<country>US</country>
<additional-info>unlinked</additional-info>
<main-classification>D 2896</main-classification>
</classification-national>
<classification-national>
<country>US</country>
<additional-info>unlinked</additional-info>
<main-classification>D 2902</main-classification>
<further-classification>D 2903</further-classification>
</classification-national>
<classification-cpc-text>A43B 1/0027</classification-cpc-text>
<classification-cpc-text>A43B 3/0036</classification-cpc-text>
<classification-cpc-combination-text>A43B 13/04</classification-cpc-combination-text>
</us-field-of-classification-search>
<figures>
<number-of-drawing-sheets>7</number-of-drawing-sheets>
</figures>
<us-parties>
<us-applicants>
<us-applicant sequence="001" app-type="applicant" designation="us-only" applicant-authority-category="assignee">
<addressbook>
<orgname>NIKE, Inc.</orgname>
<address>
<city>Beaverton</city>
<state>OR</state>
<country>US</country>
</address>
</addressbook>
<residence>
<country>US</country>
</residence>
</us-applicant>
<us-applicant sequence="002" app-type="applicant" designation="us-only">
<addressbook>
<last-name>Roe</last-name>
<first-name>Richard</first-name>
<address>
<country>DE</country>
</address>
</addressbook>
</us-applicant>
</us-applicants>
<inventors>
<inventor sequence="001" designation="us-only">
<addressbook>
<last-name>Doe</last-name>
<first-name>Jane</first-name>
<address>
<city>Portland</city>
<state>OR</state>
<country>US</country>
</address>
</addressbook>
</inventor>
<inventor sequence="002" designation="us-only">
<addressbook>
<last-name>Mustermann</last-name>
<first-name>Max</first-name>
<address>
<city>Berlin</city>
</address>
</addressbook>
</inventor>
<inventor sequence="003" designation="us-only">
<addressbook>
<last-name>Dupont</last-name>
<first-name>Marie</first-name>
<address>
<city>Lyon</city>
<country>FR</country>
</address>
</addressbook>
</inventor>
</inventors>
<agents>
<agent sequence="01" rep-type="attorney">
<addressbook>
<orgname>Banner &amp; Witcoff, Ltd.</orgname>
<address>
<country>unknown</country>
</address>
</addressbook>
</agent>
</agents>
</us-parties>
<assignees>
<assignee>
<addressbook>
<orgname>NIKE, Inc.</orgname>
<role>02</role>
<address>
<city>Beaverton</city>
<state>OR</state>
<country>US</country>
</address>
</addressbook>
</assignee>
</assignees>
<examiners>
<primary-examiner>
<last-name>Smith</last-name>
<first-name>Ann</first-name>
<department>2912</department>
</primary-examiner>
<assistant-examiner>
<last-name>Lee</last-name>
<first-name>Bo</first-name>
</assistant-examiner>
</examiners>
</us-bibliographic-data-grant>
<drawings id="DRAWINGS">
<figure id="Fig-EMI-D00000" num="00000">
<img id="EMI-D00000" he="216.41mm" wi="153.50mm" file="USD0839563-20190205-D00000.TIF"/>
</figure>
</drawings>
<description id="description">
<?BRFSUM description="Brief Summary" end="lead"?>
<p id="p-0001" num="0001">summary of the <b>design</b></p>
<?BRFSUM description="Brief Summary" end="tail"?>
<?brief-description-of-drawings description="Brief Description of Drawings" end="lead"?>
<description-of-drawings>
<p id="p-0002" num="0002"><figref idref="DRAWINGS">FIG. 1</figref> is a front view.</p>
</description-of-drawings>
<?brief-description-of-drawings description="Brief Description of Drawings" end="tail"?>
</description>
<us-claim-statement>We claim:</us-claim-statement>
<claims id="claims">
<claim id="CLM-00001" num="00001">
<claim-text>The ornamental design for a shoe sole, as shown and described.</claim-text>
</claim>
</claims>
</us-patent-grant>
"#;

fn the_grant() -> PatentGrant {
    let mut grants = PatentGrants::from_bytes(GRANT.as_bytes());
    let grant = match grants.next() {
        Some(Ok(grant)) => grant,
        Some(Err(e)) => panic!("{:?}", e),
        None => panic!("no document"),
    };
    assert!(grants.next().is_none());
    grant
}

#[test]
fn a_whole_grant() {
    let grant = the_grant();
    let us_address = Address { city: some("Beaverton"), state: some("OR"), country: some("US") };
    let expected = BibliographicDataGrant {
        publication_reference: DocumentId {
            country: "US".to_string(),
            doc_number: "D0839563".to_string(),
            kind: some("S1"),
            date: "20190205".to_string(),
        },
        application_reference: DocumentId {
            country: "US".to_string(),
            doc_number: "29581359".to_string(),
            kind: None,
            date: "20161018".to_string(),
        },
        us_application_series_code: "29".to_string(),
        us_term_of_grant: "15".to_string(),
        classification_locarno: ClassificationLocarno {
            edition: "11".to_string(),
            main_classification: "0204".to_string(),
        },
        classification_national: ClassificationNational {
            country: "US".to_string(),
            additional_info: "unlinked".to_string(),
            main_classification: "D 2947".to_string(),
            further_classification: None,
        },
        invention_title: "Shoe sole".to_string(),
        number_of_claims: "1".to_string(),
        us_exemplary_claim: "1".to_string(),
        us_field_of_classification_search: UsFieldOfClassificationSearch {
            classification_nationals: vec![
                ClassificationNational {
                    country: "US".to_string(),
                    additional_info: "unlinked".to_string(),
                    main_classification: "D 2896".to_string(),
                    further_classification: None,
                },
                ClassificationNational {
                    country: "US".to_string(),
                    additional_info: "unlinked".to_string(),
                    main_classification: "D 2902".to_string(),
                    further_classification: some("D 2903"),
                },
            ],
            classification_cpc_texts: vec!["A43B 1/0027".to_string(), "A43B 3/0036".to_string()],
            classification_cpc_combination_texts: vec!["A43B 13/04".to_string()],
        },
        us_applicants: vec![
            UsApplicant {
                sequence: "001".to_string(),
                app_type: "applicant".to_string(),
                designation: "us-only".to_string(),
                applicant_authority_category: some("assignee"),
                addressbook: AddressBook {
                    orgname: some("NIKE, Inc."),
                    first_name: None,
                    last_name: None,
                    role: None,
                    address: us_address.clone(),
                },
                residence: some("US"),
            },
            UsApplicant {
                sequence: "002".to_string(),
                app_type: "applicant".to_string(),
                designation: "us-only".to_string(),
                applicant_authority_category: None,
                addressbook: AddressBook {
                    orgname: None,
                    first_name: some("Richard"),
                    last_name: some("Roe"),
                    role: None,
                    address: Address { city: None, state: None, country: some("DE") },
                },
                residence: None,
            },
        ],
        inventors: vec![
            Inventor {
                sequence: "001".to_string(),
                designation: "us-only".to_string(),
                addressbook: AddressBook {
                    orgname: None,
                    first_name: some("Jane"),
                    last_name: some("Doe"),
                    role: None,
                    address: Address {
                        city: some("Portland"),
                        state: some("OR"),
                        country: some("US"),
                    },
                },
            },
            Inventor {
                sequence: "002".to_string(),
                designation: "us-only".to_string(),
                addressbook: AddressBook {
                    orgname: None,
                    first_name: some("Max"),
                    last_name: some("Mustermann"),
                    role: None,
                    address: Address { city: some("Berlin"), state: None, country: None },
                },
            },
            Inventor {
                sequence: "003".to_string(),
                designation: "us-only".to_string(),
                addressbook: AddressBook {
                    orgname: None,
                    first_name: some("Marie"),
                    last_name: some("Dupont"),
                    role: None,
                    address: Address { city: some("Lyon"), state: None, country: some("FR") },
                },
            },
        ],
        agents: vec![Agent {
            sequence: "01".to_string(),
            rep_type: "attorney".to_string(),
            addressbook: AddressBook {
                orgname: some("Banner & Witcoff, Ltd."),
                first_name: None,
                last_name: None,
                role: None,
                address: Address { city: None, state: None, country: some("unknown") },
            },
        }],
        assignees: vec![Assignee {
            orgname: None,
            role: None,
            addressbook: AddressBook {
                orgname: some("NIKE, Inc."),
                first_name: None,
                last_name: None,
                role: some("02"),
                address: us_address,
            },
        }],
        examiners: Examiners {
            primary_examiner: Examiner {
                first_name: "Ann".to_string(),
                last_name: "Smith".to_string(),
                department: some("2912"),
            },
            assistant_examiner: Examiner {
                first_name: "Bo".to_string(),
                last_name: "Lee".to_string(),
                department: None,
            },
        },
    };
    assert_eq!(grant.us_bibliographic_data_grant, expected);
    assert_eq!(grant.us_claim_statement, "We claim:");
    assert_eq!(
        grant.claims,
        vec!["The ornamental design for a shoe sole, as shown and described.".to_string()]
    );
    assert_eq!(grant.descriptions.len(), 2);
    assert_eq!(grant.descriptions.get("BRFSUM"), some("summary of the design").as_ref());
    assert_eq!(
        grant.descriptions.get("brief-description-of-drawings"),
        some("FIG. 1 is a front view.").as_ref()
    );
}

#[test]
fn the_row_of_a_grant() {
    let row = PatentOutput::from(&the_grant());
    assert_eq!(
        row,
        PatentOutput {
            id: "D0839563".to_string(),
            date: "20190205".to_string(),
            country_inventor: vec!["US".to_string(), "FR".to_string()],
            country_assignee: vec!["US".to_string()],
            classification_locarno: "0204".to_string(),
            classification_national: "D 2947".to_string(),
        }
    );
    let empty = PatentOutput::from(&PatentGrant::default());
    assert_eq!(
        empty,
        PatentOutput {
            id: String::new(),
            date: String::new(),
            country_inventor: Vec::new(),
            country_assignee: Vec::new(),
            classification_locarno: String::new(),
            classification_national: String::new(),
        }
    );
}

#[test]
fn a_document_identifier_needs_country_number_and_date() {
    let mut doc_id = DocumentId::default();
    let mut rdr = inside(
        "<r><document-id><doc-number>7</doc-number><date>20190101</date></document-id></r>",
    );
    assert_eq!(deser_doc_id(&mut rdr, &mut doc_id), Err(unexpected("", "document-id")));
    assert_eq!(doc_id, DocumentId::default());

    let mut rdr = inside("<r><document-id><country>US</country><date>20190101</date></document-id></r>");
    assert_eq!(deser_doc_id(&mut rdr, &mut doc_id), Err(unexpected("", "document-id")));

    let mut rdr = inside("<r><document-id></document-id></r>");
    assert_eq!(deser_doc_id(&mut rdr, &mut doc_id), Err(unexpected("", "document-id")));
}

#[test]
fn a_document_identifier_may_lack_its_kind() {
    let mut doc_id = DocumentId::default();
    let mut rdr = inside(
        "<r><document-id><date>20190101</date><country>US</country><doc-number>7</doc-number></document-id></r>",
    );
    assert_eq!(deser_doc_id(&mut rdr, &mut doc_id), Ok(()));
    assert_eq!(
        doc_id,
        DocumentId {
            country: "US".to_string(),
            doc_number: "7".to_string(),
            kind: None,
            date: "20190101".to_string(),
        }
    );
    assert_eq!(rdr.next_event(), Some(XmlEvent::End { name: "r".to_string() }));
}

#[test]
fn a_document_identifier_has_no_other_fields() {
    let mut doc_id = DocumentId::default();
    let mut rdr = inside("<r><document-id><country>US</country><name>x</name></document-id></r>");
    assert_eq!(deser_doc_id(&mut rdr, &mut doc_id), Err(unexpected("name", "document-id")));
    let mut rdr = inside("<r><id><country>US</country></id></r>");
    assert_eq!(deser_doc_id(&mut rdr, &mut doc_id), Err(unexpected("id", "document-id")));
    let mut rdr = inside("<r>text</r>");
    assert_eq!(deser_doc_id(&mut rdr, &mut doc_id), Err(unexpected("", "document-id")));
}

#[test]
fn classifications_need_their_fields() {
    let mut locarno = ClassificationLocarno::default();
    let mut rdr = inside("<classification-locarno><edition>11</edition></classification-locarno>");
    assert_eq!(
        deser_class_locarno(&mut rdr, &mut locarno),
        Err(unexpected("", "classification-locarno"))
    );
    let mut rdr = inside(
        "<classification-locarno><main-classification>0204</main-classification><edition>11</edition></classification-locarno>",
    );
    assert_eq!(deser_class_locarno(&mut rdr, &mut locarno), Ok(()));
    assert_eq!(
        locarno,
        ClassificationLocarno { edition: "11".to_string(), main_classification: "0204".to_string() }
    );

    let mut national = ClassificationNational::default();
    let mut rdr = inside(
        "<classification-national><country>US</country><main-classification>D 2947</main-classification></classification-national>",
    );
    assert_eq!(
        deser_class_national(&mut rdr, &mut national),
        Err(unexpected("", "classification-national"))
    );
    assert_eq!(national, ClassificationNational::default());
}

#[test]
fn a_later_field_replaces_an_earlier_one() {
    let mut address = Address { city: some("Old"), state: some("ST"), country: None };
    let mut rdr = inside("<address><city>A</city><country>US</country><city>B</city></address>");
    assert_eq!(deser_address(&mut rdr, &mut address), Ok(()));
    assert_eq!(address, Address { city: some("B"), state: some("ST"), country: some("US") });
}

#[test]
fn field_values_come_in_the_order_of_the_names() {
    let names = vec!["a", "b", "c"];
    assert_eq!(find_name(&names, "b"), Some(1));
    assert_eq!(find_name(&names, "d"), None);
    let mut rdr = inside("<r><c>3</c><a>1</a></r>");
    assert_eq!(deser_record(&mut rdr, "r", &names, 1), Ok(vec![some("1"), None, some("3")]));
    let mut rdr = inside("<r><c>3</c><b>2</b></r>");
    assert_eq!(deser_record(&mut rdr, "r", &names, 1), Err(unexpected("", "r")));
    let mut rdr = inside("<r><a>1</a>stray<b>2</b></r>");
    assert_eq!(deser_record(&mut rdr, "r", &names, 1), Ok(vec![some("1"), None, None]));
}

#[test]
fn an_examiner_needs_both_names() {
    let mut examiner = Examiner::default();
    let mut rdr = inside("<primary-examiner><last-name>Smith</last-name></primary-examiner>");
    assert_eq!(
        deser_examiner(&mut rdr, "primary-examiner", &mut examiner),
        Err(unexpected("", "primary-examiner"))
    );
    let mut examiners = Examiners::default();
    let mut rdr = inside(
        "<examiners><primary-examiner><last-name>Smith</last-name><first-name>Ann</first-name></primary-examiner></examiners>",
    );
    assert_eq!(deser_examiners(&mut rdr, &mut examiners), Ok(()));
    assert_eq!(examiners.primary_examiner.last_name, "Smith");
    assert_eq!(examiners.assistant_examiner, Examiner::default());
    let mut rdr = inside("<examiners><examiner/><supervisor></supervisor></examiners>");
    assert_eq!(deser_examiners(&mut rdr, &mut examiners), Err(unexpected("", "examiners")));
    let mut rdr = inside("<examiners><supervisor></supervisor></examiners>");
    assert_eq!(
        deser_examiners(&mut rdr, &mut examiners),
        Err(unexpected("supervisor", "examiners"))
    );
}

#[test]
fn party_lists_without_items_are_empty() {
    let mut inventors = Vec::new();
    let mut rdr = inside("<inventors></inventors><next/>");
    assert_eq!(deser_inventors(&mut rdr, &mut inventors), Ok(()));
    assert!(inventors.is_empty());
    assert_eq!(rdr.next_event(), Some(XmlEvent::Other));

    let mut applicants = Vec::new();
    let mut rdr = inside("<us-applicants>\n</us-applicants>");
    assert_eq!(deser_us_applicants(&mut rdr, &mut applicants), Ok(()));
    assert!(applicants.is_empty());

    let mut agents = Vec::new();
    let mut rdr = inside("<agents></agents>");
    assert_eq!(deser_agents(&mut rdr, &mut agents), Ok(()));
    assert!(agents.is_empty());

    let mut assignees = Vec::new();
    let mut rdr = inside("<assignees></assignees>");
    assert_eq!(deser_assignees(&mut rdr, &mut assignees), Ok(()));
    assert!(assignees.is_empty());
}

#[test]
fn an_applicant_has_a_residence_only_where_the_feed_gives_one() {
    let mut applicants = Vec::new();
    let mut rdr = inside(
        "<us-applicants>\
         <us-applicant sequence=\"1\"><addressbook><orgname>A</orgname></addressbook><residence><country>JP</country></residence></us-applicant>\
         <us-applicant sequence=\"2\"><addressbook><orgname>B</orgname></addressbook></us-applicant>\
         </us-applicants>",
    );
    assert_eq!(deser_us_applicants(&mut rdr, &mut applicants), Ok(()));
    assert_eq!(applicants.len(), 2);
    assert_eq!(applicants[0].residence, some("JP"));
    assert_eq!(applicants[1].residence, None);
    assert_eq!(applicants[1].sequence, "2");
    assert_eq!(applicants[1].app_type, "");
}

#[test]
fn an_attribute_that_the_element_does_not_have_is_refused() {
    let mut inventors = Vec::new();
    let mut rdr = inside(
        "<inventors><inventor sequence=\"1\" shoe-size=\"9\"><addressbook></addressbook></inventor></inventors>",
    );
    assert_eq!(
        deser_inventors(&mut rdr, &mut inventors),
        Err(Error::UnrecognizedAttribute { key: "shoe-size".to_string() })
    );
    assert!(inventors.is_empty());

    let mut agents = Vec::new();
    let mut rdr =
        inside("<agents><agent rep-type=\"&bogus;\"><addressbook></addressbook></agent></agents>");
    assert_eq!(deser_agents(&mut rdr, &mut agents), Err(Error::Encoding));

    let mut rdr = inside("<agents><agent rep-type=attorney><addressbook></addressbook></agent></agents>");
    assert!(matches!(deser_agents(&mut rdr, &mut agents), Err(Error::Stream { .. })));
}

#[test]
fn attributes_are_read_in_the_order_of_the_names() {
    let mut rdr = EventReader::from_bytes(b"<agent rep-type=\"attorney\" sequence=\"01\">");
    let attrs = match rdr.next_event() {
        Some(XmlEvent::Start { attrs, .. }) => attrs,
        other => panic!("{:?}", other),
    };
    assert_eq!(
        read_attributes(&attrs, &vec!["sequence", "rep-type", "other"]),
        Ok(vec![some("01"), some("attorney"), None])
    );
    assert_eq!(
        read_attributes(&attrs, &vec!["sequence"]),
        Err(Error::UnrecognizedAttribute { key: "rep-type".to_string() })
    );
}

#[test]
fn lists_hold_nothing_but_their_items() {
    let mut inventors = Vec::new();
    let mut rdr = inside("<inventors><agent></agent></inventors>");
    assert_eq!(deser_inventors(&mut rdr, &mut inventors), Err(unexpected("agent", "inventors")));
    let mut rdr = inside("<inventors>text</inventors>");
    assert_eq!(deser_inventors(&mut rdr, &mut inventors), Err(unexpected("", "inventors")));
    let mut rdr = inside("<inventors>");
    assert_eq!(deser_inventors(&mut rdr, &mut inventors), Err(unexpected("", "inventors")));
    let mut rdr = inside("<inventors><inventor><address></address></inventor></inventors>");
    assert_eq!(
        deser_inventors(&mut rdr, &mut inventors),
        Err(unexpected("address", "addressbook"))
    );
}

#[test]
fn an_address_book_holds_names_and_an_address() {
    let mut book = AddressBook::default();
    let mut rdr = EventReader::from_bytes(
        b"<addressbook><role>03</role><first-name>A</first-name><address><state>CA</state></address><last-name>B</last-name></addressbook>",
    );
    assert_eq!(deser_addressbook(&mut rdr, &mut book), Ok(()));
    assert_eq!(
        book,
        AddressBook {
            orgname: None,
            first_name: some("A"),
            last_name: some("B"),
            role: some("03"),
            address: Address { city: None, state: some("CA"), country: None },
        }
    );
    let mut rdr = EventReader::from_bytes(b"<addressbook><phone>1</phone></addressbook>");
    assert_eq!(deser_addressbook(&mut rdr, &mut book), Err(unexpected("phone", "addressbook")));
}

#[test]
fn an_assignee_may_name_itself_outside_the_address_book() {
    let mut assignees = Vec::new();
    let mut rdr = inside(
        "<assignees><assignee><orgname>ACME</orgname><role>03</role><addressbook><address><country>CA</country></address></addressbook></assignee></assignees>",
    );
    assert_eq!(deser_assignees(&mut rdr, &mut assignees), Ok(()));
    assert_eq!(
        assignees,
        vec![Assignee {
            orgname: some("ACME"),
            role: some("03"),
            addressbook: AddressBook {
                orgname: None,
                first_name: None,
                last_name: None,
                role: None,
                address: Address { city: None, state: None, country: some("CA") },
            },
        }]
    );
    let mut rdr = inside("<assignees><assignee><name>x</name></assignee></assignees>");
    assert_eq!(deser_assignees(&mut rdr, &mut assignees), Err(unexpected("name", "assignee")));
}

#[test]
fn the_field_of_search_is_closed() {
    let mut search = UsFieldOfClassificationSearch::default();
    let mut rdr = inside(
        "<us-field-of-classification-search><us-classifications-ipcr><x><y/></x></us-classifications-ipcr><classification-cpc-text>A</classification-cpc-text></us-field-of-classification-search>",
    );
    assert_eq!(deser_field_class_search(&mut rdr, &mut search), Ok(()));
    assert_eq!(search.classification_cpc_texts, vec!["A".to_string()]);
    assert!(search.classification_nationals.is_empty());
    let mut rdr = inside(
        "<us-field-of-classification-search><classification-ipc>A</classification-ipc></us-field-of-classification-search>",
    );
    assert_eq!(
        deser_field_class_search(&mut rdr, &mut search),
        Err(unexpected("classification-ipc", "us-field-of-classification-search"))
    );
}

#[test]
fn the_bibliographic_block_passes_over_what_it_does_not_know() {
    let mut biblio = BibliographicDataGrant::default();
    let mut rdr = inside(
        "<us-bibliographic-data-grant><figures><number-of-figures>3</number-of-figures></figures>text<number-of-claims>12</number-of-claims><us-term-of-grant><disclaimer/></us-term-of-grant></us-bibliographic-data-grant><after/>",
    );
    assert_eq!(deser_biblio(&mut rdr, &mut biblio), Ok(()));
    assert_eq!(biblio.number_of_claims, "12");
    assert_eq!(biblio.us_term_of_grant, "");
    assert_eq!(rdr.next_event(), Some(XmlEvent::Other));
    let mut rdr = inside("<us-bibliographic-data-grant><number-of-claims>12</number-of-claims>");
    assert_eq!(
        deser_biblio(&mut rdr, &mut biblio),
        Err(unexpected("", "us-bibliographic-data-grant"))
    );
}

#[test]
fn events_at_hand_read_like_bytes() {
    let mut rdr = EventReader::from_bytes(GRANT.as_bytes());
    let mut events = Vec::new();
    while let Some(ev) = rdr.next_event() {
        events.push(ev);
    }
    assert!(matches!(events.first(), Some(XmlEvent::Decl)));
    assert_eq!(events.last(), Some(&XmlEvent::End { name: "us-patent-grant".to_string() }));
    let from_events = PatentGrants::from_events(events).read_all();
    let from_bytes = PatentGrants::from_bytes(GRANT.as_bytes()).read_all();
    assert_eq!(from_events.len(), 1);
    assert_eq!(from_events, from_bytes);
    assert_eq!(from_bytes[0].as_ref().ok(), Some(&the_grant()));
}

#[test]
fn attributes_that_are_not_utf8_are_an_encoding_error() {
    let mut inventors = Vec::new();
    let mut rdr = EventReader::from_bytes(
        b"<inventors><inventor sequence=\"\xff\"><addressbook></addressbook></inventor></inventors>",
    );
    assert!(matches!(rdr.next_event(), Some(XmlEvent::Start { .. })));
    assert_eq!(deser_inventors(&mut rdr, &mut inventors), Err(Error::Encoding));
    assert!(inventors.is_empty());
}

#[test]
fn a_block_is_read_whatever_its_attributes_are() {
    let feed = b"<?xml version=\"1.0\"?><!DOCTYPE us-patent-grant>\
        <us-patent-grant>\
        <us-bibliographic-data-grant id=\"\xff\"><number-of-claims>3</number-of-claims></us-bibliographic-data-grant>\
        <claims id=\"\xff\"><claim><claim-text>one</claim-text></claim></claims>\
        </us-patent-grant>";
    let mut grants = PatentGrants::from_bytes(feed);
    match grants.next() {
        Some(Ok(grant)) => {
            assert_eq!(grant.us_bibliographic_data_grant.number_of_claims, "3");
            assert_eq!(grant.claims, vec!["one".to_string()]);
        }
        other => panic!("{:?}", other),
    }
}
