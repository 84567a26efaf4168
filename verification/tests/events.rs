use uspto::event::{Attr, XmlEvent};
use uspto::reader::EventReader;
use uspto::sections::{deser_pi_text_with_tags_to_tail_from, deser_top_pi};
use uspto::data::PatentGrant;
use uspto::{Error, PatentGrants};

fn start(name: &str) -> XmlEvent {
    XmlEvent::Start { name: name.to_string(), attrs: Vec::new() }
}

fn end(name: &str) -> XmlEvent {
    XmlEvent::End { name: name.to_string() }
}

fn text(text: &str) -> XmlEvent {
    XmlEvent::Text { text: Some(text.to_string()) }
}

fn pi(text: &str) -> XmlEvent {
    XmlEvent::Pi { text: Some(text.to_string()) }
}

#[test]
fn a_tokenizer_that_failed_is_at_its_end() {
    let mut rdr = EventReader::from_bytes(b"<a>text<b");
    assert_eq!(rdr.next_event(), Some(start("a")));
    assert_eq!(rdr.next_event(), Some(text("text")));
    assert!(matches!(rdr.next_event(), Some(XmlEvent::Invalid { msg }) if !msg.is_empty()));
    assert_eq!(rdr.next_event(), None);
    assert_eq!(rdr.next_event(), None);
}

#[test]
fn a_tokenizer_goes_on_after_a_tag_that_does_not_match() {
    let mut rdr = EventReader::from_bytes(b"<a></b>more<c/>");
    assert_eq!(rdr.next_event(), Some(start("a")));
    assert!(matches!(rdr.next_event(), Some(XmlEvent::Invalid { .. })));
    assert_eq!(rdr.next_event(), Some(text("more")));
    assert_eq!(rdr.next_event(), Some(XmlEvent::Other));
    assert_eq!(rdr.next_event(), None);
}

#[test]
fn white_space_around_text_is_trimmed_and_empty_text_is_no_event() {
    let mut rdr = EventReader::from_bytes(b"  <a>\n  <b>  x  y  </b>\n</a>  \n");
    assert_eq!(rdr.next_event(), Some(start("a")));
    assert_eq!(rdr.next_event(), Some(start("b")));
    assert_eq!(rdr.next_event(), Some(text("x  y")));
    assert_eq!(rdr.next_event(), Some(end("b")));
    assert_eq!(rdr.next_event(), Some(end("a")));
    assert_eq!(rdr.next_event(), None);
}

#[test]
fn attributes_come_in_the_order_of_the_tag() {
    let mut rdr = EventReader::from_bytes(b"<us-applicant sequence='001' app-type = \"applicant\" >");
    assert_eq!(
        rdr.next_event(),
        Some(XmlEvent::Start {
            name: "us-applicant".to_string(),
            attrs: vec![
                Attr::Pair { key: "sequence".to_string(), value: "001".to_string() },
                Attr::Pair { key: "app-type".to_string(), value: "applicant".to_string() },
            ],
        })
    );
}

#[test]
fn a_feed_of_events_at_hand() {
    let events = vec![
        XmlEvent::Decl,
        XmlEvent::DocType,
        start("us-patent-grant"),
        start("us-claim-statement"),
        text("I claim"),
        end("us-claim-statement"),
        pi("DETDESC description=\"Detailed Description\" end=\"lead\""),
        start("p"),
        text("one"),
        end("p"),
        pi("in-line-formulae description=\"In-line Formulae\" end=\"lead\""),
        text("two"),
        pi("DETDESC description=\"Detailed Description\" end=\"tail\""),
        end("us-patent-grant"),
        XmlEvent::Decl,
        text("stray"),
    ];
    let mut grants = PatentGrants::from_events(events);
    match grants.next() {
        Some(Ok(grant)) => {
            assert_eq!(grant.us_claim_statement, "I claim");
            assert_eq!(grant.descriptions.get("DETDESC"), Some(&"one two".to_string()));
        }
        _ => panic!("the document does not read"),
    }
    assert!(matches!(grants.next(), Some(Err(Error::MalformedHeader))));
    assert!(grants.next().is_none());
}

#[test]
fn an_instruction_without_words_is_malformed() {
    let mut grant = PatentGrant::default();
    let mut rdr = EventReader::from_events(vec![text("x")]);
    assert_eq!(
        deser_top_pi(Some("  \t ".to_string()), &mut rdr, &mut grant),
        Err(Error::MalformedPi)
    );
    assert_eq!(deser_top_pi(Some(String::new()), &mut rdr, &mut grant), Err(Error::MalformedPi));
    assert_eq!(deser_top_pi(None, &mut rdr, &mut grant), Err(Error::MalformedPi));
    assert_eq!(rdr.next_event(), Some(text("x")));
    assert!(grant.descriptions.is_empty());
}

#[test]
fn a_section_is_named_by_the_first_word_of_its_lead() {
    let mut grant = PatentGrant::default();
    let mut rdr = EventReader::from_events(vec![
        text("a"),
        XmlEvent::Pi { text: None },
        start("b"),
        text("c"),
        pi("whatever end=\"tail\""),
        text("after"),
    ]);
    assert_eq!(
        deser_top_pi(Some("\n RELAPP   end=\"lead\" ".to_string()), &mut rdr, &mut grant),
        Ok(())
    );
    assert_eq!(grant.descriptions.get("RELAPP"), Some(&"a c".to_string()));
    assert_eq!(rdr.next_event(), Some(text("after")));

    let mut rdr = EventReader::from_events(vec![text("kept")]);
    assert_eq!(
        deser_top_pi(Some("RELAPP end=\"tail\"".to_string()), &mut rdr, &mut grant),
        Ok(())
    );
    assert_eq!(rdr.next_event(), Some(text("kept")));
    assert_eq!(grant.descriptions.get("RELAPP"), Some(&"a c".to_string()));
}

#[test]
fn a_section_ends_only_at_a_tail() {
    let mut rdr = EventReader::from_events(vec![text("a"), pi("X end=\"lead\""), text("b")]);
    assert_eq!(deser_pi_text_with_tags_to_tail_from(&mut rdr), Err(Error::MalformedPi));
    let mut rdr = EventReader::from_events(vec![text("a"), pi(" "), pi("X end=\"tail\"")]);
    assert_eq!(deser_pi_text_with_tags_to_tail_from(&mut rdr), Err(Error::MalformedPi));
    let mut rdr = EventReader::from_events(vec![
        text("a"),
        XmlEvent::Text { text: None },
        pi("X end=\"tail\""),
    ]);
    assert_eq!(deser_pi_text_with_tags_to_tail_from(&mut rdr), Err(Error::Encoding));
    let mut rdr = EventReader::from_events(vec![
        XmlEvent::Invalid { msg: "broken".to_string() },
        pi("X end=\"tail\""),
    ]);
    assert_eq!(
        deser_pi_text_with_tags_to_tail_from(&mut rdr),
        Err(Error::Stream { msg: "broken".to_string() })
    );
    let mut rdr = EventReader::from_events(vec![pi("end=\"tail\"")]);
    assert_eq!(deser_pi_text_with_tags_to_tail_from(&mut rdr), Ok(String::new()));
}

#[test]
fn errors_in_words() {
    assert_eq!(
        Error::MalformedHeader.message(),
        "malformed header: a document must begin with a declaration and a document type"
    );
    assert_eq!(
        Error::MalformedPi.message(),
        "malformed processing instruction: no words, or a section that is never closed"
    );
    assert_eq!(
        Error::UnexpectedElement { found: "b".to_string(), within: "claims".to_string() }.message(),
        "unexpected element <b> within <claims>"
    );
    assert_eq!(
        Error::UnrecognizedAttribute { key: "size".to_string() }.message(),
        "unrecognized attribute: size"
    );
    assert_eq!(Error::Stream { msg: "cut".to_string() }.message(), "stream error: cut");
    assert_eq!(Error::Encoding.message(), "encoding error: text that cannot be decoded");
    assert_eq!(
        Error::ContainerShape { members: 2 }.message(),
        "container shape error: the container must hold exactly one member"
    );
}

#[test]
fn a_section_stored_again_takes_the_place_of_the_one_before() {
    let mut sections = uspto::descriptions::Descriptions::new();
    assert!(sections.is_empty());
    assert_eq!(sections.get("DETDESC"), None);
    sections.insert("DETDESC".to_string(), "first".to_string());
    sections.insert("BRFSUM".to_string(), "summary".to_string());
    sections.insert("DETDESC".to_string(), "second".to_string());
    assert_eq!(sections.len(), 2);
    assert!(sections.contains_key("BRFSUM"));
    assert!(!sections.contains_key("RELAPP"));
    assert_eq!(sections.get("DETDESC"), Some(&"second".to_string()));
    assert_eq!(sections.get("BRFSUM"), Some(&"summary".to_string()));
    assert_eq!(
        sections.entries(),
        &vec![
            ("DETDESC".to_string(), "second".to_string()),
            ("BRFSUM".to_string(), "summary".to_string()),
        ]
    );
    let copy = sections.clone();
    assert_eq!(copy, sections);
}
