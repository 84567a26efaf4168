use uspto::event::{Attr, XmlEvent};
use uspto::reader::EventReader;
use uspto::strings::join;
use uspto::text::{deser_text, deser_text_from, deser_text_with_tags_from};
use uspto::util::{consume_start, skip_to_tag_within};
use uspto::Error;

/// A reader over `markup`, just behind its first tag.
fn inside(markup: &str) -> EventReader<'_> {
    let mut rdr = EventReader::from_bytes(markup.as_bytes());
    assert!(matches!(rdr.next_event(), Some(XmlEvent::Start { .. })));
    rdr
}

#[test]
fn events_of_a_small_document() {
    let mut rdr = EventReader::from_bytes(
        b"<?xml version=\"1.0\"?><!DOCTYPE a><a k=\"v &amp; w\"> hello <!-- c --><b/><?p q r?></a>",
    );
    assert_eq!(rdr.next_event(), Some(XmlEvent::Decl));
    assert_eq!(rdr.next_event(), Some(XmlEvent::DocType));
    assert_eq!(
        rdr.next_event(),
        Some(XmlEvent::Start {
            name: "a".to_string(),
            attrs: vec![Attr::Pair { key: "k".to_string(), value: "v & w".to_string() }],
        })
    );
    assert_eq!(rdr.next_event(), Some(XmlEvent::Text { text: Some("hello".to_string()) }));
    assert_eq!(rdr.next_event(), Some(XmlEvent::Other));
    assert_eq!(rdr.next_event(), Some(XmlEvent::Other));
    assert_eq!(rdr.next_event(), Some(XmlEvent::Pi { text: Some("p q r".to_string()) }));
    assert_eq!(rdr.next_event(), Some(XmlEvent::End { name: "a".to_string() }));
    assert_eq!(rdr.next_event(), None);
    assert_eq!(rdr.next_event(), None);
}

#[test]
fn events_at_hand_are_given_in_order() {
    let events = vec![
        XmlEvent::Start { name: "f".to_string(), attrs: Vec::new() },
        XmlEvent::Text { text: Some("a".to_string()) },
        XmlEvent::End { name: "f".to_string() },
    ];
    let mut rdr = EventReader::from_events(events.clone());
    assert_eq!(rdr.next_event(), Some(events[0].clone()));
    assert_eq!(rdr.next_event(), Some(events[1].clone()));
    assert_eq!(rdr.next_event(), Some(events[2].clone()));
    assert_eq!(rdr.next_event(), None);
    let mut rdr = EventReader::from_events(events);
    assert_eq!(deser_text("f", &mut rdr), Ok("a".to_string()));
}

#[test]
fn markup_that_is_not_utf8_is_of_no_interest() {
    let mut rdr = EventReader::from_bytes(b"<a\xff>x\xffy</a>");
    assert_eq!(rdr.next_event(), Some(XmlEvent::Other));
    assert_eq!(rdr.next_event(), Some(XmlEvent::Text { text: None }));
}

#[test]
fn malformed_and_undecodable_attributes_are_kept_in_place() {
    let mut rdr = EventReader::from_bytes(b"<a one=\"1\" two=\"&bogus;\" three=3>");
    match rdr.next_event() {
        Some(XmlEvent::Start { name, attrs }) => {
            assert_eq!(name, "a");
            assert_eq!(attrs.len(), 3);
            assert_eq!(attrs[0], Attr::Pair { key: "one".to_string(), value: "1".to_string() });
            assert_eq!(attrs[1], Attr::Undecodable { key: "two".to_string() });
            assert!(matches!(&attrs[2], Attr::Malformed { msg } if !msg.is_empty()));
        }
        other => panic!("{:?}", other),
    }
}

#[test]
fn stripping_same_name_nesting_gives_all_fragments() {
    let mut rdr = inside("<f>a<f>b</f>c</f><g/>");
    assert_eq!(deser_text_with_tags_from("f", &mut rdr), Ok("a b c".to_string()));
    assert_eq!(rdr.next_event(), Some(XmlEvent::Other));
    assert_eq!(rdr.next_event(), None);
}

#[test]
fn stripping_discards_other_markup() {
    let mut rdr = inside("<t>Shoe <i>sole</i> with <b>grip <u>pads</u></b></t>");
    assert_eq!(
        deser_text_with_tags_from("t", &mut rdr),
        Ok("Shoe sole with grip pads".to_string())
    );
}

#[test]
fn stripping_plain_text_gives_the_flat_text() {
    for markup in ["<f>plain text</f>", "<f></f>", "<f>  a &amp; b </f>", "<f><!-- c -->x</f>"] {
        let mut flat = inside(markup);
        let mut stripped = inside(markup);
        let flat_text = deser_text_from("f", &mut flat);
        assert!(flat_text.is_ok());
        assert_eq!(deser_text_with_tags_from("f", &mut stripped), flat_text);
    }
    let mut rdr = inside("<f>  a &amp; b </f>");
    assert_eq!(deser_text_from("f", &mut rdr), Ok("a & b".to_string()));
    let mut rdr = inside("<f></f>");
    assert_eq!(deser_text_from("f", &mut rdr), Ok(String::new()));
}

#[test]
fn two_fragments_are_one_flat_value_and_two_stripped() {
    let mut flat = inside("<f>a<!-- c -->b</f>");
    let mut stripped = inside("<f>a<!-- c -->b</f>");
    assert_eq!(deser_text_from("f", &mut flat), Ok("a".to_string()));
    assert_eq!(deser_text_with_tags_from("f", &mut stripped), Ok("a b".to_string()));
}

#[test]
fn flat_extraction_refuses_nested_tags() {
    let mut rdr = inside("<f>a<g>b</g></f>");
    assert_eq!(
        deser_text_from("f", &mut rdr),
        Err(Error::UnexpectedElement { found: "g".to_string(), within: "f".to_string() })
    );
    let mut rdr = inside("<f><g>b</g></f>");
    assert_eq!(
        deser_text_from("f", &mut rdr),
        Err(Error::UnexpectedElement { found: "g".to_string(), within: "f".to_string() })
    );
}

#[test]
fn extraction_fails_at_the_end_of_input() {
    let mut rdr = inside("<f>a");
    assert_eq!(
        deser_text_from("f", &mut rdr),
        Err(Error::UnexpectedElement { found: String::new(), within: "f".to_string() })
    );
    let mut rdr = inside("<f>a<f>b</f>");
    assert_eq!(
        deser_text_with_tags_from("f", &mut rdr),
        Err(Error::UnexpectedElement { found: String::new(), within: "f".to_string() })
    );
}

#[test]
fn extraction_of_undecodable_text_is_an_encoding_error() {
    let mut rdr = inside("<f>&nope;</f>");
    assert_eq!(deser_text_from("f", &mut rdr), Err(Error::Encoding));
    let mut rdr = inside("<f>a<b>&nope;</b></f>");
    assert_eq!(deser_text_with_tags_from("f", &mut rdr), Err(Error::Encoding));
}

#[test]
fn named_text_needs_its_opening_tag() {
    let mut rdr = EventReader::from_bytes(b"<country>US</country>");
    assert_eq!(deser_text("country", &mut rdr), Ok("US".to_string()));
    let mut rdr = EventReader::from_bytes(b"<city>Paris</city>");
    assert_eq!(
        deser_text("country", &mut rdr),
        Err(Error::UnexpectedElement { found: "city".to_string(), within: "country".to_string() })
    );
    let mut rdr = EventReader::from_bytes(b"text");
    assert_eq!(
        deser_text("country", &mut rdr),
        Err(Error::UnexpectedElement { found: String::new(), within: "country".to_string() })
    );
}

#[test]
fn consume_start_takes_exactly_the_named_tag() {
    let mut rdr = EventReader::from_bytes(b"<addressbook><orgname>");
    assert_eq!(consume_start(&mut rdr, "addressbook"), Ok(()));
    assert_eq!(
        consume_start(&mut rdr, "addressbook"),
        Err(Error::UnexpectedElement {
            found: "orgname".to_string(),
            within: "addressbook".to_string(),
        })
    );
    assert_eq!(
        consume_start(&mut rdr, "addressbook"),
        Err(Error::UnexpectedElement { found: String::new(), within: "addressbook".to_string() })
    );
}

#[test]
fn skipping_finds_the_tag_or_the_end_of_the_element() {
    let mut rdr = inside("<a><x/>text<b><c>1</c></b><d/></a>");
    assert_eq!(skip_to_tag_within("c", "a", &mut rdr), Ok(true));
    assert_eq!(rdr.next_event(), Some(XmlEvent::Text { text: Some("1".to_string()) }));
    assert_eq!(skip_to_tag_within("zzz", "a", &mut rdr), Ok(false));
    assert_eq!(rdr.next_event(), None);
    let mut rdr = inside("<a><b>");
    assert_eq!(
        skip_to_tag_within("c", "a", &mut rdr),
        Err(Error::UnexpectedElement { found: String::new(), within: "a".to_string() })
    );
}

#[test]
fn join_puts_one_space_between_fragments() {
    assert_eq!(join(&Vec::new()), "");
    assert_eq!(join(&vec!["a".to_string()]), "a");
    assert_eq!(
        join(&vec!["a".to_string(), "".to_string(), "b c".to_string()]),
        "a  b c"
    );
}

#[test]
fn white_space_is_what_unicode_says() {
    for code in 0..=0x10FFFF_u32 {
        if let Some(c) = char::from_u32(code) {
            assert_eq!(uspto::strings::is_white_space(c), c.is_whitespace(), "{:x}", code);
        }
    }
}

#[test]
fn words_are_the_runs_between_white_space() {
    let split = uspto::strings::split_words;
    assert_eq!(split(""), Vec::<String>::new());
    assert_eq!(split(" \t\r\n\u{a0}\u{3000}"), Vec::<String>::new());
    assert_eq!(split("one"), vec!["one"]);
    assert_eq!(
        split("  BRFSUM description=\"Brief Summary\"\tend=\"lead\"\n"),
        vec!["BRFSUM", "description=\"Brief", "Summary\"", "end=\"lead\""]
    );
    assert_eq!(split("a\u{2003}b\u{85}c d"), vec!["a", "b", "c", "d"]);
    for text in ["x y  z", " lead", "tail ", "\u{e9}t\u{e9} \u{4e2d}\u{6587}", "a\u{200b}b"] {
        let expected: Vec<String> = text.split_whitespace().map(|w| w.to_string()).collect();
        assert_eq!(split(text), expected);
    }
}

#[test]
fn numbers_in_decimal_notation() {
    let decimal = uspto::strings::decimal;
    assert_eq!(decimal(0), "0");
    assert_eq!(decimal(7), "7");
    assert_eq!(decimal(10), "10");
    assert_eq!(decimal(1976), "1976");
    assert_eq!(decimal(-305), "-305");
    assert_eq!(decimal(i32::MAX), "2147483647");
    assert_eq!(decimal(i32::MIN), "-2147483648");
    for n in (-1200..1200).chain([99_999, 100_000, -99_999, -100_000]) {
        assert_eq!(decimal(n), n.to_string());
    }
}

#[test]
fn a_tag_keeps_its_name_where_its_attributes_are_not_utf8() {
    let mut rdr = EventReader::from_bytes(b"<claims id=\"\xff\"><claim \xfe>");
    assert_eq!(
        rdr.next_event(),
        Some(XmlEvent::Start { name: "claims".to_string(), attrs: vec![Attr::Garbled] })
    );
    assert_eq!(
        rdr.next_event(),
        Some(XmlEvent::Start { name: "claim".to_string(), attrs: vec![Attr::Garbled] })
    );
}

#[test]
fn an_instruction_is_unescaped() {
    let mut rdr = EventReader::from_bytes(
        b"<?S description=\"a &amp; b\" end=\"lead\"?><?S &bogus; end=\"tail\"?><?S \xff?>",
    );
    assert_eq!(
        rdr.next_event(),
        Some(XmlEvent::Pi { text: Some("S description=\"a & b\" end=\"lead\"".to_string()) })
    );
    assert_eq!(rdr.next_event(), Some(XmlEvent::Pi { text: None }));
    assert_eq!(rdr.next_event(), Some(XmlEvent::Pi { text: None }));
    assert_eq!(rdr.next_event(), None);
}

#[test]
fn texts_are_the_same_where_their_characters_are() {
    // through a reader that compares tag names
    for (name, same) in [("f", true), ("F", false), ("ff", false), ("", false), ("\u{e9}", false)] {
        let mut rdr = EventReader::from_events(vec![
            XmlEvent::Text { text: Some("x".to_string()) },
            XmlEvent::End { name: name.to_string() },
            XmlEvent::End { name: "f".to_string() },
        ]);
        assert_eq!(deser_text_from("f", &mut rdr), Ok("x".to_string()));
        assert_eq!(rdr.next_event().is_none(), !same);
    }
    let mut rdr = EventReader::from_events(vec![XmlEvent::End { name: "\u{e9}t\u{e9}".to_string() }]);
    assert_eq!(deser_text_from("\u{e9}t\u{e9}", &mut rdr), Ok(String::new()));
}
