use uspto::data::PatentGrant;
use uspto::{Error, PatentGrants};

const HEADER: &str = "<?xml version=\"1.0\" encoding=\"UTF-8\"?>\n<!DOCTYPE us-patent-grant SYSTEM \"us-patent-grant-v45-2014-04-03.dtd\" [ ]>\n";

fn document(body: &str) -> String {
    format!("{}<us-patent-grant lang=\"EN\">\n{}\n</us-patent-grant>\n", HEADER, body)
}

fn read_all(feed: &str) -> Vec<Result<PatentGrant, Error>> {
    PatentGrants::from_bytes(feed.as_bytes()).read_all()
}

fn only_grant(feed: &str) -> PatentGrant {
    let mut all = read_all(feed);
    assert_eq!(all.len(), 1);
    match all.pop() {
        Some(Ok(grant)) => grant,
        Some(Err(e)) => panic!("the document does not read: {:?}", e),
        None => unreachable!(),
    }
}

fn only_error(feed: &str) -> Error {
    let mut all = read_all(feed);
    assert_eq!(all.len(), 1);
    match all.pop() {
        Some(Err(e)) => e,
        _ => panic!("the document reads"),
    }
}

#[test]
fn it_works() {
    assert_eq!(2 + 2, 4);
}

#[test]
fn empty_stream_yields_nothing() {
    assert!(read_all("").is_empty());
    assert!(read_all("  \n\t ").is_empty());
    let mut grants = PatentGrants::from_bytes(b"");
    assert!(grants.next().is_none());
    assert!(grants.next().is_none());
}

#[test]
fn three_documents_give_three_records_in_order() {
    let mut feed = String::new();
    for n in ["one", "two", "three"] {
        feed.push_str(&document(&format!(
            "<us-claim-statement>{}</us-claim-statement>",
            n
        )));
    }
    let mut grants = PatentGrants::from_bytes(feed.as_bytes());
    let mut statements = Vec::new();
    while let Some(pulled) = grants.next() {
        match pulled {
            Ok(grant) => statements.push(grant.us_claim_statement),
            Err(e) => panic!("{:?}", e),
        }
    }
    assert_eq!(statements, vec!["one", "two", "three"]);
    assert!(grants.next().is_none());
}

#[test]
fn a_bare_document_gives_the_empty_record() {
    let grant = only_grant(&document(""));
    assert_eq!(grant.us_claim_statement, "");
    assert!(grant.claims.is_empty());
    assert!(grant.descriptions.is_empty());
    assert_eq!(
        grant.us_bibliographic_data_grant,
        uspto::data::BibliographicDataGrant::default()
    );
}

#[test]
fn a_document_may_end_with_the_input() {
    let feed = format!(
        "{}<us-patent-grant><us-claim-statement>I claim</us-claim-statement>",
        HEADER
    );
    let grant = only_grant(&feed);
    assert_eq!(grant.us_claim_statement, "I claim");
}

#[test]
fn unknown_elements_at_the_top_level_are_passed_over() {
    let grant = only_grant(&document(
        "<drawings><figure/></drawings><us-claim-statement>What is claimed</us-claim-statement>",
    ));
    assert_eq!(grant.us_claim_statement, "What is claimed");
}

#[test]
fn lead_tail_section_is_stored_by_name() {
    let grant = only_grant(&document(
        "<?S description=\"x\" end=\"lead\"?> free <?OTHER?> text <?S description=\"x\" end=\"tail\"?>",
    ));
    assert_eq!(grant.descriptions.get("S"), Some(&"free text".to_string()));
    assert_eq!(grant.descriptions.len(), 1);
}

#[test]
fn section_text_flattens_nested_markup() {
    let grant = only_grant(&document(
        "<?BRFSUM description=\"Brief Summary\" end=\"lead\"?>\n<description><p>first</p><p>second <b>bold</b></p></description>\n<?BRFSUM description=\"Brief Summary\" end=\"tail\"?>",
    ));
    assert_eq!(
        grant.descriptions.get("BRFSUM"),
        Some(&"first second bold".to_string())
    );
}

#[test]
fn an_instruction_that_is_no_lead_is_ignored() {
    let grant = only_grant(&document(
        "<?in-line-formulae description=\"x\" end=\"tail\"?><us-claim-statement>c</us-claim-statement>",
    ));
    assert!(grant.descriptions.is_empty());
    assert_eq!(grant.us_claim_statement, "c");
}

#[test]
fn a_lead_without_tail_is_a_malformed_instruction() {
    let feed = format!(
        "{}<us-patent-grant><?DETDESC description=\"Detailed Description\" end=\"lead\"?><p>text</p></us-patent-grant>",
        HEADER
    );
    assert_eq!(only_error(&feed), Error::MalformedPi);
}

#[test]
fn the_later_of_two_sections_of_one_name_wins() {
    let grant = only_grant(&document(
        "<?DETDESC description=\"d\" end=\"lead\"?>earlier<?DETDESC description=\"d\" end=\"tail\"?>\
         <?BRFSUM description=\"b\" end=\"lead\"?>summary<?BRFSUM description=\"b\" end=\"tail\"?>\
         <?DETDESC description=\"d\" end=\"lead\"?>later<?DETDESC description=\"d\" end=\"tail\"?>",
    ));
    assert_eq!(grant.descriptions.get("DETDESC"), Some(&"later".to_string()));
    assert_eq!(grant.descriptions.get("BRFSUM"), Some(&"summary".to_string()));
    assert_eq!(grant.descriptions.len(), 2);
}

#[test]
fn claims_come_in_the_order_of_the_document() {
    let grant = only_grant(&document(
        "<claims id=\"claims\">\n<claim id=\"CLM-00001\" num=\"00001\">\n<claim-text>1. A shoe comprising:\n<claim-text>a sole; and</claim-text>\n<claim-text>an upper.</claim-text>\n</claim-text>\n</claim>\n<claim id=\"CLM-00002\" num=\"00002\">\n<claim-text>2. The shoe of <claim-ref idref=\"CLM-00001\">claim 1</claim-ref>, in red.</claim-text>\n</claim>\n</claims>",
    ));
    assert_eq!(
        grant.claims,
        vec![
            "1. A shoe comprising: a sole; and an upper.".to_string(),
            "2. The shoe of claim 1 , in red.".to_string(),
        ]
    );
}

#[test]
fn a_claim_list_without_claims_is_empty() {
    let grant = only_grant(&document(
        "<claims id=\"claims\"></claims><us-claim-statement>c</us-claim-statement>",
    ));
    assert!(grant.claims.is_empty());
    assert_eq!(grant.us_claim_statement, "c");
}

#[test]
fn a_declaration_without_document_type_is_a_malformed_header() {
    assert_eq!(
        only_error("<?xml version=\"1.0\"?><us-patent-grant></us-patent-grant>"),
        Error::MalformedHeader
    );
    assert_eq!(only_error("<?xml version=\"1.0\"?>"), Error::MalformedHeader);
}

#[test]
fn anything_before_the_declaration_is_a_malformed_header() {
    assert_eq!(
        only_error("<us-patent-grant></us-patent-grant>"),
        Error::MalformedHeader
    );
    assert_eq!(
        only_error("<!DOCTYPE us-patent-grant><?xml version=\"1.0\"?>"),
        Error::MalformedHeader
    );
}

#[test]
fn a_tag_that_is_cut_short_is_a_stream_error() {
    let feed = format!("{}<us-patent-grant><us-claim-statement", HEADER);
    match only_error(&feed) {
        Error::Stream { msg } => assert!(!msg.is_empty()),
        other => panic!("{:?}", other),
    }
}

#[test]
fn a_closing_tag_that_does_not_match_is_a_stream_error() {
    let feed = format!("{}<us-patent-grant><drawings></figures></us-patent-grant>", HEADER);
    match only_error(&feed) {
        Error::Stream { msg } => assert!(!msg.is_empty()),
        other => panic!("{:?}", other),
    }
}

#[test]
fn text_with_an_unknown_entity_is_an_encoding_error() {
    let feed = document("<us-claim-statement>a &bogus; b</us-claim-statement>");
    assert_eq!(only_error(&feed), Error::Encoding);
}

#[test]
fn entities_in_text_are_replaced() {
    let grant = only_grant(&document(
        "<us-claim-statement>Black &amp; Decker &lt;tools&gt;</us-claim-statement>",
    ));
    assert_eq!(grant.us_claim_statement, "Black & Decker <tools>");
}

#[test]
fn the_claim_statement_must_be_plain_text() {
    let feed = document("<us-claim-statement><b>I</b> claim</us-claim-statement>");
    assert_eq!(
        only_error(&feed),
        Error::UnexpectedElement {
            found: "b".to_string(),
            within: "us-claim-statement".to_string(),
        }
    );
}

#[test]
fn reading_stops_at_the_first_failure() {
    let mut feed = document("<us-claim-statement>one</us-claim-statement>");
    feed.push_str("<oops/>");
    feed.push_str(&document("<us-claim-statement>two</us-claim-statement>"));
    let all = read_all(&feed);
    assert_eq!(all.len(), 2);
    assert!(matches!(&all[0], Ok(grant) if grant.us_claim_statement == "one"));
    assert!(matches!(&all[1], Err(Error::MalformedHeader)));
}

#[test]
fn a_long_feed_is_read_document_by_document() {
    let mut feed = String::new();
    for n in 0..500 {
        feed.push_str(&document(&format!(
            "<us-bibliographic-data-grant><invention-title id=\"t\">Title <i>{}</i></invention-title><inventors></inventors></us-bibliographic-data-grant>\
             <?DETDESC description=\"Detailed Description\" end=\"lead\"?><p>text of {}</p><?DETDESC description=\"Detailed Description\" end=\"tail\"?>\
             <claims><claim><claim-text>claim of {}</claim-text></claim></claims>",
            n, n, n
        )));
    }
    let mut grants = PatentGrants::from_bytes(feed.as_bytes());
    for n in 0..500 {
        match grants.next() {
            Some(Ok(grant)) => {
                assert_eq!(
                    grant.us_bibliographic_data_grant.invention_title,
                    format!("Title {}", n)
                );
                assert_eq!(grant.descriptions.get("DETDESC"), Some(&format!("text of {}", n)));
                assert_eq!(grant.claims, vec![format!("claim of {}", n)]);
            }
            _ => panic!("document {} does not read", n),
        }
    }
    assert!(grants.next().is_none());
}

#[test]
fn the_offset_says_where_reading_stands() {
    let first = document("<us-claim-statement>one</us-claim-statement>");
    let feed = format!("{}{}<us-patent-grant><oops", first, HEADER);
    let mut grants = PatentGrants::from_bytes(feed.as_bytes());
    assert_eq!(grants.offset(), Some(0));
    assert!(matches!(grants.next(), Some(Ok(_))));
    assert_eq!(grants.offset(), Some(first.trim_end().len() as u64));
    assert!(matches!(grants.next(), Some(Err(Error::Stream { .. }))));
    assert_eq!(grants.offset(), Some(feed.len() as u64));
    assert_eq!(PatentGrants::from_events(Vec::new()).offset(), None);
}

#[test]
fn a_section_is_named_after_unescaping() {
    let grant = only_grant(&document(
        "<?A&amp;B description=\"x\" end=\"lead\"?>text<?A&amp;B description=\"x\" end=\"tail\"?>",
    ));
    assert_eq!(grant.descriptions.get("A&B"), Some(&"text".to_string()));
}

#[test]
fn an_instruction_that_cannot_be_unescaped_is_malformed_at_the_top_level() {
    assert_eq!(
        only_error(&document("<?S &bogus; end=\"lead\"?>text<?S end=\"tail\"?>")),
        Error::MalformedPi
    );
    let grant = only_grant(&document(
        "<?S end=\"lead\"?>one<?X &bogus; end=\"tail\"?>two<?S end=\"tail\"?>",
    ));
    assert_eq!(grant.descriptions.get("S"), Some(&"one two".to_string()));
}
