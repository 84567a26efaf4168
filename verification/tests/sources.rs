use std::io::Write;
use std::path::PathBuf;
use uspto::container::{check_single_member, unzip};
use uspto::fetch::{file_week_url, listing_file_names, year_listing_url, FetchGrants};
use uspto::{Error, PatentGrants, Source};

fn archive(members: &[(&str, &str)]) -> Vec<u8> {
    let mut writer = zip::ZipWriter::new(std::io::Cursor::new(Vec::new()));
    for (name, content) in members {
        writer.start_file(*name, zip::write::FileOptions::default()).unwrap();
        writer.write_all(content.as_bytes()).unwrap();
    }
    writer.finish().unwrap().into_inner()
}

const FEED: &str = "<?xml version=\"1.0\"?><!DOCTYPE us-patent-grant><us-patent-grant><us-claim-statement>I claim</us-claim-statement></us-patent-grant>";

#[test]
fn a_container_with_two_members_is_refused() {
    let bytes = archive(&[("a.xml", FEED), ("b.xml", "not even markup")]);
    assert_eq!(unzip(&bytes), Err(Error::ContainerShape { members: 2 }));
    assert_eq!(Source::Zip(bytes).into_feed(), Err(Error::ContainerShape { members: 2 }));
}

#[test]
fn a_container_without_members_is_refused() {
    let bytes = archive(&[]);
    assert_eq!(unzip(&bytes), Err(Error::ContainerShape { members: 0 }));
}

#[test]
fn a_container_with_one_member_gives_the_feed() {
    let bytes = archive(&[("ipgb20190101_wk01.xml", FEED)]);
    let feed = Source::Zip(bytes).into_feed().unwrap();
    assert_eq!(feed, FEED.as_bytes());
    let mut grants = PatentGrants::from_bytes(&feed);
    match grants.next() {
        Some(Ok(grant)) => assert_eq!(grant.us_claim_statement, "I claim"),
        _ => panic!("the feed does not read"),
    }
    assert!(grants.next().is_none());
}

#[test]
fn bytes_that_are_no_container_are_a_stream_error() {
    match unzip(FEED.as_bytes()) {
        Err(Error::Stream { msg }) => assert!(!msg.is_empty()),
        other => panic!("{:?}", other),
    }
}

#[test]
fn a_plain_source_is_its_own_feed() {
    assert_eq!(Source::UnZipped(FEED.as_bytes().to_vec()).into_feed(), Ok(FEED.as_bytes().to_vec()));
}

#[test]
fn only_one_member_passes() {
    assert_eq!(check_single_member(1), Ok(()));
    assert_eq!(check_single_member(0), Err(Error::ContainerShape { members: 0 }));
    assert_eq!(check_single_member(7), Err(Error::ContainerShape { members: 7 }));
}

#[test]
fn file_names_are_found_in_a_listing() {
    let listing = "<tr><td><a href=\"ipgb20190101_wk01.zip\">ipgb20190101_wk01.zip</a></td></tr>\n\
                   <tr><td><a href=\"ipgb20190108_wk02.zip\">x</a></td><td>ipgb2019_wk02.zip ipgb20190115_wk03_r1.zip</td></tr>";
    assert_eq!(
        listing_file_names(listing),
        vec![
            "ipgb20190101_wk01.zip".to_string(),
            "ipgb20190101_wk01.zip".to_string(),
            "ipgb20190108_wk02.zip".to_string(),
        ]
    );
    assert!(listing_file_names("nothing here").is_empty());
}

#[test]
fn addresses_of_listings_and_files() {
    assert_eq!(
        year_listing_url(2019),
        "https://bulkdata.uspto.gov/data/patent/grant/redbook/bibliographic/2019"
    );
    assert_eq!(
        file_week_url(1976, "ipgb19760106_wk01.zip"),
        "https://bulkdata.uspto.gov/data/patent/grant/redbook/bibliographic/1976/ipgb19760106_wk01.zip"
    );
    assert_eq!(
        year_listing_url(-5),
        "https://bulkdata.uspto.gov/data/patent/grant/redbook/bibliographic/-5"
    );
}

#[test]
fn a_plan_keeps_the_listings_by_year() {
    let mut plan = FetchGrants::new(2018, 2019, PathBuf::from("/tmp/grants"));
    assert_eq!(plan.year_min(), 2018);
    assert_eq!(plan.year_max(), 2019);
    assert_eq!(plan.target(), &PathBuf::from("/tmp/grants"));
    assert_eq!(plan.listing(2018), None);
    plan.add_listing(2018, vec!["a.zip".to_string()]);
    plan.add_listing(2019, Vec::new());
    plan.add_listing(2018, vec!["b.zip".to_string(), "c.zip".to_string()]);
    assert_eq!(
        plan.listing(2018),
        Some(&vec!["a.zip".to_string(), "b.zip".to_string(), "c.zip".to_string()])
    );
    assert_eq!(plan.listing(2019), Some(&Vec::new()));
    assert_eq!(plan.listing(2020), None);
}

/// A container with one stored, empty member `a`, whose central header has
/// `extra` for its extra field.
fn archive_with_extra_field(extra: &[u8]) -> Vec<u8> {
    let mut bytes = Vec::new();
    // local file header
    bytes.extend_from_slice(&[0x50, 0x4b, 0x03, 0x04, 20, 0, 0, 0, 0, 0, 0, 0, 0x21, 0]);
    bytes.extend_from_slice(&[0; 12]); // checksum and sizes
    bytes.extend_from_slice(&[1, 0, 0, 0, b'a']);
    let central = bytes.len() as u32;
    // central directory header
    bytes.extend_from_slice(&[0x50, 0x4b, 0x01, 0x02, 20, 0, 20, 0, 0, 0, 0, 0, 0, 0, 0x21, 0]);
    bytes.extend_from_slice(&[0; 12]); // checksum and sizes
    bytes.extend_from_slice(&[1, 0, extra.len() as u8, 0, 0, 0, 0, 0, 0, 0]);
    bytes.extend_from_slice(&[0; 8]); // attributes and the offset of the local header
    bytes.push(b'a');
    bytes.extend_from_slice(extra);
    let size = bytes.len() as u32 - central;
    // end of central directory
    bytes.extend_from_slice(&[0x50, 0x4b, 0x05, 0x06, 0, 0, 0, 0, 1, 0, 1, 0]);
    bytes.extend_from_slice(&size.to_le_bytes());
    bytes.extend_from_slice(&central.to_le_bytes());
    bytes.extend_from_slice(&[0, 0]);
    bytes
}

#[test]
fn a_member_with_a_plain_extra_field_is_read() {
    let bytes = archive_with_extra_field(&[0x34, 0x12, 2, 0, 7, 7]);
    assert_eq!(unzip(&bytes), Ok(Vec::new()));
}

#[test]
fn a_member_marked_for_a_cipher_but_not_encrypted_is_a_stream_error() {
    // the extra field of the AES cipher, on a member whose flags say that it
    // is not encrypted
    let bytes = archive_with_extra_field(&[0x01, 0x99, 7, 0, 2, 0, 0x41, 0x45, 3, 0, 0]);
    match unzip(&bytes) {
        Err(Error::Stream { msg }) => assert!(msg.contains("password"), "{}", msg),
        other => panic!("{:?}", other),
    }
    assert!(matches!(Source::Zip(bytes).into_feed(), Err(Error::Stream { .. })));
}
