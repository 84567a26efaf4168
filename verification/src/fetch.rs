//! What to fetch: the yearly directory listings of the bulk-data site, the
//! file names found in them, and the addresses to get the files from.
//! Getting them is left to the caller.

use vstd::prelude::*;
use vstd::string::StringExecFns;
use std::collections::HashMap;
use std::path::PathBuf;
use crate::strings::{decimal, decimal_of};

verus! {

broadcast use vstd::std_specs::hash::group_hash_axioms;

#[verifier::external_type_specification]
#[verifier::external_body]
pub struct ExPathBuf(PathBuf);

/// The non-overlapping matches of a regular expression in a text, from left
/// to right; `None` where the expression itself is not valid.
pub uninterp spec fn regex_matches(pattern: Seq<char>, text: Seq<char>) -> Option<Seq<Seq<char>>>;

/// `regex::Regex::new` and `regex::Regex::find_iter`, each match as an owned
/// string.
#[verifier::external_body]
fn find_all(pattern: &str, text: &str) -> (found: Option<Vec<String>>)
    ensures
        found.deep_view() == regex_matches(pattern@, text@),
{
    regex::Regex::new(pattern).ok().map(
        |re| re.find_iter(text).map(|m| m.as_str().to_owned()).collect(),
    )
}

/// Where the bulk data lies.
pub open spec fn base_url() -> Seq<char> {
    "https://bulkdata.uspto.gov/data/patent/grant/redbook/bibliographic/"@
}

/// What the name of a weekly file looks like.
pub open spec fn file_name_pattern() -> Seq<char> {
    "ipgb[0-9]{8}_wk[0-9]{2}\\.zip"@
}

/// The address of the directory listing of a year.
pub fn year_listing_url(year: i32) -> (url: String)
    ensures
        url@ == base_url() + decimal_of(year as int),
{
    let mut url = "https://bulkdata.uspto.gov/data/patent/grant/redbook/bibliographic/".to_owned();
    url.append(decimal(year).as_str());
    url
}

/// The address of a weekly file of a year.
pub fn file_week_url(year: i32, file_name: &str) -> (url: String)
    ensures
        url@ == base_url() + decimal_of(year as int) + "/"@ + file_name@,
{
    let mut url = year_listing_url(year);
    url.append("/");
    url.append(file_name);
    url
}

/// The names of the weekly files that a directory listing mentions, in the
/// order of the listing.
pub fn listing_file_names(dir_listing: &str) -> (names: Vec<String>)
    ensures
        names.deep_view() == match regex_matches(file_name_pattern(), dir_listing@) {
            Some(found) => found,
            None => Seq::empty(),
        },
{
    match find_all("ipgb[0-9]{8}_wk[0-9]{2}\\.zip", dir_listing) {
        Some(found) => found,
        None => {
            let none: Vec<String> = Vec::new();
            proof {
                assert(none.deep_view() =~= Seq::empty());
            }
            none
        },
    }
}

/// A plan for fetching the grants of a range of years into a directory.
#[derive(Debug)]
pub struct FetchGrants {
    year_min: i32,
    year_max: i32,
    listings: HashMap<i32, Vec<String>>,
    target: PathBuf,
}

/// The view of [`FetchGrants`].
pub struct FetchGrantsView {
    pub year_min: i32,
    pub year_max: i32,
    /// The file names known for each year.
    pub listings: Map<i32, Seq<Seq<char>>>,
    pub target: PathBuf,
}

impl View for FetchGrants {
    type V = FetchGrantsView;

    closed spec fn view(&self) -> FetchGrantsView {
        FetchGrantsView {
            year_min: self.year_min,
            year_max: self.year_max,
            listings: self.listings@.map_values(|names: Vec<String>| names.deep_view()),
            target: self.target,
        }
    }
}

/// What a year's listing is once `names` are added to it.
pub open spec fn listing_with(
    listings: Map<i32, Seq<Seq<char>>>,
    year: i32,
    names: Seq<Seq<char>>,
) -> Seq<Seq<char>> {
    if listings.contains_key(year) {
        listings[year] + names
    } else {
        names
    }
}

impl FetchGrants {
    /// A plan for the years from `year_min` to `year_max`, with no listing
    /// known yet.
    pub fn new(year_min: i32, year_max: i32, target_dir: PathBuf) -> (plan: Self)
        ensures
            plan@ == (FetchGrantsView {
                year_min,
                year_max,
                listings: Map::empty(),
                target: target_dir,
            }),
    {
        let plan = FetchGrants { year_min, year_max, listings: HashMap::new(), target: target_dir };
        proof {
            assert(plan.listings@.map_values(|names: Vec<String>| names.deep_view())
                =~= Map::empty());
        }
        plan
    }

    /// The first year of the plan.
    pub fn year_min(&self) -> (year: i32)
        ensures
            year == self@.year_min,
    {
        self.year_min
    }

    /// The last year of the plan.
    pub fn year_max(&self) -> (year: i32)
        ensures
            year == self@.year_max,
    {
        self.year_max
    }

    /// The directory that the files go to.
    pub fn target(&self) -> (dir: &PathBuf)
        ensures
            *dir == self@.target,
    {
        &self.target
    }

    /// Adds the file names of a directory listing to what is known of `year`.
    pub fn add_listing(&mut self, year: i32, names: Vec<String>)
        ensures
            final(self)@ == (FetchGrantsView {
                listings: old(self)@.listings.insert(
                    year,
                    listing_with(old(self)@.listings, year, names.deep_view()),
                ),
                ..old(self)@
            }),
    {
        let ghost before = self.listings@;
        let mut names = names;
        let ghost added = names.deep_view();
        let mut listing = match self.listings.remove(&year) {
            Some(known) => known,
            None => Vec::new(),
        };
        let ghost known = listing.deep_view();
        listing.append(&mut names);
        proof {
            assert(listing.deep_view() =~= known + added);
            if before.contains_key(year) {
                assert(known == before[year].deep_view());
            } else {
                assert(known =~= Seq::empty());
                assert(listing.deep_view() =~= added);
            }
        }
        self.listings.insert(year, listing);
        proof {
            assert(self.listings@.map_values(|names: Vec<String>| names.deep_view())
                =~= before.map_values(|names: Vec<String>| names.deep_view()).insert(
                year,
                listing.deep_view(),
            ));
        }
    }

    /// The file names known for `year`; `None` where no listing of that year
    /// was added.
    pub fn listing(&self, year: i32) -> (names: Option<&Vec<String>>)
        ensures
            match names {
                Some(names) => self@.listings.contains_key(year) && names.deep_view()
                    == self@.listings[year],
                None => !self@.listings.contains_key(year),
            },
    {
        self.listings.get(&year)
    }
}

} // verus!
