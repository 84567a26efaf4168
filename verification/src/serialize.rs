//! The flat row that a grant is exported as.

use vstd::prelude::*;
use crate::data::{AssigneeView, InventorView, PatentGrant, PatentGrantView};

verus! {

/// One row of the export: what a table of grants keeps of a grant.
#[derive(Debug, Clone, PartialEq, Eq)]
pub struct PatentOutput {
    pub id: String,
    pub date: String,
    pub country_inventor: Vec<String>,
    pub country_assignee: Vec<String>,
    pub classification_locarno: String,
    pub classification_national: String,
}

/// The view of a [`PatentOutput`].
pub struct PatentOutputView {
    pub id: Seq<char>,
    pub date: Seq<char>,
    pub country_inventor: Seq<Seq<char>>,
    pub country_assignee: Seq<Seq<char>>,
    pub classification_locarno: Seq<char>,
    pub classification_national: Seq<char>,
}

impl DeepView for PatentOutput {
    type V = PatentOutputView;

    open spec fn deep_view(&self) -> PatentOutputView {
        PatentOutputView {
            id: self.id@,
            date: self.date@,
            country_inventor: self.country_inventor.deep_view(),
            country_assignee: self.country_assignee.deep_view(),
            classification_locarno: self.classification_locarno@,
            classification_national: self.classification_national@,
        }
    }
}

/// The countries of the inventors whose address gives one, in order.
pub open spec fn inventor_countries(inventors: Seq<InventorView>) -> Seq<Seq<char>>
    decreases inventors.len(),
{
    if inventors.len() == 0 {
        Seq::empty()
    } else {
        let before = inventor_countries(inventors.drop_last());
        match inventors.last().addressbook.address.country {
            Some(country) => before.push(country),
            None => before,
        }
    }
}

/// The countries of the assignees whose address gives one, in order.
pub open spec fn assignee_countries(assignees: Seq<AssigneeView>) -> Seq<Seq<char>>
    decreases assignees.len(),
{
    if assignees.len() == 0 {
        Seq::empty()
    } else {
        let before = assignee_countries(assignees.drop_last());
        match assignees.last().addressbook.address.country {
            Some(country) => before.push(country),
            None => before,
        }
    }
}

/// The row of a grant: number and date of its publication, the countries of
/// its inventors and assignees, and its main classes.
pub open spec fn output_of(grant: PatentGrantView) -> PatentOutputView {
    let biblio = grant.us_bibliographic_data_grant;
    PatentOutputView {
        id: biblio.publication_reference.doc_number,
        date: biblio.publication_reference.date,
        country_inventor: inventor_countries(biblio.inventors),
        country_assignee: assignee_countries(biblio.assignees),
        classification_locarno: biblio.classification_locarno.main_classification,
        classification_national: biblio.classification_national.main_classification,
    }
}

impl PatentOutput {
    /// The row of a grant.
    pub fn from(pg: &PatentGrant) -> (row: Self)
        ensures
            row.deep_view() == output_of(pg.deep_view()),
    {
        let dg = &pg.us_bibliographic_data_grant;
        let mut country_inventor: Vec<String> = Vec::new();
        let mut i: usize = 0;
        proof {
            assert(dg.inventors.deep_view().take(0) =~= Seq::empty());
            assert(country_inventor.deep_view() =~= Seq::empty());
        }
        while i < dg.inventors.len()
            invariant
                i <= dg.inventors.len(),
                country_inventor.deep_view() == inventor_countries(
                    dg.inventors.deep_view().take(i as int),
                ),
            decreases dg.inventors.len() - i,
        {
            let ghost upto = dg.inventors.deep_view().take(i + 1);
            proof {
                assert(upto.drop_last() =~= dg.inventors.deep_view().take(i as int));
                assert(upto.last() == dg.inventors[i as int].deep_view());
            }
            match &dg.inventors[i].addressbook.address.country {
                Some(country) => {
                    let ghost before = country_inventor.deep_view();
                    country_inventor.push(country.clone());
                    proof {
                        assert(country_inventor.deep_view() =~= before.push(country@));
                    }
                },
                None => {},
            }
            i = i + 1;
        }
        let mut country_assignee: Vec<String> = Vec::new();
        let mut j: usize = 0;
        proof {
            assert(dg.inventors.deep_view().take(i as int) =~= dg.inventors.deep_view());
            assert(dg.assignees.deep_view().take(0) =~= Seq::empty());
            assert(country_assignee.deep_view() =~= Seq::empty());
        }
        while j < dg.assignees.len()
            invariant
                j <= dg.assignees.len(),
                country_assignee.deep_view() == assignee_countries(
                    dg.assignees.deep_view().take(j as int),
                ),
            decreases dg.assignees.len() - j,
        {
            let ghost upto = dg.assignees.deep_view().take(j + 1);
            proof {
                assert(upto.drop_last() =~= dg.assignees.deep_view().take(j as int));
                assert(upto.last() == dg.assignees[j as int].deep_view());
            }
            match &dg.assignees[j].addressbook.address.country {
                Some(country) => {
                    let ghost before = country_assignee.deep_view();
                    country_assignee.push(country.clone());
                    proof {
                        assert(country_assignee.deep_view() =~= before.push(country@));
                    }
                },
                None => {},
            }
            j = j + 1;
        }
        proof {
            assert(dg.assignees.deep_view().take(j as int) =~= dg.assignees.deep_view());
        }
        PatentOutput {
            id: dg.publication_reference.doc_number.clone(),
            date: dg.publication_reference.date.clone(),
            country_inventor,
            country_assignee,
            classification_locarno: dg.classification_locarno.main_classification.clone(),
            classification_national: dg.classification_national.main_classification.clone(),
        }
    }
}

} // verus!
