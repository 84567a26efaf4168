//! The records that a feed is read into, and their mathematical views.
//!
//! Every record type has a view of the same shape, in which text is a
//! sequence of characters and a list is a sequence. Contracts speak of views.

use vstd::prelude::*;
use crate::descriptions::Descriptions;

verus! {

/// A document identifier: publication or application reference.
#[derive(Debug, Clone, PartialEq, Eq)]
pub struct DocumentId {
    pub country: String,
    pub doc_number: String,
    pub kind: Option<String>,
    pub date: String,
}

/// The view of [`DocumentId`].
pub struct DocumentIdView {
    pub country: Seq<char>,
    pub doc_number: Seq<char>,
    pub kind: Option<Seq<char>>,
    pub date: Seq<char>,
}

impl DocumentIdView {
    /// The view of a record that holds nothing yet.
    pub open spec fn empty() -> Self {
        DocumentIdView {
            country: Seq::empty(),
            doc_number: Seq::empty(),
            kind: None,
            date: Seq::empty(),
        }
    }
}

impl DeepView for DocumentId {
    type V = DocumentIdView;

    open spec fn deep_view(&self) -> DocumentIdView {
        DocumentIdView {
            country: self.country@,
            doc_number: self.doc_number@,
            kind: self.kind.deep_view(),
            date: self.date@,
        }
    }
}

impl Default for DocumentId {
    fn default() -> (record: Self)
        ensures
            record.deep_view() == DocumentIdView::empty(),
    {
        let record = DocumentId {
            country: String::new(),
            doc_number: String::new(),
            kind: None,
            date: String::new(),
        };
        record
    }
}

/// A Locarno classification.
#[derive(Debug, Clone, PartialEq, Eq)]
pub struct ClassificationLocarno {
    pub edition: String,
    pub main_classification: String,
}

/// The view of [`ClassificationLocarno`].
pub struct ClassificationLocarnoView {
    pub edition: Seq<char>,
    pub main_classification: Seq<char>,
}

impl ClassificationLocarnoView {
    /// The view of a record that holds nothing yet.
    pub open spec fn empty() -> Self {
        ClassificationLocarnoView {
            edition: Seq::empty(),
            main_classification: Seq::empty(),
        }
    }
}

impl DeepView for ClassificationLocarno {
    type V = ClassificationLocarnoView;

    open spec fn deep_view(&self) -> ClassificationLocarnoView {
        ClassificationLocarnoView {
            edition: self.edition@,
            main_classification: self.main_classification@,
        }
    }
}

impl Default for ClassificationLocarno {
    fn default() -> (record: Self)
        ensures
            record.deep_view() == ClassificationLocarnoView::empty(),
    {
        let record = ClassificationLocarno {
            edition: String::new(),
            main_classification: String::new(),
        };
        record
    }
}

/// A national classification.
#[derive(Debug, Clone, PartialEq, Eq)]
pub struct ClassificationNational {
    pub country: String,
    pub additional_info: String,
    pub main_classification: String,
    pub further_classification: Option<String>,
}

/// The view of [`ClassificationNational`].
pub struct ClassificationNationalView {
    pub country: Seq<char>,
    pub additional_info: Seq<char>,
    pub main_classification: Seq<char>,
    pub further_classification: Option<Seq<char>>,
}

impl ClassificationNationalView {
    /// The view of a record that holds nothing yet.
    pub open spec fn empty() -> Self {
        ClassificationNationalView {
            country: Seq::empty(),
            additional_info: Seq::empty(),
            main_classification: Seq::empty(),
            further_classification: None,
        }
    }
}

impl DeepView for ClassificationNational {
    type V = ClassificationNationalView;

    open spec fn deep_view(&self) -> ClassificationNationalView {
        ClassificationNationalView {
            country: self.country@,
            additional_info: self.additional_info@,
            main_classification: self.main_classification@,
            further_classification: self.further_classification.deep_view(),
        }
    }
}

impl Default for ClassificationNational {
    fn default() -> (record: Self)
        ensures
            record.deep_view() == ClassificationNationalView::empty(),
    {
        let record = ClassificationNational {
            country: String::new(),
            additional_info: String::new(),
            main_classification: String::new(),
            further_classification: None,
        };
        record
    }
}

/// The field-of-classification-search block.
#[derive(Debug, Clone, PartialEq, Eq)]
pub struct UsFieldOfClassificationSearch {
    pub classification_nationals: Vec<ClassificationNational>,
    pub classification_cpc_texts: Vec<String>,
    pub classification_cpc_combination_texts: Vec<String>,
}

/// The view of [`UsFieldOfClassificationSearch`].
pub struct UsFieldOfClassificationSearchView {
    pub classification_nationals: Seq<ClassificationNationalView>,
    pub classification_cpc_texts: Seq<Seq<char>>,
    pub classification_cpc_combination_texts: Seq<Seq<char>>,
}

impl UsFieldOfClassificationSearchView {
    /// The view of a record that holds nothing yet.
    pub open spec fn empty() -> Self {
        UsFieldOfClassificationSearchView {
            classification_nationals: Seq::empty(),
            classification_cpc_texts: Seq::empty(),
            classification_cpc_combination_texts: Seq::empty(),
        }
    }
}

impl DeepView for UsFieldOfClassificationSearch {
    type V = UsFieldOfClassificationSearchView;

    open spec fn deep_view(&self) -> UsFieldOfClassificationSearchView {
        UsFieldOfClassificationSearchView {
            classification_nationals: self.classification_nationals.deep_view(),
            classification_cpc_texts: self.classification_cpc_texts.deep_view(),
            classification_cpc_combination_texts:
                self.classification_cpc_combination_texts.deep_view(),
        }
    }
}

impl Default for UsFieldOfClassificationSearch {
    fn default() -> (record: Self)
        ensures
            record.deep_view() == UsFieldOfClassificationSearchView::empty(),
    {
        let record = UsFieldOfClassificationSearch {
            classification_nationals: Vec::new(),
            classification_cpc_texts: Vec::new(),
            classification_cpc_combination_texts: Vec::new(),
        };
        assert(record.classification_nationals.deep_view() =~= Seq::empty());
        assert(record.classification_cpc_texts.deep_view() =~= Seq::empty());
        assert(record.classification_cpc_combination_texts.deep_view() =~= Seq::empty());
        record
    }
}

/// A postal address, as far as the feed gives one.
#[derive(Debug, Clone, PartialEq, Eq)]
pub struct Address {
    pub city: Option<String>,
    pub state: Option<String>,
    pub country: Option<String>,
}

/// The view of [`Address`].
pub struct AddressView {
    pub city: Option<Seq<char>>,
    pub state: Option<Seq<char>>,
    pub country: Option<Seq<char>>,
}

impl AddressView {
    /// The view of a record that holds nothing yet.
    pub open spec fn empty() -> Self {
        AddressView {
            city: None,
            state: None,
            country: None,
        }
    }
}

impl DeepView for Address {
    type V = AddressView;

    open spec fn deep_view(&self) -> AddressView {
        AddressView {
            city: self.city.deep_view(),
            state: self.state.deep_view(),
            country: self.country.deep_view(),
        }
    }
}

impl Default for Address {
    fn default() -> (record: Self)
        ensures
            record.deep_view() == AddressView::empty(),
    {
        let record = Address {
            city: None,
            state: None,
            country: None,
        };
        record
    }
}

/// Name, organization, role and address of a party.
#[derive(Debug, Clone, PartialEq, Eq)]
pub struct AddressBook {
    pub orgname: Option<String>,
    pub first_name: Option<String>,
    pub last_name: Option<String>,
    pub role: Option<String>,
    pub address: Address,
}

/// The view of [`AddressBook`].
pub struct AddressBookView {
    pub orgname: Option<Seq<char>>,
    pub first_name: Option<Seq<char>>,
    pub last_name: Option<Seq<char>>,
    pub role: Option<Seq<char>>,
    pub address: AddressView,
}

impl AddressBookView {
    /// The view of a record that holds nothing yet.
    pub open spec fn empty() -> Self {
        AddressBookView {
            orgname: None,
            first_name: None,
            last_name: None,
            role: None,
            address: AddressView::empty(),
        }
    }
}

impl DeepView for AddressBook {
    type V = AddressBookView;

    open spec fn deep_view(&self) -> AddressBookView {
        AddressBookView {
            orgname: self.orgname.deep_view(),
            first_name: self.first_name.deep_view(),
            last_name: self.last_name.deep_view(),
            role: self.role.deep_view(),
            address: self.address.deep_view(),
        }
    }
}

impl Default for AddressBook {
    fn default() -> (record: Self)
        ensures
            record.deep_view() == AddressBookView::empty(),
    {
        let record = AddressBook {
            orgname: None,
            first_name: None,
            last_name: None,
            role: None,
            address: Address::default(),
        };
        record
    }
}

/// An applicant.
#[derive(Debug, Clone, PartialEq, Eq)]
pub struct UsApplicant {
    pub sequence: String,
    pub app_type: String,
    pub designation: String,
    pub applicant_authority_category: Option<String>,
    pub addressbook: AddressBook,
    pub residence: Option<String>,
}

/// The view of [`UsApplicant`].
pub struct UsApplicantView {
    pub sequence: Seq<char>,
    pub app_type: Seq<char>,
    pub designation: Seq<char>,
    pub applicant_authority_category: Option<Seq<char>>,
    pub addressbook: AddressBookView,
    pub residence: Option<Seq<char>>,
}

impl UsApplicantView {
    /// The view of a record that holds nothing yet.
    pub open spec fn empty() -> Self {
        UsApplicantView {
            sequence: Seq::empty(),
            app_type: Seq::empty(),
            designation: Seq::empty(),
            applicant_authority_category: None,
            addressbook: AddressBookView::empty(),
            residence: None,
        }
    }
}

impl DeepView for UsApplicant {
    type V = UsApplicantView;

    open spec fn deep_view(&self) -> UsApplicantView {
        UsApplicantView {
            sequence: self.sequence@,
            app_type: self.app_type@,
            designation: self.designation@,
            applicant_authority_category: self.applicant_authority_category.deep_view(),
            addressbook: self.addressbook.deep_view(),
            residence: self.residence.deep_view(),
        }
    }
}

impl Default for UsApplicant {
    fn default() -> (record: Self)
        ensures
            record.deep_view() == UsApplicantView::empty(),
    {
        let record = UsApplicant {
            sequence: String::new(),
            app_type: String::new(),
            designation: String::new(),
            applicant_authority_category: None,
            addressbook: AddressBook::default(),
            residence: None,
        };
        record
    }
}

/// An inventor.
#[derive(Debug, Clone, PartialEq, Eq)]
pub struct Inventor {
    pub sequence: String,
    pub designation: String,
    pub addressbook: AddressBook,
}

/// The view of [`Inventor`].
pub struct InventorView {
    pub sequence: Seq<char>,
    pub designation: Seq<char>,
    pub addressbook: AddressBookView,
}

impl InventorView {
    /// The view of a record that holds nothing yet.
    pub open spec fn empty() -> Self {
        InventorView {
            sequence: Seq::empty(),
            designation: Seq::empty(),
            addressbook: AddressBookView::empty(),
        }
    }
}

impl DeepView for Inventor {
    type V = InventorView;

    open spec fn deep_view(&self) -> InventorView {
        InventorView {
            sequence: self.sequence@,
            designation: self.designation@,
            addressbook: self.addressbook.deep_view(),
        }
    }
}

impl Default for Inventor {
    fn default() -> (record: Self)
        ensures
            record.deep_view() == InventorView::empty(),
    {
        let record = Inventor {
            sequence: String::new(),
            designation: String::new(),
            addressbook: AddressBook::default(),
        };
        record
    }
}

/// An agent.
#[derive(Debug, Clone, PartialEq, Eq)]
pub struct Agent {
    pub sequence: String,
    pub rep_type: String,
    pub addressbook: AddressBook,
}

/// The view of [`Agent`].
pub struct AgentView {
    pub sequence: Seq<char>,
    pub rep_type: Seq<char>,
    pub addressbook: AddressBookView,
}

impl AgentView {
    /// The view of a record that holds nothing yet.
    pub open spec fn empty() -> Self {
        AgentView {
            sequence: Seq::empty(),
            rep_type: Seq::empty(),
            addressbook: AddressBookView::empty(),
        }
    }
}

impl DeepView for Agent {
    type V = AgentView;

    open spec fn deep_view(&self) -> AgentView {
        AgentView {
            sequence: self.sequence@,
            rep_type: self.rep_type@,
            addressbook: self.addressbook.deep_view(),
        }
    }
}

impl Default for Agent {
    fn default() -> (record: Self)
        ensures
            record.deep_view() == AgentView::empty(),
    {
        let record = Agent {
            sequence: String::new(),
            rep_type: String::new(),
            addressbook: AddressBook::default(),
        };
        record
    }
}

/// An assignee.
#[derive(Debug, Clone, PartialEq, Eq)]
pub struct Assignee {
    pub orgname: Option<String>,
    pub role: Option<String>,
    pub addressbook: AddressBook,
}

/// The view of [`Assignee`].
pub struct AssigneeView {
    pub orgname: Option<Seq<char>>,
    pub role: Option<Seq<char>>,
    pub addressbook: AddressBookView,
}

impl AssigneeView {
    /// The view of a record that holds nothing yet.
    pub open spec fn empty() -> Self {
        AssigneeView {
            orgname: None,
            role: None,
            addressbook: AddressBookView::empty(),
        }
    }
}

impl DeepView for Assignee {
    type V = AssigneeView;

    open spec fn deep_view(&self) -> AssigneeView {
        AssigneeView {
            orgname: self.orgname.deep_view(),
            role: self.role.deep_view(),
            addressbook: self.addressbook.deep_view(),
        }
    }
}

impl Default for Assignee {
    fn default() -> (record: Self)
        ensures
            record.deep_view() == AssigneeView::empty(),
    {
        let record = Assignee {
            orgname: None,
            role: None,
            addressbook: AddressBook::default(),
        };
        record
    }
}

/// An examiner.
#[derive(Debug, Clone, PartialEq, Eq)]
pub struct Examiner {
    pub first_name: String,
    pub last_name: String,
    pub department: Option<String>,
}

/// The view of [`Examiner`].
pub struct ExaminerView {
    pub first_name: Seq<char>,
    pub last_name: Seq<char>,
    pub department: Option<Seq<char>>,
}

impl ExaminerView {
    /// The view of a record that holds nothing yet.
    pub open spec fn empty() -> Self {
        ExaminerView {
            first_name: Seq::empty(),
            last_name: Seq::empty(),
            department: None,
        }
    }
}

impl DeepView for Examiner {
    type V = ExaminerView;

    open spec fn deep_view(&self) -> ExaminerView {
        ExaminerView {
            first_name: self.first_name@,
            last_name: self.last_name@,
            department: self.department.deep_view(),
        }
    }
}

impl Default for Examiner {
    fn default() -> (record: Self)
        ensures
            record.deep_view() == ExaminerView::empty(),
    {
        let record = Examiner {
            first_name: String::new(),
            last_name: String::new(),
            department: None,
        };
        record
    }
}

/// The examiners of a grant.
#[derive(Debug, Clone, PartialEq, Eq)]
pub struct Examiners {
    pub primary_examiner: Examiner,
    pub assistant_examiner: Examiner,
}

/// The view of [`Examiners`].
pub struct ExaminersView {
    pub primary_examiner: ExaminerView,
    pub assistant_examiner: ExaminerView,
}

impl ExaminersView {
    /// The view of a record that holds nothing yet.
    pub open spec fn empty() -> Self {
        ExaminersView {
            primary_examiner: ExaminerView::empty(),
            assistant_examiner: ExaminerView::empty(),
        }
    }
}

impl DeepView for Examiners {
    type V = ExaminersView;

    open spec fn deep_view(&self) -> ExaminersView {
        ExaminersView {
            primary_examiner: self.primary_examiner.deep_view(),
            assistant_examiner: self.assistant_examiner.deep_view(),
        }
    }
}

impl Default for Examiners {
    fn default() -> (record: Self)
        ensures
            record.deep_view() == ExaminersView::empty(),
    {
        let record = Examiners {
            primary_examiner: Examiner::default(),
            assistant_examiner: Examiner::default(),
        };
        record
    }
}

/// The bibliographic block of a grant.
#[derive(Debug, Clone, PartialEq, Eq)]
pub struct BibliographicDataGrant {
    pub publication_reference: DocumentId,
    pub application_reference: DocumentId,
    pub us_application_series_code: String,
    pub us_term_of_grant: String,
    pub classification_locarno: ClassificationLocarno,
    pub classification_national: ClassificationNational,
    pub invention_title: String,
    pub number_of_claims: String,
    pub us_exemplary_claim: String,
    pub us_field_of_classification_search: UsFieldOfClassificationSearch,
    pub us_applicants: Vec<UsApplicant>,
    pub inventors: Vec<Inventor>,
    pub agents: Vec<Agent>,
    pub assignees: Vec<Assignee>,
    pub examiners: Examiners,
}

/// The view of [`BibliographicDataGrant`].
pub struct BibliographicDataGrantView {
    pub publication_reference: DocumentIdView,
    pub application_reference: DocumentIdView,
    pub us_application_series_code: Seq<char>,
    pub us_term_of_grant: Seq<char>,
    pub classification_locarno: ClassificationLocarnoView,
    pub classification_national: ClassificationNationalView,
    pub invention_title: Seq<char>,
    pub number_of_claims: Seq<char>,
    pub us_exemplary_claim: Seq<char>,
    pub us_field_of_classification_search: UsFieldOfClassificationSearchView,
    pub us_applicants: Seq<UsApplicantView>,
    pub inventors: Seq<InventorView>,
    pub agents: Seq<AgentView>,
    pub assignees: Seq<AssigneeView>,
    pub examiners: ExaminersView,
}

impl BibliographicDataGrantView {
    /// The view of a record that holds nothing yet.
    pub open spec fn empty() -> Self {
        BibliographicDataGrantView {
            publication_reference: DocumentIdView::empty(),
            application_reference: DocumentIdView::empty(),
            us_application_series_code: Seq::empty(),
            us_term_of_grant: Seq::empty(),
            classification_locarno: ClassificationLocarnoView::empty(),
            classification_national: ClassificationNationalView::empty(),
            invention_title: Seq::empty(),
            number_of_claims: Seq::empty(),
            us_exemplary_claim: Seq::empty(),
            us_field_of_classification_search: UsFieldOfClassificationSearchView::empty(),
            us_applicants: Seq::empty(),
            inventors: Seq::empty(),
            agents: Seq::empty(),
            assignees: Seq::empty(),
            examiners: ExaminersView::empty(),
        }
    }
}

impl DeepView for BibliographicDataGrant {
    type V = BibliographicDataGrantView;

    open spec fn deep_view(&self) -> BibliographicDataGrantView {
        BibliographicDataGrantView {
            publication_reference: self.publication_reference.deep_view(),
            application_reference: self.application_reference.deep_view(),
            us_application_series_code: self.us_application_series_code@,
            us_term_of_grant: self.us_term_of_grant@,
            classification_locarno: self.classification_locarno.deep_view(),
            classification_national: self.classification_national.deep_view(),
            invention_title: self.invention_title@,
            number_of_claims: self.number_of_claims@,
            us_exemplary_claim: self.us_exemplary_claim@,
            us_field_of_classification_search: self.us_field_of_classification_search.deep_view(),
            us_applicants: self.us_applicants.deep_view(),
            inventors: self.inventors.deep_view(),
            agents: self.agents.deep_view(),
            assignees: self.assignees.deep_view(),
            examiners: self.examiners.deep_view(),
        }
    }
}

impl Default for BibliographicDataGrant {
    fn default() -> (record: Self)
        ensures
            record.deep_view() == BibliographicDataGrantView::empty(),
    {
        let record = BibliographicDataGrant {
            publication_reference: DocumentId::default(),
            application_reference: DocumentId::default(),
            us_application_series_code: String::new(),
            us_term_of_grant: String::new(),
            classification_locarno: ClassificationLocarno::default(),
            classification_national: ClassificationNational::default(),
            invention_title: String::new(),
            number_of_claims: String::new(),
            us_exemplary_claim: String::new(),
            us_field_of_classification_search: UsFieldOfClassificationSearch::default(),
            us_applicants: Vec::new(),
            inventors: Vec::new(),
            agents: Vec::new(),
            assignees: Vec::new(),
            examiners: Examiners::default(),
        };
        assert(record.us_applicants.deep_view() =~= Seq::empty());
        assert(record.inventors.deep_view() =~= Seq::empty());
        assert(record.agents.deep_view() =~= Seq::empty());
        assert(record.assignees.deep_view() =~= Seq::empty());
        record
    }
}

/// One grant: the unit that a feed is read into.
#[derive(Debug, Clone, PartialEq, Eq)]
pub struct PatentGrant {
    pub us_bibliographic_data_grant: BibliographicDataGrant,
    /// The free-text sections, by section name.
    pub descriptions: Descriptions,
    pub us_claim_statement: String,
    pub claims: Vec<String>,
}

/// The view of [`PatentGrant`].
pub struct PatentGrantView {
    pub us_bibliographic_data_grant: BibliographicDataGrantView,
    pub descriptions: Map<Seq<char>, Seq<char>>,
    pub us_claim_statement: Seq<char>,
    pub claims: Seq<Seq<char>>,
}

impl PatentGrantView {
    /// The view of a record that holds nothing yet.
    pub open spec fn empty() -> Self {
        PatentGrantView {
            us_bibliographic_data_grant: BibliographicDataGrantView::empty(),
            descriptions: Map::empty(),
            us_claim_statement: Seq::empty(),
            claims: Seq::empty(),
        }
    }
}

impl DeepView for PatentGrant {
    type V = PatentGrantView;

    open spec fn deep_view(&self) -> PatentGrantView {
        PatentGrantView {
            us_bibliographic_data_grant: self.us_bibliographic_data_grant.deep_view(),
            descriptions: self.descriptions@,
            us_claim_statement: self.us_claim_statement@,
            claims: self.claims.deep_view(),
        }
    }
}

impl Default for PatentGrant {
    fn default() -> (record: Self)
        ensures
            record.deep_view() == PatentGrantView::empty(),
    {
        let record = PatentGrant {
            us_bibliographic_data_grant: BibliographicDataGrant::default(),
            descriptions: Descriptions::new(),
            us_claim_statement: String::new(),
            claims: Vec::new(),
        };
        assert(record.claims.deep_view() =~= Seq::empty());
        record
    }
}

} // verus!
