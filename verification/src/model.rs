//! The records that the service's rules read and write, holding as plain
//! values what the rules look at. Identifiers of records are `u128` uuids,
//! moments in time and dates are `i64` timestamps, amounts of money are
//! `i64` counts of the currency's smallest unit.
use vstd::prelude::*;

verus! {

/// Status of a price information request.
#[derive(Clone, Copy, Debug, PartialEq, Eq, Structural)]
pub enum RequestStatus {
    /// Created from a plan.
    Created,
    /// 70: draft, "Проект ТКП".
    TcpProject,
    /// 90: proposals are being accepted, "Приём ТКП".
    AcceptingIncomingTCPs,
    /// 100: sending to the trading platform failed.
    TransferToEtpError,
    /// Sent to the trading platform, awaiting confirmation.
    TransferredToEtp,
    /// 110: acceptance closed.
    EntryClosed,
    /// 120: acceptance closed early.
    EntryClosedEarly,
    /// Review completed.
    Reviewed,
    /// 150: publishing changes failed.
    ErrorPublishingChanges,
    /// Deleted.
    Deleted,
}

/// General status of a proposal.
#[derive(Clone, Copy, Debug, PartialEq, Eq, Structural)]
pub enum ProposalStatus {
    Created,
    /// 20: the proposal was received.
    Received,
    Deleted,
}

/// Status of the check of a proposal.
#[derive(Clone, Copy, Debug, PartialEq, Eq, Structural)]
pub enum CheckStatus {
    Review,
    /// 40: reviewed.
    Reviewed,
}

/// Outcome of the review of a proposal.
#[derive(Clone, Copy, Debug, PartialEq, Eq, Structural)]
pub enum ReviewResult {
    /// 50: considered in the price analysis.
    Consider,
    /// 60: not considered in the price analysis.
    Ignore,
}

/// Type of a price information request.
#[derive(Clone, Copy, Debug, PartialEq, Eq, Structural)]
pub enum RequestType {
    /// The type code 0, which stands for no type chosen.
    Unspecified,
    Public,
    /// A closed request, addressed to chosen organizations.
    Private,
}

/// Category of a folder in the attachment hierarchy.
#[derive(Clone, Copy, Debug, PartialEq, Eq, Structural)]
pub enum FolderCategory {
    TechnicalSpecification,
    ContractDocuments,
    TenderDocumentation,
    Other,
}

/// An entry of the attachment hierarchy: a folder (kind 2) or a file (kind 1).
#[derive(Clone, Copy, Debug, PartialEq, Eq, Structural)]
pub struct Attachment {
    pub id: i64,
    pub kind_id: i16,
    pub category_id: Option<FolderCategory>,
    pub parent_id: Option<i64>,
    pub is_removed: bool,
    pub is_classified: bool,
}

/// Header of a price information request.
pub struct RequestHeader {
    pub id: i64,
    pub uuid: u128,
    pub plan_uuid: Option<u128>,
    pub plan_id: Option<i64>,
    pub hierarchy_uuid: Option<u128>,
    pub type_request_id: Option<RequestType>,
    pub request_subject: Option<String>,
    pub start_date: Option<i64>,
    pub end_date: Option<i64>,
    pub status_id: RequestStatus,
    pub customer_id: Option<i32>,
    pub currency_id: Option<i16>,
    pub organizer_id: Option<i32>,
    pub organizer_name: Option<String>,
    pub organizer_mail: Option<String>,
    pub organizer_phone: Option<String>,
    pub organizer_location: Option<String>,
    pub reason_closing: Option<String>,
    pub created_by: i32,
    pub created_at: i64,
    pub changed_by: i32,
    pub changed_at: i64,
}

/// An organization that a request is addressed to.
#[derive(Clone, Copy, Debug, PartialEq, Eq, Structural)]
pub struct RequestPartner {
    pub uuid: u128,
    pub request_uuid: u128,
    pub supplier_id: i32,
    /// Added through the trading platform.
    pub is_public: bool,
    pub is_removed: bool,
    pub number: i16,
}

/// VAT rate of a proposal position; `Compound` where positions differ.
#[derive(Clone, Copy, Debug, PartialEq, Eq, Structural)]
pub enum VatId {
    Rate(i32),
    Compound,
}

/// Header of a technical-commercial proposal.
#[derive(Clone, Copy, Debug, PartialEq, Eq, Structural)]
pub struct ProposalHeader {
    pub id: i64,
    pub uuid: u128,
    pub request_uuid: u128,
    /// The request partner (organization) that made the proposal.
    pub supplier_uuid: u128,
    pub hierarchy_uuid: Option<u128>,
    pub start_date: Option<i64>,
    pub end_date: Option<i64>,
    pub status_id: ProposalStatus,
    pub status_check_id: CheckStatus,
    pub result_id: Option<ReviewResult>,
    pub receive_date: Option<i64>,
    pub sum_excluded_vat_total: Option<i64>,
    pub currency_id: i32,
    pub etp_id: Option<i32>,
    pub created_by: i32,
    pub created_at: i64,
    pub changed_by: i32,
    pub changed_at: i64,
}

/// A position of a proposal.
pub struct ProposalItem {
    pub uuid: u128,
    pub proposal_uuid: u128,
    pub request_item_uuid: u128,
    pub number: i16,
    pub price: Option<i64>,
    pub vat_id: Option<VatId>,
    pub is_possibility: bool,
    pub possibility_note: Option<String>,
    pub pay_condition_id: Option<i16>,
    pub prepayment_percent: Option<i64>,
    pub sum_excluded_vat: Option<i64>,
    pub sum_included_vat: Option<i64>,
}

/// A position of a price information request.
pub struct RequestItem {
    pub uuid: u128,
    pub request_uuid: u128,
    pub plan_item_uuid: u128,
    pub number: i16,
    pub description_internal: String,
    pub category_id: i16,
    pub okved2_id: i32,
    pub okpd2_id: i32,
    pub quantity: i64,
    pub unit_id: i16,
    pub price: Option<i64>,
    pub vat_id: Option<VatId>,
    pub product_type_id: i16,
}

/// A request header with its (not removed) organizations.
pub struct RequestWithPartners {
    pub header: RequestHeader,
    pub suppliers: Vec<RequestPartner>,
}

/// An error of an operation of the service.
pub enum TcpError {
    /// No record (its id, its table) was found.
    RecordNotFound(String, String),
    /// An inconsistency that the user cannot correct.
    InternalError(String),
    /// The request breaks the business rules; the messages say how.
    Business(crate::messages::Messages),
    /// The monolith answered with an error.
    MonolithError(String),
    /// Exporting failed.
    Export(String),
    /// The section does not allow the operation.
    Section(String),
    /// A text that should be a uuid is not one.
    InvalidUuid(String),
}

/// The header with the status set by the user at the moment.
pub open spec fn with_status(h: RequestHeader, status: RequestStatus, user_id: i32, now: i64) -> RequestHeader {
    RequestHeader { status_id: status, changed_by: user_id, changed_at: now, ..h }
}

/// Kind of a folder entry.
pub const KIND_FOLDER: i16 = 2;
/// Kind of a file entry.
pub const KIND_FILE: i16 = 1;

} // verus!
