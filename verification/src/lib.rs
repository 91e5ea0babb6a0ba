//! Rules of the technical-commercial proposal service: validation of price
//! information requests and proposals, the status transitions that the
//! service's actions perform, and the data that it hands back to the user.

pub mod commercial_offer;
pub mod create_request;
pub mod detail;
pub mod export;
pub mod grouping;
pub mod laws;
pub mod merge;
pub mod messages;
pub mod model;
pub mod background;
pub mod check_request;
pub mod seqs;
pub mod sorting;
pub mod subject_purchased;
pub mod text;
pub mod update_proposal;
pub mod approve;
pub mod close;
pub mod organization_question;
pub mod outside;
pub mod partners;
pub mod plan_data;
pub mod pricing;
pub mod proposal_view;
pub mod publication;
pub mod request_list;
pub mod request_status;
