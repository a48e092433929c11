//! Request and response bodies of the HTTP API, as plain data.

use vstd::prelude::*;

verus! {

pub struct CreateRunRequest {
    pub ticker: String,
    pub question: Option<String>,
    pub template_id: Option<String>,
}

pub struct CreateRunResponse {
    pub run_id: String,
    pub status: String,
}

pub struct CreateComparisonRequest {
    pub name: String,
    pub tickers: Vec<String>,
    pub question: Option<String>,
    pub template_id: Option<String>,
}

pub struct CreateComparisonResponse {
    pub comparison_id: String,
    pub status: String,
}

pub struct CreateWatchlistRequest {
    pub name: String,
    pub tickers: Option<Vec<String>>,
}

pub struct UpdateWatchlistRequest {
    pub name: String,
    pub tickers: Vec<String>,
}

pub struct AddWatchlistTickerRequest {
    pub ticker: String,
}

pub struct CreateBatchJobRequest {
    pub name: String,
    pub tickers: Vec<String>,
    pub question_template: Option<String>,
    pub template_id: Option<String>,
}

pub struct CreateBatchJobResponse {
    pub batch_job_id: String,
    pub status: String,
}

pub struct CreateRunTemplateRequest {
    pub name: String,
    pub question_template: String,
    pub description: Option<String>,
}

pub struct UpdateRunTemplateRequest {
    pub name: String,
    pub question_template: String,
    pub description: Option<String>,
}

pub struct DashboardRefreshRequest {
    pub watchlist_id: String,
    pub ticker: String,
    pub template_id: Option<String>,
    pub question: Option<String>,
}

pub struct CreateBookmarkRequest {
    pub entity_type: String,
    pub entity_id: String,
    pub title: String,
    pub note: Option<String>,
    pub target_path: String,
}

pub struct CreateSourceAnnotationRequest {
    pub run_id: String,
    pub selected_text: String,
    pub annotation_markdown: String,
    pub tag: Option<String>,
}

pub struct FinalMemoResponse {
    pub run_id: String,
    pub status: String,
    pub final_iteration_number: Option<i64>,
    pub final_memo_markdown: Option<String>,
    pub final_memo_html: Option<String>,
    pub summary: Option<String>,
}

pub struct CreateScanRunRequest {
    pub config_id: Option<String>,
}

pub struct CreateScanRunResponse {
    pub scan_run_id: String,
    pub status: String,
}

pub struct PromoteOpportunityRequest {
    pub question: Option<String>,
}

pub struct PromoteOpportunityResponse {
    pub run_id: String,
    pub status: String,
}

pub struct UpdateWatchlistScheduleRequest {
    pub enabled: bool,
    pub interval_hours: i64,
    pub template_id: Option<String>,
}

pub struct AlertQuery {
    pub watchlist_id: String,
    pub status: Option<String>,
}

pub struct DeleteBookmarkQuery {
    pub entity_type: String,
    pub entity_id: String,
}

pub struct DeleteSourceAnnotationQuery {
    pub annotation_id: String,
}

pub struct DashboardPageQuery {
    pub watchlist_id: Option<String>,
}

pub struct DashboardQuery {
    pub watchlist_id: Option<String>,
}

pub struct AddTickerRequest {
    pub ticker: String,
    pub name: Option<String>,
}

/// Borrowed input for a batch insert of evidence notes.
#[derive(Clone, Copy)]
pub struct EvidenceNoteInsert<'a> {
    pub source_id: &'a str,
    pub note_markdown: &'a str,
    pub claim_type: Option<&'a str>,
}

/// The research plan a model writes for an iteration.
pub struct PlannerOutput {
    pub research_goal: String,
    pub subquestions: Vec<String>,
    pub evidence_needed: Vec<String>,
    pub priority_order: Vec<String>,
}

/// The search queries a model writes for an iteration.
pub struct SearchQueryOutput {
    pub queries: Vec<String>,
}

/// One evidence note a model reads out of a source.
pub struct EvidenceNoteInput {
    pub source_id: String,
    pub note_markdown: String,
    pub claim_type: String,
}

/// The evidence notes a model reads out of the sources of an iteration.
pub struct ReaderOutput {
    pub notes: Vec<EvidenceNoteInput>,
}

pub struct CreateLlmProviderRequest {
    pub name: String,
    pub provider_type: String,
    pub api_key: Option<String>,
    pub model: String,
    pub base_url: Option<String>,
    pub is_enabled: Option<bool>,
    pub is_default: Option<bool>,
    pub priority: Option<i64>,
    pub config_json: Option<String>,
}

pub struct UpdateLlmProviderRequest {
    pub name: Option<String>,
    pub api_key: Option<String>,
    pub model: Option<String>,
    pub base_url: Option<String>,
    pub is_enabled: Option<bool>,
    pub is_default: Option<bool>,
    pub priority: Option<i64>,
    pub config_json: Option<String>,
}

pub struct MultiModelRunRequest {
    pub provider_ids: Vec<String>,
}

} // verus!
