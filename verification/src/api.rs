use vstd::prelude::*;

use crate::entities::TicketState;

verus! {

// ---------------------------------------------------------------------------
// Request payloads, as the transport layer hands them to the core.
// ---------------------------------------------------------------------------

#[derive(Debug, Clone)]
pub struct MGetApprovalLevelByCompanyRequest {
    pub company: String,
}

#[derive(Debug, Clone)]
pub struct ApproveRejectTicketRequest {
    pub ticket_id: i32,
}

#[derive(Debug, Clone)]
pub struct LoginRequest {
    pub account: String,
    pub password: String,
}

#[derive(Debug, Clone)]
pub struct GetPieChartDataRequest {
    pub t: String,
    pub date: String,
}

#[derive(Debug, Clone)]
pub struct GetChartDataRequest {
    pub t: String,
}

#[derive(Debug, Clone)]
pub struct CreateSystemRequest {
    pub name: String,
    pub levels: Vec<LevelItem>,
    pub departments: Vec<DepItem>,
    pub special_levels: Vec<SpecialLevelItem>,
}

/// One rung of the default ladder, as configured at tenant initialization;
/// the threshold arrives as decimal text and is validated by the core.
#[derive(Debug, Clone)]
pub struct LevelItem {
    pub key: i64,
    pub name: String,
    pub money_limit: String,
}

#[derive(Debug, Clone)]
pub struct DepItem {
    pub key: i64,
    pub name: String,
}

/// The company-scoped ladder of one company.
#[derive(Debug, Clone)]
pub struct SpecialLevelItem {
    pub key: i64,
    pub name: String,
    pub special_level: Vec<LevelItem>,
}

#[derive(Debug, Clone)]
pub struct RegisterRequest {
    pub account: String,
    pub password: String,
    pub name: String,
    pub age: String,
    pub phone_number: String,
    pub sex: String,
    pub account_type: i16,
    pub position: String,
    pub company: String,
    pub departments: Vec<String>,
    pub approval_name: String,
}

#[derive(Debug, Clone)]
pub struct MGetTicketByPageRequest {
    pub size: i32,
    pub page: i32,
}

#[derive(Debug, Clone)]
pub struct CreateTicketRequest {
    pub title: String,
    pub address: String,
    pub reason: String,
    pub funds: Vec<TicketFundRequest>,
    pub departments: Vec<String>,
    pub image_url: Option<String>,
}

#[derive(Debug, Clone)]
pub struct TicketFundRequest {
    pub reason: String,
    pub amount: i32,
}

#[derive(Debug, Clone)]
pub struct CreateAssistTicketRequest {
    pub ticket_id: i32,
    pub requirements: Vec<AssistRequirementRequest>,
}

#[derive(Debug, Clone)]
pub struct AssistRequirementRequest {
    pub department_name: String,
    pub total_num: i32,
}

#[derive(Debug, Clone)]
pub struct TakeTicketRequest {
    pub tid: i32,
    pub is_assist: Option<bool>,
}

#[derive(Debug, Clone)]
pub struct FinishTicketRequest {
    pub ticket_id: i32,
}

#[derive(Debug, Clone)]
pub struct GetTicketByIDRequest {
    pub ticket_id: i32,
}

#[derive(Debug, Clone)]
pub struct UploadFileV2Request {
    pub name: String,
    pub file: String,
}

// ---------------------------------------------------------------------------
// Response payloads.
// ---------------------------------------------------------------------------

#[derive(Debug, Clone)]
pub struct MGetApprovalLevelByCompanyResponse {
    pub approval_names: Vec<String>,
}

#[derive(Debug, Clone)]
pub struct MGetDepartmentBySystemResponse {
    pub departments: Vec<String>,
}

#[derive(Debug, Clone)]
pub struct AccountResponse {
    pub id: i32,
    pub username: String,
    pub account_type: i16,
    pub token: Option<String>,
    pub system_name: Option<String>,
}

#[derive(Debug, Clone)]
pub struct RegisterAdminResponse {
    pub system_id: i32,
    pub token: String,
}

/// Point-in-time bucket counts of every ticket of a tenant.
#[derive(Debug, Clone, Copy, PartialEq, Eq, Structural)]
pub struct GetPieChartDataResponse {
    pub unapproved: u64,
    pub approving: u64,
    pub available: u64,
    pub received: u64,
    pub closed: u64,
    pub rejected: u64,
}

/// One bar of the open/closed bar chart.
#[derive(Debug, Clone)]
pub struct BarChartState {
    pub weekday: i32,
    pub period: Option<String>,
    pub open: u64,
    pub closed: u64,
}

/// Open/closed counts of the tickets whose amount lies in one range.
#[derive(Debug, Clone, Copy, PartialEq, Eq, Structural)]
pub struct TableState {
    pub range_low: i32,
    pub range_high: i32,
    pub open: u64,
    pub closed: u64,
}

#[derive(Debug, Clone)]
pub struct CreateSystemResponse {
    pub id: i32,
    pub name: String,
    pub departments: Vec<DepartmentResponse>,
}

#[derive(Debug, Clone)]
pub struct DepartmentResponse {
    pub id: i32,
    pub department_name: String,
}

#[derive(Debug, Clone)]
pub struct CreateEmployeeResponse {
    pub employee_id: i32,
    pub name: String,
    pub account: String,
    pub phone: String,
    pub approval_id: Option<i32>,
    pub account_type: i16,
}

#[derive(Debug, Clone)]
pub struct AvailableTicketsResponse {
    pub tickets: Vec<CurrentTicketResponse>,
}

#[derive(Debug, Clone)]
pub struct CurrentTicketResponse {
    pub ticket_id: i32,
    pub title: String,
    pub submitter: String,
    pub phone_nubmer: String,
    pub submitter_ass: Option<String>,
    pub phone_number_ass: Option<String>,
    pub participants: Vec<String>,
    pub reason: String,
    pub departments: Vec<String>,
    pub state: TicketState,
    pub manager_id: Option<i32>,
}

/// The uniform envelope every endpoint answers with.
#[derive(Debug, Clone)]
pub struct CommonResponse<T> {
    pub code: i32,
    pub success: bool,
    pub data: T,
}

#[derive(Debug, Clone)]
pub struct MessageResponse {
    pub message: String,
}

/// Wraps a plain message into the success envelope.
pub fn new_ok_response(message: &str) -> (r: CommonResponse<MessageResponse>)
    ensures
        r.code == 200,
        r.success,
        r.data.message@ == message@,
{
    CommonResponse {
        code: 200,
        success: true,
        data: MessageResponse { message: message.to_owned() },
    }
}

} // verus!
