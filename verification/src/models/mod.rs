//! Request and response models of the SMSDev API.

mod other;
mod send;

pub use other::{
    inbox_status_code, is_delivered_description, BalanceResponse, CancelRequest, CancelResponse, DlrRequest, DlrResponse, InboxMessage,
    InboxRequest, InboxStatus, ReportRequest, ReportResponse,
};
pub use send::{is_ok_status, status_is_ok, SendSmsRequest, SendSmsResponse};
