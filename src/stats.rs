//! The statistics record that the report is made from.
use std::collections::HashMap;
use vstd::prelude::*;
use crate::email::Email;
use crate::thread::ThreadStructValue;

verus! {

/// The activity of one list over one period.
#[derive(Debug)]
pub struct MailingListStats {
    pub total_emails: i32,
    pub total_participants: usize,
    pub total_threads: i32,
    pub period_start: String,
    pub period_end: String,
    pub list_name: String,
    pub domain: String,
    pub emails: Vec<Email>,
    pub thread_struct: ThreadStructValue,
    pub active_months: HashMap<String, i32>,
}

/// Which list, and over which period.
#[derive(Debug)]
pub struct ListInfo {
    pub list_name: String,
    pub domain: String,
    pub period_from: String,
    pub period_to: String,
}

} // verus!
