//! One message of the archive, as the statistics service reports it.
use vstd::prelude::*;

verus! {

/// A file attached to an email.
#[derive(Clone, Debug)]
pub struct Attachment {
    pub filename: String,
    pub content_type: String,
    pub size: i64,
    pub hash: String,
}

/// One email of a mailing list.
///
/// `message_id` and `in_reply_to` are normally written inside angle
/// brackets; `in_reply_to` is empty for a message that starts a thread.
/// `mid` is the service's own identifier, the one that thread trees use.
/// An `epoch` of 0 means the sending time is unknown.
#[derive(Clone, Debug)]
pub struct Email {
    pub in_reply_to: String,
    pub private: bool,
    pub attachments: Vec<Attachment>,
    pub subject: String,
    pub mid: String,
    pub epoch: i64,
    pub list: String,
    pub gravatar: String,
    pub message_id: String,
    pub from: String,
    pub list_raw: String,
    pub id: String,
    pub body: String,
    pub date: Option<String>,
}

} // verus!
