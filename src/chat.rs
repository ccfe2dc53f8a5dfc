use vstd::prelude::*;

verus! {

/// A chat log entry as delivered by the remote service.
#[derive(Debug)]
pub struct Chatlog {
    pub log_id: i64,
    pub chat_id: i64,
    pub prev_log_id: Option<i64>,
    pub chat_type: i32,
    pub msg_id: i64,
    pub send_at: i64,
    pub author_id: i64,
    pub message: Option<String>,
    pub attachment: Option<String>,
    pub supplement: Option<String>,
    pub referer: Option<i32>,
}

/// A row of the cached chat table, keyed by `(channel_id, log_id)`.
#[derive(Debug)]
pub struct ChatRow {
    pub log_id: i64,
    pub channel_id: i64,
    pub prev_log_id: Option<i64>,
    pub chat_type: i32,
    pub message_id: i64,
    pub send_at: i64,
    pub author_id: i64,
    pub message: Option<String>,
    pub attachment: Option<String>,
    pub supplement: Option<String>,
    pub referer: Option<i32>,
    pub deleted_time: Option<i64>,
}

/// Copies an optional string, keeping its value.
pub fn copy_text(s: &Option<String>) -> (r: Option<String>)
    ensures
        r == *s,
{
    match s {
        Some(t) => Some(t.clone()),
        None => None,
    }
}

impl ChatRow {
    /// The row that stores `log`, with the given soft-delete marker.
    pub open spec fn of_chatlog(log: Chatlog, deleted_time: Option<i64>) -> ChatRow {
        ChatRow {
            log_id: log.log_id,
            channel_id: log.chat_id,
            prev_log_id: log.prev_log_id,
            chat_type: log.chat_type,
            message_id: log.msg_id,
            send_at: log.send_at,
            author_id: log.author_id,
            message: log.message,
            attachment: log.attachment,
            supplement: log.supplement,
            referer: log.referer,
            deleted_time,
        }
    }

    /// A field-for-field copy of this row.
    pub fn duplicate(&self) -> (r: ChatRow)
        ensures
            r == *self,
    {
        ChatRow {
            log_id: self.log_id,
            channel_id: self.channel_id,
            prev_log_id: self.prev_log_id,
            chat_type: self.chat_type,
            message_id: self.message_id,
            send_at: self.send_at,
            author_id: self.author_id,
            message: copy_text(&self.message),
            attachment: copy_text(&self.attachment),
            supplement: copy_text(&self.supplement),
            referer: self.referer,
            deleted_time: self.deleted_time,
        }
    }

    pub fn from_chatlog(log: &Chatlog, deleted_time: Option<i64>) -> (r: ChatRow)
        ensures
            r == ChatRow::of_chatlog(*log, deleted_time),
    {
        ChatRow {
            log_id: log.log_id,
            channel_id: log.chat_id,
            prev_log_id: log.prev_log_id,
            chat_type: log.chat_type,
            message_id: log.msg_id,
            send_at: log.send_at,
            author_id: log.author_id,
            message: copy_text(&log.message),
            attachment: copy_text(&log.attachment),
            supplement: copy_text(&log.supplement),
            referer: log.referer,
            deleted_time,
        }
    }
}

} // verus!
