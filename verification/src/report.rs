//! What is told of a job: when it starts, as it goes on, and when it is over.
use vstd::prelude::*;

use crate::scheduler::text_option;
use crate::text::{decimal, decimal_text};

verus! {

/// The job's name, as it is shown.
pub const APP_NAME: &'static str = "Transformation Engine";

/// Something to tell the scheduler.
pub struct Notice {
    pub event_type: String,
    pub status: Option<String>,
    pub message: String,
    pub progress: Option<u8>,
}

/// What a notice says.
pub struct NoticeText {
    pub event_type: Seq<char>,
    pub status: Option<Seq<char>>,
    pub message: Seq<char>,
    pub progress: Option<u8>,
}

impl View for Notice {
    type V = NoticeText;

    open spec fn view(&self) -> NoticeText {
        NoticeText {
            event_type: self.event_type@,
            status: text_option(self.status),
            message: self.message@,
            progress: self.progress,
        }
    }
}

/// What the notices say, in their order.
pub open spec fn notices_in(notices: Seq<Notice>) -> Seq<NoticeText> {
    notices.map_values(|notice: Notice| notice@)
}

/// A notice for the audit.
pub open spec fn audit(message: Seq<char>) -> NoticeText {
    NoticeText { event_type: "audit"@, status: None, message, progress: None }
}

/// A change of status, told together with a notice for the audit.
pub open spec fn announcement(
    status: Seq<char>,
    message: Seq<char>,
    progress: Option<u8>,
) -> Seq<NoticeText> {
    seq![
        NoticeText { event_type: "status"@, status: Some(status), message, progress },
        audit(message),
    ]
}

fn announce(status: &str, message: &str, progress: Option<u8>) -> (notices: Vec<Notice>)
    ensures
        notices_in(notices@) == announcement(status@, message@, progress),
{
    let mut notices: Vec<Notice> = Vec::new();
    notices.push(
        Notice {
            event_type: "status".to_owned(),
            status: Some(status.to_owned()),
            message: message.to_owned(),
            progress,
        },
    );
    notices.push(audit_notice(message));
    assert(notices_in(notices@) =~= announcement(status@, message@, progress));
    notices
}

/// A notice for the audit.
pub fn audit_notice(message: &str) -> (notice: Notice)
    ensures
        notice@ == audit(message@),
{
    Notice {
        event_type: "audit".to_owned(),
        status: None,
        message: message.to_owned(),
        progress: None,
    }
}

/// What is told when the job of that version starts.
pub fn start_notices(version: &str) -> (notices: Vec<Notice>)
    ensures
        notices_in(notices@) == announcement(
            "started"@,
            APP_NAME@ + " ("@ + version@ + ") started"@,
            Some(0u8),
        ),
{
    let mut message: String = APP_NAME.to_owned();
    message.append(" (");
    message.append(version);
    message.append(") started");
    announce("started", message.as_str(), Some(0))
}

/// What is told when that many records have been processed.
pub fn progress_notices(processed: usize) -> (notices: Vec<Notice>)
    ensures
        notices_in(notices@) == announcement(
            "processing"@,
            "Progress: "@ + decimal(processed as nat) + " records processed"@,
            Some(0u8),
        ),
{
    let mut message: String = "Progress: ".to_owned();
    message.append(decimal_text(processed).as_str());
    message.append(" records processed");
    announce("processing", message.as_str(), Some(0))
}

/// What is said of a job that has gone well.
pub open spec fn success_text(processed: nat) -> Seq<char> {
    "Transformation Batch Job finished successfully. "@ + decimal(processed)
        + " records processed"@
}

pub fn success_message(processed: usize) -> (message: String)
    ensures
        message@ == success_text(processed as nat),
{
    let mut message: String = "Transformation Batch Job finished successfully. ".to_owned();
    message.append(decimal_text(processed).as_str());
    message.append(" records processed");
    message
}

/// What is told of a job that has gone well.
pub fn success_notices(processed: usize) -> (notices: Vec<Notice>)
    ensures
        notices_in(notices@) == announcement(
            "finished"@,
            success_text(processed as nat),
            Some(100u8),
        ),
{
    announce("finished", success_message(processed).as_str(), Some(100))
}

/// What is said of a job that has failed.
pub open spec fn failure_text(error: Seq<char>) -> Seq<char> {
    "Transformation Batch Job failed: "@ + error
}

pub fn failure_message(error: &str) -> (message: String)
    ensures
        message@ == failure_text(error@),
{
    let mut message: String = "Transformation Batch Job failed: ".to_owned();
    message.append(error);
    message
}

/// What is told of a job that has failed.
pub fn failure_notices(error: &str) -> (notices: Vec<Notice>)
    ensures
        notices_in(notices@) == announcement("failed"@, failure_text(error@), None),
{
    announce("failed", failure_message(error).as_str(), None)
}

/// What is said when a topic has no key of its own.
pub fn key_warning(topic: &str, error: &str) -> (message: String)
    ensures
        message@ == "Warning: Failed to fetch wrapped key for topic "@ + topic@ + ": "@ + error@,
{
    let mut message: String = "Warning: Failed to fetch wrapped key for topic ".to_owned();
    message.append(topic);
    message.append(": ");
    message.append(error);
    message
}

/// What a list of notices says is what each of them says.
proof fn lemma_notices_say(list: Seq<Notice>)
    ensures
        notices_in(list).len() == list.len(),
        forall|i: int|
            #![trigger list[i]]
            0 <= i < list.len() ==> notices_in(list)[i] == list[i]@,
{
}

/// A notice for the audit says its message, and neither status nor progress.
pub proof fn law_audit_says_its_message(message: &str, notice: Notice)
    requires
        call_ensures(audit_notice, (message,), notice),
    ensures
        notice.event_type@ == "audit"@,
        notice.status is None,
        notice.message@ == message@,
        notice.progress is None,
{
}

/// The start of a job is told as a status, with its version and no progress yet, and for the audit.
pub proof fn law_start_is_told(version: &str, notices: Vec<Notice>)
    requires
        call_ensures(start_notices, (version,), notices),
    ensures
        notices@.len() == 2,
        notices@[0].event_type@ == "status"@,
        notices@[0].status matches Some(status) && status@ == "started"@,
        notices@[0].message@ == "Transformation Engine"@ + " ("@ + version@ + ") started"@,
        notices@[0].progress == Some(0u8),
        notices@[1].event_type@ == "audit"@,
        notices@[1].status is None,
        notices@[1].message@ == "Transformation Engine"@ + " ("@ + version@ + ") started"@,
        notices@[1].progress is None,
{
    lemma_notices_say(notices@);
}

/// The progress of a job is told as a status, with the number of records, and for the audit.
pub proof fn law_progress_is_told(processed: usize, count: String, notices: Vec<Notice>)
    requires
        call_ensures(progress_notices, (processed,), notices),
        call_ensures(decimal_text, (processed,), count),
    ensures
        notices@.len() == 2,
        notices@[0].event_type@ == "status"@,
        notices@[0].status matches Some(status) && status@ == "processing"@,
        notices@[0].message@ == "Progress: "@ + count@ + " records processed"@,
        notices@[0].progress == Some(0u8),
        notices@[1].event_type@ == "audit"@,
        notices@[1].status is None,
        notices@[1].message@ == "Progress: "@ + count@ + " records processed"@,
        notices@[1].progress is None,
{
    lemma_notices_say(notices@);
}

/// The success of a job is told as a status, with the number of records and full progress, and for
/// the audit.
pub proof fn law_success_is_told(processed: usize, count: String, notices: Vec<Notice>)
    requires
        call_ensures(success_notices, (processed,), notices),
        call_ensures(decimal_text, (processed,), count),
    ensures
        notices@.len() == 2,
        notices@[0].event_type@ == "status"@,
        notices@[0].status matches Some(status) && status@ == "finished"@,
        notices@[0].message@ == "Transformation Batch Job finished successfully. "@ + count@
            + " records processed"@,
        notices@[0].progress == Some(100u8),
        notices@[1].event_type@ == "audit"@,
        notices@[1].status is None,
        notices@[1].message@ == "Transformation Batch Job finished successfully. "@ + count@
            + " records processed"@,
        notices@[1].progress is None,
{
    lemma_notices_say(notices@);
}

/// The failure of a job is told as a status, with the reason and without progress, and for the audit.
pub proof fn law_failure_is_told(error: &str, notices: Vec<Notice>)
    requires
        call_ensures(failure_notices, (error,), notices),
    ensures
        notices@.len() == 2,
        notices@[0].event_type@ == "status"@,
        notices@[0].status matches Some(status) && status@ == "failed"@,
        notices@[0].message@ == "Transformation Batch Job failed: "@ + error@,
        notices@[0].progress is None,
        notices@[1].event_type@ == "audit"@,
        notices@[1].status is None,
        notices@[1].message@ == "Transformation Batch Job failed: "@ + error@,
        notices@[1].progress is None,
{
    lemma_notices_say(notices@);
}

/// What is said at the end of a job names the number of records, or the reason of the failure.
pub proof fn law_end_is_said(
    processed: usize,
    count: String,
    error: &str,
    success: String,
    failure: String,
)
    requires
        call_ensures(decimal_text, (processed,), count),
        call_ensures(success_message, (processed,), success),
        call_ensures(failure_message, (error,), failure),
    ensures
        success@ == "Transformation Batch Job finished successfully. "@ + count@
            + " records processed"@,
        failure@ == "Transformation Batch Job failed: "@ + error@,
{
}

/// What is said of a missing key names the topic and the reason.
pub proof fn law_missing_key_is_said(topic: &str, error: &str, message: String)
    requires
        call_ensures(key_warning, (topic, error), message),
    ensures
        message@ == "Warning: Failed to fetch wrapped key for topic "@ + topic@ + ": "@ + error@,
{
}

} // verus!
