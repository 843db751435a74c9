//! The protocol dispatcher: one step of the receive/route/reply loop.
//!
//! Each inbound message is classified as a request, a notification or a
//! client reply and handled completely before the next is read.  A request
//! is routed by method through a fixed registry and answered with exactly
//! one reply tagged with its own id; a request beyond the registry gets no
//! reply, a deliberate forward-compatibility gap.  A shutdown request is
//! acknowledged and puts the server into a draining phase, in which every
//! further request is answered with an error reply and the loop ends on the
//! next message.  Notifications mutate the document store and name the
//! document whose diagnostics must be recomputed and republished in full.
//!
//! The feature handlers of the registry — definition, completion, rename,
//! formatting, selection range — have no algorithm behind them yet; each
//! still answers with its protocol-mandated neutral result, so no requester
//! is ever left hanging.

use vstd::prelude::*;
use vstd::string::StringExecFns;

use crate::Position;
use crate::Range;
use crate::store::DocumentStore;

verus! {

/// Error code of a reply to a request that arrived after shutdown was
/// acknowledged.
pub const INVALID_REQUEST: i64 = -32600;

/// A completion proposal; the completion handler's list is still always empty.
pub struct CompletionItem {
    pub label: String,
}

/// A replacement of one span of a document's text.
pub struct TextEdit {
    pub range: Range,
    pub new_text: String,
}

/// The edits of one document within a workspace edit.
pub struct DocumentEdits {
    pub uri: String,
    pub edits: Vec<TextEdit>,
}

/// The parameters of a request, one variant per method of the fixed registry.
pub enum RequestParams {
    Definition { uri: String, position: Position },
    Completion { uri: String, position: Position },
    Rename { uri: String, position: Position, new_name: String },
    Formatting { uri: String },
    SelectionRange { uri: String, positions: Vec<Position> },
    Shutdown,
    /// A method beyond the registry; serviced by no handler and not replied to.
    Unknown,
}

/// The parameters of a notification the server consumes.
pub enum NotificationParams {
    DidOpen { uri: String, text: String },
    /// Full replacement texts; only the last change of the batch counts.
    DidChange { uri: String, changes: Vec<String> },
    /// Any other notification; ignored silently.
    Unknown,
}

/// One inbound message, as the transport classified it.
pub enum IncomingMessage<Id> {
    Request { id: Id, params: RequestParams },
    Notification { params: NotificationParams },
    /// A response from the client; the server sends no requests, so it is
    /// ignored.
    ClientReply,
}

/// A typed result, one variant per handler of the registry.
pub enum ReplyResult {
    /// The definition lookup currently always answers null.
    NullLocation,
    Completions { items: Vec<CompletionItem> },
    RenameEdits { changes: Vec<DocumentEdits> },
    FormattingEdits { edits: Vec<TextEdit> },
    SelectionRanges { ranges: Vec<Option<Range>> },
    ShutdownAck,
}

/// The single reply a request receives, tagged with the request's own id.
pub enum Reply<Id> {
    Success { id: Id, result: ReplyResult },
    Failure { id: Id, code: i64, message: String },
}

/// What one dispatch step asks of its surroundings.
pub struct StepOutcome<Id> {
    /// The reply to send, when the message was a serviced request.
    pub reply: Option<Reply<Id>>,
    /// The document whose diagnostics must be recomputed and republished
    /// in full, when a notification changed its text.
    pub recheck: Option<String>,
    /// The receive loop ends after this message.
    pub exit: bool,
}

/// The dispatcher's state across messages.
pub struct ServerState {
    pub store: DocumentStore,
    /// A shutdown request has been acknowledged.
    pub draining: bool,
}

/// The neutral result that the registry's handler owes each serviced request.
pub open spec fn handler_result_ok(params: RequestParams, r: ReplyResult) -> bool {
    match params {
        RequestParams::Definition { .. } => r == ReplyResult::NullLocation,
        RequestParams::Completion { .. } => {
            &&& r matches ReplyResult::Completions { items }
            &&& items@.len() == 0
        },
        RequestParams::Rename { .. } => {
            &&& r matches ReplyResult::RenameEdits { changes }
            &&& changes@.len() == 0
        },
        RequestParams::Formatting { .. } => {
            &&& r matches ReplyResult::FormattingEdits { edits }
            &&& edits@.len() == 0
        },
        RequestParams::SelectionRange { positions, .. } => {
            &&& r matches ReplyResult::SelectionRanges { ranges }
            &&& ranges@.len() == positions@.len()
            &&& forall|t: int| 0 <= t < ranges@.len() ==> ranges@[t] is None
        },
        RequestParams::Shutdown => r == ReplyResult::ShutdownAck,
        RequestParams::Unknown => false,
    }
}

/// The dispatch decision table: how one step relates the state before and
/// after a message to the outcome it yields.
pub open spec fn step_post<Id>(
    pre: ServerState,
    msg: IncomingMessage<Id>,
    post: ServerState,
    out: StepOutcome<Id>,
) -> bool {
    if pre.draining {
        &&& post.draining
        &&& post.store@ == pre.store@
        &&& out.exit
        &&& out.recheck is None
        &&& match msg {
            IncomingMessage::Request { id, params } => {
                &&& out.reply matches Some(r)
                &&& r matches Reply::Failure { id: rid, code, message: _ }
                &&& rid == id
                &&& code == INVALID_REQUEST
            },
            _ => out.reply is None,
        }
    } else {
        match msg {
            IncomingMessage::Request { id, params } => {
                &&& post.store@ == pre.store@
                &&& out.recheck is None
                &&& !out.exit
                &&& match params {
                    RequestParams::Shutdown => {
                        &&& post.draining
                        &&& out.reply matches Some(r)
                        &&& r matches Reply::Success { id: rid, result }
                        &&& rid == id
                        &&& result == ReplyResult::ShutdownAck
                    },
                    RequestParams::Unknown => !post.draining && out.reply is None,
                    _ => {
                        &&& !post.draining
                        &&& out.reply matches Some(r)
                        &&& r matches Reply::Success { id: rid, result }
                        &&& rid == id
                        &&& handler_result_ok(params, result)
                    },
                }
            },
            IncomingMessage::Notification { params } => {
                &&& !post.draining
                &&& out.reply is None
                &&& !out.exit
                &&& match params {
                    NotificationParams::DidOpen { uri, text } => {
                        &&& post.store@ == pre.store@.insert(uri@, text@)
                        &&& out.recheck matches Some(u) && u@ == uri@
                    },
                    NotificationParams::DidChange { uri, changes } => {
                        if changes@.len() > 0 {
                            &&& post.store@ == pre.store@.insert(uri@, changes@.last()@)
                            &&& out.recheck matches Some(u) && u@ == uri@
                        } else {
                            &&& post.store@ == pre.store@
                            &&& out.recheck is None
                        }
                    },
                    NotificationParams::Unknown => {
                        &&& post.store@ == pre.store@
                        &&& out.recheck is None
                    },
                }
            },
            IncomingMessage::ClientReply => {
                &&& !post.draining
                &&& post.store@ == pre.store@
                &&& out.reply is None
                &&& out.recheck is None
                &&& !out.exit
            },
        }
    }
}

/// Routes one serviced request to its handler's neutral result.
fn run_handler(params: &RequestParams) -> (r: ReplyResult)
    requires
        !(params matches RequestParams::Unknown),
    ensures
        handler_result_ok(*params, r),
{
    match params {
        RequestParams::Definition { .. } => ReplyResult::NullLocation,
        RequestParams::Completion { .. } => ReplyResult::Completions { items: Vec::new() },
        RequestParams::Rename { .. } => ReplyResult::RenameEdits { changes: Vec::new() },
        RequestParams::Formatting { .. } => ReplyResult::FormattingEdits { edits: Vec::new() },
        RequestParams::SelectionRange { positions, .. } => {
            let n = positions.len();
            let mut ranges: Vec<Option<Range>> = Vec::new();
            let mut idx: usize = 0;
            while idx < n
                invariant
                    idx <= n,
                    ranges@.len() == idx,
                    forall|t: int| 0 <= t < idx ==> ranges@[t] is None,
                decreases n - idx,
            {
                ranges.push(None);
                idx += 1;
            }
            ReplyResult::SelectionRanges { ranges }
        },
        RequestParams::Shutdown => ReplyResult::ShutdownAck,
        RequestParams::Unknown => ReplyResult::NullLocation,
    }
}

/// Handles one inbound message completely: routes it, mutates the store,
/// and yields the reply owed for it, before the next message is read.
pub fn step<Id>(state: &mut ServerState, msg: IncomingMessage<Id>) -> (out: StepOutcome<Id>)
    requires
        old(state).store.wf(),
    ensures
        final(state).store.wf(),
        step_post(*old(state), msg, *final(state), out),
{
    if state.draining {
        let reply = match msg {
            IncomingMessage::Request { id, params: _ } => Some(
                Reply::Failure {
                    id,
                    code: INVALID_REQUEST,
                    message: String::from_str("shutdown already requested"),
                },
            ),
            _ => None,
        };
        return StepOutcome { reply, recheck: None, exit: true };
    }
    match msg {
        IncomingMessage::Request { id, params } => {
            match params {
                RequestParams::Shutdown => {
                    state.draining = true;
                    StepOutcome {
                        reply: Some(Reply::Success { id, result: ReplyResult::ShutdownAck }),
                        recheck: None,
                        exit: false,
                    }
                },
                RequestParams::Unknown => StepOutcome { reply: None, recheck: None, exit: false },
                _ => {
                    let result = run_handler(&params);
                    StepOutcome {
                        reply: Some(Reply::Success { id, result }),
                        recheck: None,
                        exit: false,
                    }
                },
            }
        },
        IncomingMessage::Notification { params } => {
            match params {
                NotificationParams::DidOpen { uri, text } => {
                    let recheck_uri = uri.clone();
                    state.store.open(uri, text);
                    StepOutcome { reply: None, recheck: Some(recheck_uri), exit: false }
                },
                NotificationParams::DidChange { uri, mut changes } => {
                    if changes.len() > 0 {
                        let last = changes.pop().unwrap();
                        let recheck_uri = uri.clone();
                        state.store.update(uri, last);
                        StepOutcome { reply: None, recheck: Some(recheck_uri), exit: false }
                    } else {
                        StepOutcome { reply: None, recheck: None, exit: false }
                    }
                },
                NotificationParams::Unknown => StepOutcome {
                    reply: None,
                    recheck: None,
                    exit: false,
                },
            }
        },
        IncomingMessage::ClientReply => StepOutcome { reply: None, recheck: None, exit: false },
    }
}

/// A selection-range request is never answered with a length mismatch: in a
/// serving state the reply carries exactly one absence marker per input
/// position, under the request's own id.
pub proof fn lemma_selection_range_reply<Id>(
    pre: ServerState,
    id: Id,
    uri: String,
    positions: Vec<Position>,
    post: ServerState,
    out: StepOutcome<Id>,
)
    requires
        !pre.draining,
        step_post(
            pre,
            IncomingMessage::Request {
                id,
                params: RequestParams::SelectionRange { uri, positions },
            },
            post,
            out,
        ),
    ensures
        out.reply matches Some(r) && (r matches Reply::Success { id: rid, result } && rid == id
            && (result matches ReplyResult::SelectionRanges { ranges } && ranges@.len()
            == positions@.len() && (forall|t: int| 0 <= t < ranges@.len() ==> ranges@[t] is None))),
{
}

/// After shutdown is acknowledged, every further request still receives a
/// reply — an error under its own id — never silence; and the loop ends.
pub proof fn lemma_post_shutdown_error_reply<Id>(
    pre: ServerState,
    id: Id,
    params: RequestParams,
    post: ServerState,
    out: StepOutcome<Id>,
)
    requires
        pre.draining,
        step_post(pre, IncomingMessage::Request { id, params }, post, out),
    ensures
        out.reply matches Some(r) && (r matches Reply::Failure { id: rid, code, message: _ }
            && rid == id && code == INVALID_REQUEST),
        out.exit,
{
}

/// The features the server declares at startup; purely descriptive.
pub struct Capabilities {
    /// Open and close notifications are tracked.
    pub open_close: bool,
    /// Document changes arrive as full replacement texts.
    pub change_full: bool,
    pub completion: bool,
    pub definition: bool,
    pub formatting: bool,
    pub rename: bool,
    pub selection_range: bool,
}

/// Declares every feature the dispatch registry routes.
pub fn server_capabilities() -> (c: Capabilities)
    ensures
        c.open_close && c.change_full && c.completion && c.definition && c.formatting && c.rename
            && c.selection_range,
{
    Capabilities {
        open_close: true,
        change_full: true,
        completion: true,
        definition: true,
        formatting: true,
        rename: true,
        selection_range: true,
    }
}

} // verus!
