//! Channel messages from the background poller and the decision that
//! produces them from a fetch outcome.

use vstd::prelude::*;
use vstd::string::StringExecFns;

use crate::item::FeedItem;

verus! {

/// A message sent from the poller thread to the event loop.
pub enum PollMsg {
    /// A successful fetch returned these items.
    Items(Vec<FeedItem>),
    /// A fetch failed with this error description.
    Error(String),
}

/// Build the channel message for one source's fetch outcome: a successful
/// batch passes through unchanged; a failure becomes `"<label>: <detail>"`.
pub fn poll_outcome_msg(label: &str, fetched: Result<Vec<FeedItem>, String>) -> (msg: PollMsg)
    ensures
        match fetched {
            Ok(items) => msg == PollMsg::Items(items),
            Err(e) => msg is Error && msg->Error_0@ == label@ + ": "@ + e@,
        },
{
    match fetched {
        Ok(items) => PollMsg::Items(items),
        Err(e) => {
            let mut s = label.to_owned();
            s.append(": ");
            s.append(e.as_str());
            PollMsg::Error(s)
        },
    }
}

} // verus!
