//! The messages that cross the channel, and the records the supervisor
//! accumulates.

use vstd::prelude::*;

verus! {

/// One message from the crawl engine to the supervisor: either a URL that
/// answered "not found", or the sentinel that closes the stream.
pub enum ChannelMessage {
    Found(String),
    Done,
}

/// One reported broken link. The title is always absent in this core;
/// populating it is an external enrichment step.
pub struct FailureRecord {
    pub url: String,
    pub title: Option<String>,
}

/// No message of `msgs` is the sentinel.
pub open spec fn no_done(msgs: Seq<ChannelMessage>) -> bool {
    forall|i: int| 0 <= i < msgs.len() ==> !((#[trigger] msgs[i]) is Done)
}

/// `msgs` ends with the sentinel, and the sentinel stands nowhere else.
pub open spec fn sentinel_final(msgs: Seq<ChannelMessage>) -> bool {
    msgs.len() > 0 && msgs.last() is Done && no_done(msgs.drop_last())
}

/// No two `Found` messages of `msgs` carry the same URL.
pub open spec fn found_urls_distinct(msgs: Seq<ChannelMessage>) -> bool {
    forall|i: int, j: int|
        0 <= i < j < msgs.len() && (#[trigger] msgs[i]) is Found && (#[trigger] msgs[j]) is Found
            ==> msgs[i]->Found_0@ != msgs[j]->Found_0@
}

/// Every URL a `Found` message of `msgs` carries stands in `visited`.
pub open spec fn found_urls_in(msgs: Seq<ChannelMessage>, visited: Seq<Seq<char>>) -> bool {
    forall|i: int| 0 <= i < msgs.len() && (#[trigger] msgs[i]) is Found
        ==> visited.contains(msgs[i]->Found_0@)
}

} // verus!
