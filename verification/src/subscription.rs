//! Subscription rows and the change sets exchanged with clients.

use vstd::prelude::*;

use crate::time::Timestamp;

verus! {

/// The answer to a subscription-change query: URLs added and removed since
/// the client's cursor, and the new cursor.
#[derive(Debug)]
pub struct SubscriptionChangesToClient {
    pub add: Vec<String>,
    pub remove: Vec<String>,
    pub timestamp: Timestamp,
}

/// A batch of subscription changes a client submits.
#[derive(Debug)]
pub struct SubscriptionChangesFromClient {
    pub add: Vec<String>,
    pub remove: Vec<String>,
}

/// One subscription row as the persistence port keeps it, keyed by
/// `(username, device, url)`. A removed subscription is never dropped:
/// `deleted` is set instead (a tombstone), so that "what was removed since
/// X" can still be answered.
#[derive(Debug, Clone)]
pub struct SubRecord {
    pub username: String,
    pub device: String,
    pub url: String,
    pub created: Timestamp,
    pub deleted: Option<Timestamp>,
}

/// The mathematical value of a [`SubRecord`].
pub struct SubRecordV {
    pub username: Seq<char>,
    pub device: Seq<char>,
    pub url: Seq<char>,
    pub created: int,
    pub deleted: Option<int>,
}

impl DeepView for SubRecord {
    type V = SubRecordV;

    open spec fn deep_view(&self) -> SubRecordV {
        SubRecordV {
            username: self.username@,
            device: self.device@,
            url: self.url@,
            created: self.created.value(),
            deleted: self.deleted.deep_view(),
        }
    }
}

} // verus!
