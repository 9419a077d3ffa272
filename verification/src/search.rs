//! The lookup coordinator: a single-slot registry that correlates one
//! outstanding search request, by channel, with the eventual result-shaped
//! event. A timeout resolves to a negative answer; a later request
//! supersedes an unresolved earlier one; a result with no request pending is
//! discarded.
use vstd::prelude::*;
use vstd::string::*;

verus! {

/// What a resolved lookup reports.
#[derive(Debug, Clone, PartialEq)]
pub struct SearchResult {
    pub name: String,
    pub series: String,
    pub image_url: Option<String>,
    pub kakera_value: Option<u32>,
    pub exists: bool,
}

/// At most one request is pending at a time, remembered by its channel.
pub struct LookupCoordinator {
    pending: Option<u64>,
}

impl LookupCoordinator {
    /// The channel of the pending request, if one is outstanding.
    pub closed spec fn spec_pending(&self) -> Option<u64> {
        self.pending
    }

    pub fn new() -> (r: Self)
        ensures
            r.spec_pending() is None,
    {
        Self { pending: None }
    }

    pub fn pending_channel(&self) -> (r: Option<u64>)
        ensures
            r == self.spec_pending(),
    {
        self.pending
    }

    /// Register a request on a channel and hand back the lookup command to
    /// send there. A still-unresolved earlier request is superseded.
    pub fn request(&mut self, query: &str, channel_id: u64) -> (cmd: String)
        ensures
            final(self).spec_pending() == Some(channel_id),
            cmd@ == "$im "@ + query@,
    {
        self.pending = Some(channel_id);
        let mut cmd = String::from_str("$im ");
        cmd.append(query);
        cmd
    }

    /// A result-shaped event arrived on a channel: it satisfies the pending
    /// request exactly when the channels agree; otherwise it is discarded
    /// and the request stays pending.
    pub fn on_result(&mut self, channel_id: u64) -> (taken: bool)
        ensures
            taken == (old(self).spec_pending() == Some(channel_id)),
            taken ==> final(self).spec_pending() is None,
            !taken ==> final(self).spec_pending() == old(self).spec_pending(),
    {
        match self.pending {
            Some(expected) => {
                if expected == channel_id {
                    self.pending = None;
                    true
                } else {
                    false
                }
            },
            None => false,
        }
    }

    /// The timeout fired: whatever was pending resolves negatively.
    pub fn on_timeout(&mut self) -> (had: bool)
        ensures
            had == (old(self).spec_pending() is Some),
            final(self).spec_pending() is None,
    {
        let had = self.pending.is_some();
        self.pending = None;
        had
    }

    /// The request failed to go out: drop it so a result cannot match it.
    pub fn on_send_failed(&mut self) -> (had: bool)
        ensures
            had == (old(self).spec_pending() is Some),
            final(self).spec_pending() is None,
    {
        let had = self.pending.is_some();
        self.pending = None;
        had
    }
}

/// Assemble the summary a satisfied lookup reports.
pub fn build_search_result(
    name: String,
    series: String,
    image_url: Option<String>,
    kakera_value: Option<u32>,
    exists: bool,
) -> (r: SearchResult)
    ensures
        r.name@ == name@,
        r.series@ == series@,
        r.image_url == image_url,
        r.kakera_value == kakera_value,
        r.exists == exists,
{
    SearchResult { name, series, image_url, kakera_value, exists }
}

} // verus!
