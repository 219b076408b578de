//! The ingestion API: submit an entry, list the current window, trigger the
//! digest. Every operation is gated by the credential check, and a refused
//! request has no observable effect.
//!
//! The service state is an explicit value — secret, destination list,
//! reference-timezone offset, store — injected into every operation; the
//! current instant is passed in by the caller, so the clock is external.

use vstd::prelude::*;

use crate::auth::credential_ok;
use crate::calendar::{in_window, time_index, Civil};
use crate::digest::{compile_digest, fallback_payload, iso_week_number, weekly_payload,
    DigestPayload};
use crate::dispatch::{joined, Dispatcher};
use crate::errors::ApiError;
use crate::store::{models, window_of, EntryModel, EntryStore, FeedEntry};

verus! {

/// The whole state of the service.
pub struct Service {
    secret: String,
    webhook_urls: String,
    tz_offset: i64,
    store: EntryStore,
}

impl Service {
    /// The configured shared secret.
    pub closed spec fn spec_secret(self) -> Seq<char> {
        self.secret@
    }

    /// The configured comma-separated webhook destination list.
    pub closed spec fn spec_urls(self) -> Seq<char> {
        self.webhook_urls@
    }

    /// The configured reference-timezone offset, seconds east of UTC.
    pub closed spec fn spec_offset(self) -> int {
        self.tz_offset as int
    }

    /// The stored entries, in insertion order.
    pub closed spec fn entries(self) -> Seq<EntryModel> {
        self.store@
    }

    /// A well-formed service: a sane offset and a well-formed store.
    pub open spec fn wf(self) -> bool {
        &&& -86400 < self.spec_offset() < 86400
        &&& forall|i: int|
            0 <= i < self.entries().len() ==> crate::store::wf_entry(#[trigger] self.entries()[i])
    }

    /// A fresh service around an empty store.
    pub fn new(secret: String, webhook_urls: String, tz_offset: i64) -> (r: Service)
        requires
            -86400 < tz_offset < 86400,
        ensures
            r.wf(),
            r.spec_secret() == secret@,
            r.spec_urls() == webhook_urls@,
            r.spec_offset() == tz_offset as int,
            r.entries() =~= Seq::<EntryModel>::empty(),
    {
        let store = EntryStore::new();
        Service { secret, webhook_urls, tz_offset, store }
    }

    /// Submits one entry. With the right credential and an absolute URL the
    /// entry is appended, stamped with the server instant `now`; a wrong
    /// credential or an invalid link is refused with no effect on the store.
    pub fn submit(&mut self, cred: &str, link: &str, title: &str, feed: &str, now: &Civil) -> (r:
        Result<usize, ApiError>)
        requires
            old(self).wf(),
            now.wf(),
        ensures
            final(self).wf(),
            final(self).spec_secret() == old(self).spec_secret(),
            final(self).spec_urls() == old(self).spec_urls(),
            final(self).spec_offset() == old(self).spec_offset(),
            cred@ != old(self).spec_secret() ==> r == Err::<usize, ApiError>(
                ApiError::Unauthorized,
            ) && final(self).entries() == old(self).entries(),
            cred@ == old(self).spec_secret() && crate::link::parsed_url(link@) is None ==> r
                == Err::<usize, ApiError>(ApiError::InvalidUrl) && final(self).entries() == old(
                self,
            ).entries(),
            cred@ == old(self).spec_secret() && crate::link::parsed_url(link@) is Some ==> {
                &&& (r matches Ok(id) && id == old(self).entries().len())
                &&& final(self).entries().len() == old(self).entries().len() + 1
                &&& final(self).entries().drop_last() == old(self).entries()
                &&& final(self).entries().last().link == crate::link::parsed_url(link@).unwrap()
                &&& final(self).entries().last().date == *now
                &&& final(self).entries().last().ts == time_index(*now)
                &&& final(self).entries().last().title == title@
                &&& final(self).entries().last().feed == feed@
            },
    {
        if !credential_ok(cred, self.secret.as_str()) {
            return Err(ApiError::Unauthorized);
        }
        proof {
            lemma_service_store_wf(*self);
        }
        let r = self.store.append(link, title, feed, now);
        proof {
            assert forall|i: int| 0 <= i < self.entries().len() implies crate::store::wf_entry(
                #[trigger] self.entries()[i],
            ) by {
                assert(self.entries()[i] == self.store@[i]);
            }
        }
        r
    }

    /// Lists the current window: every stored entry whose timestamp lies in
    /// `[start of the current local week, now)`, in insertion order. A wrong
    /// credential is refused.
    pub fn list_window(&self, cred: &str, now: &Civil) -> (r: Result<Vec<FeedEntry>, ApiError>)
        requires
            self.wf(),
            now.wf(),
        ensures
            cred@ != self.spec_secret() ==> (r matches Err(e) && e == ApiError::Unauthorized),
            cred@ == self.spec_secret() ==> (r matches Ok(v) && models(v@) == window_of(
                self.entries(),
                time_index(*now),
                self.spec_offset(),
            )),
    {
        if !credential_ok(cred, self.secret.as_str()) {
            return Err(ApiError::Unauthorized);
        }
        let ts = crate::calendar::time_index_of(now);
        Ok(self.store.query_window(ts, self.tz_offset))
    }

    /// Triggers the digest: compiles the current window into one payload —
    /// the fallback for an empty window — and opens a dispatch over the
    /// configured destinations, nothing yet attempted. A wrong credential is
    /// refused, and then no payload exists and nothing can be dispatched.
    pub fn trigger_digest(&self, cred: &str, now: &Civil) -> (r: Result<
        (DigestPayload, Dispatcher),
        ApiError,
    >)
        requires
            self.wf(),
            now.wf(),
        ensures
            cred@ != self.spec_secret() ==> (r matches Err(e) && e == ApiError::Unauthorized),
            cred@ == self.spec_secret() ==> (r matches Ok(pd) && {
                let win = window_of(self.entries(), time_index(*now), self.spec_offset());
                &&& win.len() == 0 ==> fallback_payload(pd.0@)
                &&& win.len() > 0 ==> weekly_payload(
                    pd.0@,
                    win,
                    iso_week_number(now.year as int, now.month as int, now.day as int),
                )
                &&& pd.1.wf()
                &&& pd.1@.next == 0
                &&& !pd.1@.failed
                &&& pd.1@.destinations.len() >= 1
                &&& joined(pd.1@.destinations) == self.spec_urls()
            }),
    {
        if !credential_ok(cred, self.secret.as_str()) {
            return Err(ApiError::Unauthorized);
        }
        let ts = crate::calendar::time_index_of(now);
        let window = self.store.query_window(ts, self.tz_offset);
        proof {
            assert(models(window@).len() == 0 ==> window@.len() == 0);
            assert(window@.len() == 0 ==> models(window@).len() == 0);
        }
        let payload = compile_digest(&window, now);
        let dispatcher = Dispatcher::new(self.webhook_urls.as_str());
        Ok((payload, dispatcher))
    }
}

/// A well-formed service holds a well-formed store.
proof fn lemma_service_store_wf(s: Service)
    requires
        s.wf(),
    ensures
        s.store.wf(),
{
    assert forall|i: int| 0 <= i < s.store@.len() implies crate::store::wf_entry(
        #[trigger] s.store@[i],
    ) by {
        assert(s.store@[i] == s.entries()[i]);
    }
}

/// The round-trip law: an entry appended with a timestamp inside the window
/// of a later instant appears in that instant's window listing as the last
/// element, fields intact; the rest of the listing is unchanged.
pub proof fn lemma_round_trip(s: Seq<EntryModel>, e: EntryModel, now: int, off: int)
    requires
        in_window(e.ts, now, off),
    ensures
        window_of(s.push(e), now, off) == window_of(s, now, off).push(e),
{
    assert(s.push(e).drop_last() =~= s);
    assert(s.push(e).last() == e);
}

} // verus!
