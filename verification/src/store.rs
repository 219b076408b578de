//! The append-only entry store and its windowed read.
//!
//! Entries are never mutated or deleted; a digest is a computed view over
//! the window, so nothing marks an entry as delivered, and an entry can
//! appear in more than one digest if the trigger fires twice in one window.

use vstd::prelude::*;

use crate::calendar::{in_window, time_index, Civil};
use crate::errors::ApiError;
use crate::link::{is_stored_link, parse_absolute_url, parsed_url};

verus! {

/// One ingested feed entry.
#[derive(Debug)]
pub struct FeedEntry {
    /// Serialization of the entry's absolute URL.
    pub link: String,
    /// Server-assigned ingestion instant, civil UTC.
    pub date: Civil,
    /// Time index of `date`: seconds since the calendar anchor.
    pub ts: u64,
    /// Free-text label.
    pub title: String,
    /// Free-text source identifier.
    pub feed: String,
}

/// The mathematical model of an entry.
pub struct EntryModel {
    pub link: Seq<char>,
    pub date: Civil,
    pub ts: int,
    pub title: Seq<char>,
    pub feed: Seq<char>,
}

impl View for FeedEntry {
    type V = EntryModel;

    open spec fn view(&self) -> EntryModel {
        EntryModel {
            link: self.link@,
            date: self.date,
            ts: self.ts as int,
            title: self.title@,
            feed: self.feed@,
        }
    }
}

/// A well-formed stored entry: a valid server-assigned timestamp, and a link
/// that is the serialization of an absolute URL.
pub open spec fn wf_entry(e: EntryModel) -> bool {
    &&& e.date.wf()
    &&& e.ts == time_index(e.date)
    &&& is_stored_link(e.link)
}

/// The models of a sequence of entries.
pub open spec fn models(s: Seq<FeedEntry>) -> Seq<EntryModel> {
    s.map_values(|e: FeedEntry| e@)
}

/// The subsequence of `s` whose timestamps fall in the window of `now`
/// (reference-timezone offset `off`), in stored order.
pub open spec fn window_of(s: Seq<EntryModel>, now: int, off: int) -> Seq<EntryModel>
    decreases s.len(),
{
    if s.len() == 0 {
        Seq::empty()
    } else {
        let rest = window_of(s.drop_last(), now, off);
        if in_window(s.last().ts, now, off) {
            rest.push(s.last())
        } else {
            rest
        }
    }
}

impl FeedEntry {
    /// A field-by-field copy, equal in model to the original.
    pub fn duplicate(&self) -> (r: FeedEntry)
        ensures
            r@ == self@,
    {
        FeedEntry {
            link: self.link.clone(),
            date: self.date,
            ts: self.ts,
            title: self.title.clone(),
            feed: self.feed.clone(),
        }
    }
}

/// The append-only log of ingested entries.
pub struct EntryStore {
    entries: Vec<FeedEntry>,
}

impl View for EntryStore {
    type V = Seq<EntryModel>;

    closed spec fn view(&self) -> Seq<EntryModel> {
        models(self.entries@)
    }
}

impl EntryStore {
    /// Every stored entry is well formed.
    pub open spec fn wf(self) -> bool {
        forall|i: int| 0 <= i < self@.len() ==> wf_entry(#[trigger] self@[i])
    }

    /// An empty store.
    pub fn new() -> (r: EntryStore)
        ensures
            r@ =~= Seq::<EntryModel>::empty(),
            r.wf(),
    {
        EntryStore { entries: Vec::new() }
    }

    /// Number of stored entries.
    pub fn len(&self) -> (r: usize)
        ensures
            r == self@.len(),
    {
        self.entries.len()
    }

    /// Validates the submitted link and appends a new entry stamped with the
    /// server instant `now`; the store is otherwise untouched. Returns the
    /// new entry's position, or `InvalidUrl` (and no change) exactly when
    /// the link is not an absolute URL.
    pub fn append(&mut self, link: &str, title: &str, feed: &str, now: &Civil) -> (r: Result<
        usize,
        ApiError,
    >)
        requires
            old(self).wf(),
            now.wf(),
        ensures
            final(self).wf(),
            parsed_url(link@) is None ==> r == Err::<usize, ApiError>(ApiError::InvalidUrl)
                && final(self)@ =~= old(self)@,
            parsed_url(link@) is Some ==> {
                &&& (r matches Ok(id) && id == old(self)@.len())
                &&& final(self)@.len() == old(self)@.len() + 1
                &&& final(self)@.drop_last() =~= old(self)@
                &&& final(self)@.last().link == parsed_url(link@).unwrap()
                &&& final(self)@.last().date == *now
                &&& final(self)@.last().ts == time_index(*now)
                &&& final(self)@.last().title == title@
                &&& final(self)@.last().feed == feed@
            },
    {
        match parse_absolute_url(link) {
            None => Err(ApiError::InvalidUrl),
            Some(stored) => {
                let id = self.entries.len();
                let ts = crate::calendar::time_index_of(now);
                let entry = FeedEntry {
                    link: stored,
                    date: *now,
                    ts,
                    title: title.to_owned(),
                    feed: feed.to_owned(),
                };
                let ghost m = entry@;
                self.entries.push(entry);
                proof {
                    assert(parsed_url(link@) == Some(m.link));
                    assert(is_stored_link(m.link));
                    assert(self@ =~= old(self)@.push(m));
                    assert(self@.drop_last() =~= old(self)@);
                    assert forall|i: int| 0 <= i < self@.len() implies wf_entry(
                        #[trigger] self@[i],
                    ) by {
                        if i < self@.len() - 1 {
                            assert(self@[i] == old(self)@[i]);
                        } else {
                            assert(self@[i] == m);
                        }
                    }
                }
                Ok(id)
            },
        }
    }

    /// Reads the current window: every stored entry whose timestamp lies in
    /// `[start of the current local week, now)`, in insertion order.
    pub fn query_window(&self, now: u64, off: i64) -> (r: Vec<FeedEntry>)
        requires
            -86400 < off < 86400,
            now + off >= 8 * 86400,
            now <= 265158547199,
        ensures
            models(r@) =~= window_of(self@, now as int, off as int),
    {
        let ghost nowi = now as int;
        let ghost offi = off as int;
        let mut out: Vec<FeedEntry> = Vec::new();
        let mut i: usize = 0;
        while i < self.entries.len()
            invariant
                i <= self.entries@.len(),
                nowi == now as int,
                offi == off as int,
                -86400 < off < 86400,
                now + off >= 8 * 86400,
                now <= 265158547199,
                models(out@) =~= window_of(self@.take(i as int), nowi, offi),
            decreases self.entries@.len() - i,
        {
            let e = &self.entries[i];
            proof {
                assert(self@.take(i + 1).drop_last() =~= self@.take(i as int));
                assert(self@.take(i + 1).last() == self@[i as int]);
                assert(e@ == self@[i as int]);
            }
            let ghost prev = out@;
            if in_window_check(e.ts, now, off) {
                out.push(e.duplicate());
                proof {
                    assert(models(out@) =~= models(prev).push(self@[i as int]));
                }
            }
            i += 1;
        }
        proof {
            assert(self@.take(self@.len() as int) =~= self@);
        }
        out
    }
}

/// Exec test of window membership.
pub fn in_window_check(ts: u64, now: u64, off: i64) -> (r: bool)
    requires
        -86400 < off < 86400,
        now + off >= 8 * 86400,
        now <= 265158547199,
    ensures
        r == in_window(ts as int, now as int, off as int),
{
    if ts >= now {
        return false;
    }
    let start = crate::calendar::window_start(now, off);
    ts >= start
}

} // verus!
