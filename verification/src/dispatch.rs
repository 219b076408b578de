//! The webhook dispatcher: one payload, several destinations, strictly in
//! list order, stopping at the first failure.
//!
//! The dispatcher itself performs no transfer. It is a state machine: the
//! caller asks for the next destination, performs the delivery, and records
//! the outcome. Success of the whole dispatch requires every destination to
//! accept; after one failure no further destination is ever offered.

use vstd::prelude::*;

use crate::errors::ApiError;

verus! {

/// The views of a sequence of strings.
pub open spec fn string_views(s: Seq<String>) -> Seq<Seq<char>> {
    s.map_values(|x: String| x@)
}

/// The parts joined back with single commas.
pub open spec fn joined(parts: Seq<Seq<char>>) -> Seq<char>
    decreases parts.len(),
{
    if parts.len() == 0 {
        Seq::empty()
    } else if parts.len() == 1 {
        parts[0]
    } else {
        parts[0] + seq![','] + joined(parts.drop_first())
    }
}

/// Appending one more part joins as the old text, a comma, and the part.
pub proof fn lemma_joined_push(parts: Seq<Seq<char>>, q: Seq<char>)
    requires
        parts.len() >= 1,
    ensures
        joined(parts.push(q)) == joined(parts) + seq![','] + q,
    decreases parts.len(),
{
    if parts.len() == 1 {
        assert(parts.push(q).drop_first() =~= seq![q]);
        assert(joined(seq![q]) == q);
        assert(joined(parts.push(q)) =~= joined(parts) + seq![','] + q);
    } else {
        lemma_joined_push(parts.drop_first(), q);
        assert(parts.push(q).drop_first() =~= parts.drop_first().push(q));
        assert(parts.push(q)[0] == parts[0]);
        assert(joined(parts.push(q)) =~= joined(parts) + seq![','] + q);
    }
}

/// Splits a comma-separated destination list. The result is the unique
/// sequence of comma-free parts that joins back to the input.
pub fn split_destinations(s: &str) -> (r: Vec<String>)
    ensures
        r@.len() >= 1,
        joined(string_views(r@)) == s@,
        forall|i: int| 0 <= i < r@.len() ==> !(#[trigger] r@[i]@).contains(','),
{
    let n = s.unicode_len();
    let mut parts: Vec<String> = Vec::new();
    let mut start: usize = 0;
    let mut i: usize = 0;
    while i < n
        invariant
            start <= i <= n,
            n == s@.len(),
            parts@.len() == 0 ==> start == 0,
            parts@.len() >= 1 ==> joined(string_views(parts@)) + seq![','] =~= s@.take(
                start as int,
            ),
            forall|k: int| 0 <= k < parts@.len() ==> !(#[trigger] parts@[k]@).contains(','),
            forall|j: int| start <= j < i ==> s@[j] != ',',
        decreases n - i,
    {
        if s.get_char(i) == ',' {
            let piece = s.substring_char(start, i).to_owned();
            proof {
                assert(piece@ =~= s@.subrange(start as int, i as int));
                assert(!piece@.contains(',')) by {
                    assert(forall|j: int| 0 <= j < piece@.len() ==> piece@[j] != ',');
                }
                if parts@.len() >= 1 {
                    lemma_joined_push(string_views(parts@), piece@);
                }
            }
            let ghost old_parts = parts@;
            parts.push(piece);
            proof {
                assert(string_views(parts@) =~= string_views(old_parts).push(
                    s@.subrange(start as int, i as int),
                ));
                if old_parts.len() == 0 {
                    assert(joined(string_views(parts@)) =~= s@.take(i as int));
                } else {
                    assert(joined(string_views(parts@)) =~= s@.take(i as int));
                }
                assert(joined(string_views(parts@)) + seq![','] =~= s@.take(i + 1));
            }
            start = i + 1;
        }
        i += 1;
    }
    let piece = s.substring_char(start, n).to_owned();
    proof {
        assert(piece@ =~= s@.subrange(start as int, n as int));
        assert(!piece@.contains(',')) by {
            assert(forall|j: int| 0 <= j < piece@.len() ==> piece@[j] != ',');
        }
        if parts@.len() >= 1 {
            lemma_joined_push(string_views(parts@), piece@);
        }
    }
    let ghost old_parts = parts@;
    parts.push(piece);
    proof {
        assert(string_views(parts@) =~= string_views(old_parts).push(
            s@.subrange(start as int, n as int),
        ));
        assert(s@.take(n as int) =~= s@);
        if old_parts.len() == 0 {
            assert(joined(string_views(parts@)) =~= s@);
        } else {
            assert(joined(string_views(parts@)) =~= s@);
        }
    }
    parts
}

/// The mathematical model of a dispatch in progress.
pub struct DispatchModel {
    /// Destination list, in configured order.
    pub destinations: Seq<Seq<char>>,
    /// Index of the next destination to attempt; all before it succeeded.
    pub next: int,
    /// Whether a delivery has failed.
    pub failed: bool,
}

/// The destination, if any, that is still to be attempted: none once the
/// dispatch has failed or every destination has accepted.
pub open spec fn offered(d: DispatchModel) -> Option<int> {
    if !d.failed && d.next < d.destinations.len() {
        Some(d.next)
    } else {
        None
    }
}

/// The reported result of a dispatch: failure as soon as one destination
/// failed, success only after every destination accepted, nothing before.
pub open spec fn outcome_of(d: DispatchModel) -> Option<Result<(), ApiError>> {
    if d.failed {
        Some(Err(ApiError::DeliveryFailure))
    } else if d.next == d.destinations.len() {
        Some(Ok(()))
    } else {
        None
    }
}

/// A dispatch of one payload to a configured list of destinations.
pub struct Dispatcher {
    destinations: Vec<String>,
    next: usize,
    failed: bool,
}

impl View for Dispatcher {
    type V = DispatchModel;

    closed spec fn view(&self) -> DispatchModel {
        DispatchModel {
            destinations: string_views(self.destinations@),
            next: self.next as int,
            failed: self.failed,
        }
    }
}

impl Dispatcher {
    pub open spec fn wf(self) -> bool {
        0 <= self@.next <= self@.destinations.len()
    }

    /// A fresh dispatch over the comma-separated destination list `urls`:
    /// nothing attempted, nothing failed.
    pub fn new(urls: &str) -> (r: Dispatcher)
        ensures
            r.wf(),
            r@.next == 0,
            !r@.failed,
            r@.destinations.len() >= 1,
            joined(r@.destinations) == urls@,
            forall|i: int|
                0 <= i < r@.destinations.len() ==> !(#[trigger] r@.destinations[i]).contains(','),
    {
        let destinations = split_destinations(urls);
        Dispatcher { destinations, next: 0, failed: false }
    }

    /// The number of configured destinations.
    pub fn destination_count(&self) -> (r: usize)
        ensures
            r == self@.destinations.len(),
    {
        self.destinations.len()
    }

    /// The destination to attempt next, or nothing when the dispatch is over
    /// — in particular, always nothing after a failure.
    pub fn next_destination(&self) -> (r: Option<&String>)
        requires
            self.wf(),
        ensures
            r is Some <==> offered(self@) is Some,
            r matches Some(u) ==> u@ == self@.destinations[self@.next],
    {
        if self.failed || self.next >= self.destinations.len() {
            None
        } else {
            Some(&self.destinations[self.next])
        }
    }

    /// Records that the current destination accepted the payload.
    pub fn record_success(&mut self)
        requires
            old(self).wf(),
            offered(old(self)@) is Some,
        ensures
            final(self).wf(),
            final(self)@.destinations == old(self)@.destinations,
            final(self)@.next == old(self)@.next + 1,
            !final(self)@.failed,
    {
        let n = self.destinations.len();
        proof {
            assert(self@.destinations.len() == self.destinations@.len());
            assert(self.next < n);
        }
        self.next = self.next + 1;
    }

    /// Records that the current destination failed: the dispatch aborts, and
    /// the destinations after the current one stay unattempted.
    pub fn record_failure(&mut self)
        requires
            old(self).wf(),
            offered(old(self)@) is Some,
        ensures
            final(self).wf(),
            final(self)@.destinations == old(self)@.destinations,
            final(self)@.next == old(self)@.next,
            final(self)@.failed,
            offered(final(self)@) is None,
            outcome_of(final(self)@) == Some(Err::<(), ApiError>(ApiError::DeliveryFailure)),
    {
        self.failed = true;
    }

    /// The dispatch's result so far: `None` while destinations remain.
    pub fn outcome(&self) -> (r: Option<Result<(), ApiError>>)
        requires
            self.wf(),
        ensures
            r == outcome_of(self@),
    {
        if self.failed {
            Some(Err(ApiError::DeliveryFailure))
        } else if self.next == self.destinations.len() {
            Some(Ok(()))
        } else {
            None
        }
    }
}

/// The short-circuit law: in any dispatch state where a delivery has failed,
/// no destination is offered any more — in particular, with two configured
/// destinations of which the first failed, the second never receives an
/// attempt — and the dispatch reports `DeliveryFailure`.
pub proof fn lemma_dispatch_short_circuit(d: DispatchModel)
    requires
        d.failed,
    ensures
        offered(d) is None,
        outcome_of(d) == Some(Err::<(), ApiError>(ApiError::DeliveryFailure)),
{
}

} // verus!
