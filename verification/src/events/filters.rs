//! Event filtering: whether an event passes a filter, and filters that
//! select by a single field.

use vstd::prelude::*;

use crate::events::{EventFilter, TipEvent};
use crate::ledger::Address;

verus! {

/// Some tag of `wanted` is spelled like some tag of `present`.
pub open spec fn shares_tag(wanted: Seq<String>, present: Seq<String>) -> bool {
    exists|i: int, j: int| 0 <= i < wanted.len() && 0 <= j < present.len() && #[trigger] wanted[i]@ == #[trigger] present[j]@
}

/// `event` passes every restriction that `filter` sets: sender, creator
/// and token equal; amount and timestamp within the bounds given (bounds
/// included); and, where a non-empty list of tags is given, at least one
/// of them among the event's tags.
pub open spec fn event_matches(event: TipEvent, filter: EventFilter) -> bool {
    &&& (filter.sender matches Some(s) ==> event.sender == s)
    &&& (filter.creator matches Some(c) ==> event.creator == c)
    &&& (filter.token matches Some(t) ==> event.token == t)
    &&& (filter.min_amount matches Some(min) ==> event.amount >= min)
    &&& (filter.max_amount matches Some(max) ==> event.amount <= max)
    &&& (filter.start_time matches Some(start) ==> event.timestamp >= start)
    &&& (filter.end_time matches Some(end) ==> event.timestamp <= end)
    &&& (filter.tags matches Some(tags) ==> (tags@.len() > 0 ==> shares_tag(tags@, event.tags@)))
}

/// A filter that restricts nothing.
pub open spec fn open_filter() -> EventFilter {
    EventFilter {
        event_type: None,
        sender: None,
        creator: None,
        token: None,
        min_amount: None,
        max_amount: None,
        start_time: None,
        end_time: None,
        tags: None,
    }
}

fn shared_tag(wanted: &Vec<String>, present: &Vec<String>) -> (r: bool)
    ensures
        r == shares_tag(wanted@, present@),
{
    let mut i: usize = 0;
    while i < wanted.len()
        invariant
            0 <= i <= wanted@.len(),
            forall|a: int, b: int| 0 <= a < i && 0 <= b < present@.len() ==> #[trigger] wanted@[a]@ != #[trigger] present@[b]@,
        decreases wanted@.len() - i,
    {
        let mut j: usize = 0;
        while j < present.len()
            invariant
                0 <= i < wanted@.len(),
                0 <= j <= present@.len(),
                forall|a: int, b: int| 0 <= a < i && 0 <= b < present@.len() ==> #[trigger] wanted@[a]@ != #[trigger] present@[b]@,
                forall|b: int| 0 <= b < j ==> wanted@[i as int]@ != #[trigger] present@[b]@,
            decreases present@.len() - j,
        {
            if wanted[i] == present[j] {
                proof {
                    assert(wanted@[i as int]@ == present@[j as int]@);
                }
                return true;
            }
            j = j + 1;
        }
        i = i + 1;
    }
    false
}

fn copy_tags(tags: &Vec<String>) -> (r: Vec<String>)
    ensures
        r@ == tags@,
{
    let mut out: Vec<String> = Vec::new();
    let mut i: usize = 0;
    while i < tags.len()
        invariant
            0 <= i <= tags@.len(),
            out@ == tags@.take(i as int),
        decreases tags@.len() - i,
    {
        out.push(tags[i].clone());
        proof {
            assert(tags@.take(i + 1) =~= tags@.take(i as int).push(tags@[i as int]));
        }
        i = i + 1;
    }
    proof {
        assert(tags@.take(i as int) =~= tags@);
    }
    out
}

/// Check if an event matches the given filter.
pub fn matches_filter(event: &TipEvent, filter: &EventFilter) -> (r: bool)
    ensures
        r == event_matches(*event, *filter),
{
    if let Some(sender) = filter.sender {
        if event.sender != sender {
            return false;
        }
    }
    if let Some(creator) = filter.creator {
        if event.creator != creator {
            return false;
        }
    }
    if let Some(token) = filter.token {
        if event.token != token {
            return false;
        }
    }
    if let Some(min) = filter.min_amount {
        if event.amount < min {
            return false;
        }
    }
    if let Some(max) = filter.max_amount {
        if event.amount > max {
            return false;
        }
    }
    if let Some(start) = filter.start_time {
        if event.timestamp < start {
            return false;
        }
    }
    if let Some(end) = filter.end_time {
        if event.timestamp > end {
            return false;
        }
    }
    if let Some(filter_tags) = &filter.tags {
        if filter_tags.len() > 0 {
            if !shared_tag(filter_tags, &event.tags) {
                return false;
            }
        }
    }
    true
}

/// A filter for events by creator.
pub fn creator_filter(creator: &Address) -> (r: EventFilter)
    ensures
        r == (EventFilter { creator: Some(*creator), ..open_filter() }),
{
    EventFilter {
        event_type: None,
        sender: None,
        creator: Some(*creator),
        token: None,
        min_amount: None,
        max_amount: None,
        start_time: None,
        end_time: None,
        tags: None,
    }
}

/// A filter for events by sender.
pub fn sender_filter(sender: &Address) -> (r: EventFilter)
    ensures
        r == (EventFilter { sender: Some(*sender), ..open_filter() }),
{
    EventFilter {
        event_type: None,
        sender: Some(*sender),
        creator: None,
        token: None,
        min_amount: None,
        max_amount: None,
        start_time: None,
        end_time: None,
        tags: None,
    }
}

/// A filter for events by token.
pub fn token_filter(token: &Address) -> (r: EventFilter)
    ensures
        r == (EventFilter { token: Some(*token), ..open_filter() }),
{
    EventFilter {
        event_type: None,
        sender: None,
        creator: None,
        token: Some(*token),
        min_amount: None,
        max_amount: None,
        start_time: None,
        end_time: None,
        tags: None,
    }
}

/// A filter for events by time range, both ends included.
pub fn time_range_filter(start: u64, end: u64) -> (r: EventFilter)
    ensures
        r == (EventFilter { start_time: Some(start), end_time: Some(end), ..open_filter() }),
{
    EventFilter {
        event_type: None,
        sender: None,
        creator: None,
        token: None,
        min_amount: None,
        max_amount: None,
        start_time: Some(start),
        end_time: Some(end),
        tags: None,
    }
}

/// A filter for events by amount range, both ends included.
pub fn amount_range_filter(min: i128, max: i128) -> (r: EventFilter)
    ensures
        r == (EventFilter { min_amount: Some(min), max_amount: Some(max), ..open_filter() }),
{
    EventFilter {
        event_type: None,
        sender: None,
        creator: None,
        token: None,
        min_amount: Some(min),
        max_amount: Some(max),
        start_time: None,
        end_time: None,
        tags: None,
    }
}

/// A filter for events by tags.
pub fn tags_filter(tags: &Vec<String>) -> (r: EventFilter)
    ensures
        r.tags matches Some(t) && t@ == tags@,
        r.event_type is None && r.sender is None && r.creator is None && r.token is None,
        r.min_amount is None && r.max_amount is None && r.start_time is None && r.end_time is None,
{
    EventFilter {
        event_type: None,
        sender: None,
        creator: None,
        token: None,
        min_amount: None,
        max_amount: None,
        start_time: None,
        end_time: None,
        tags: Some(copy_tags(tags)),
    }
}

/// Each single-field filter selects exactly the events whose field
/// matches: the same creator, sender or token, a timestamp or amount
/// within the range (ends included), or a shared tag (an empty tag list
/// selects every event).
pub proof fn lemma_single_field_filters(
    event: TipEvent,
    who: Address,
    start: u64,
    end: u64,
    min: i128,
    max: i128,
    tags: Seq<String>,
    tag_filter: EventFilter,
)
    requires
        tag_filter.tags matches Some(t) && t@ == tags,
        tag_filter.sender is None && tag_filter.creator is None && tag_filter.token is None,
        tag_filter.min_amount is None && tag_filter.max_amount is None,
        tag_filter.start_time is None && tag_filter.end_time is None,
    ensures
        event_matches(event, EventFilter { creator: Some(who), ..open_filter() }) <==> event.creator == who,
        event_matches(event, EventFilter { sender: Some(who), ..open_filter() }) <==> event.sender == who,
        event_matches(event, EventFilter { token: Some(who), ..open_filter() }) <==> event.token == who,
        event_matches(event, EventFilter { start_time: Some(start), end_time: Some(end), ..open_filter() })
            <==> start <= event.timestamp <= end,
        event_matches(event, EventFilter { min_amount: Some(min), max_amount: Some(max), ..open_filter() })
            <==> min <= event.amount <= max,
        event_matches(event, tag_filter) <==> (tags.len() == 0 || shares_tag(tags, event.tags@)),
        event_matches(event, open_filter()),
{
}

} // verus!
