//! Who receives the live events of a deployment.
use vstd::prelude::*;
use crate::text::str_eq;

verus! {

/// The projects a subscriber listens to: all of them, or those named.
pub enum SubscriberScope {
    Global,
    Projects(Vec<String>),
}

/// Whether `p` is one of `names`.
pub open spec fn names_contain(names: Seq<String>, p: Seq<char>) -> bool {
    exists|i: int| 0 <= i < names.len() && (#[trigger] names[i])@ == p
}

pub open spec fn scope_allows(scope: SubscriberScope, p: Seq<char>) -> bool {
    match scope {
        SubscriberScope::Global => true,
        SubscriberScope::Projects(set) => names_contain(set@, p),
    }
}

fn contains_name(set: &Vec<String>, project_id: &str) -> (r: bool)
    ensures
        r == names_contain(set@, project_id@),
{
    let mut i: usize = 0;
    while i < set.len()
        invariant
            i <= set@.len(),
            forall|j: int| 0 <= j < i ==> (#[trigger] set@[j])@ != project_id@,
        decreases set@.len() - i,
    {
        if str_eq(set[i].as_str(), project_id) {
            assert(set@[i as int]@ == project_id@);
            return true;
        }
        i = i + 1;
    }
    false
}

impl SubscriberScope {
    /// Whether events of `project_id` reach the subscriber.
    pub fn allows(&self, project_id: &str) -> (r: bool)
        ensures
            r == scope_allows(*self, project_id@),
    {
        match self {
            SubscriberScope::Global => true,
            SubscriberScope::Projects(set) => contains_name(set, project_id),
        }
    }
}


/// What a broadcast does with one subscription.
#[derive(Debug, Clone, Copy, PartialEq, Eq, Structural)]
pub enum BroadcastStep {
    /// The subscriber is gone: forget the subscription.
    Drop,
    /// The event is not for this subscriber: keep the subscription as it is.
    Skip,
    /// Send the event to the subscriber.
    Send,
}

/// How sending an event to a subscriber went.
#[derive(Debug, Clone, Copy, PartialEq, Eq, Structural)]
pub enum SendOutcome {
    Sent,
    /// The subscriber closed its end.
    Closed,
    /// The subscriber lags; the event is lost for it.
    Full,
}

/// The step for a subscription when an event of `project_id` is broadcast; `alive`
/// tells whether its subscriber still exists.
pub fn broadcast_step(alive: bool, scope: &SubscriberScope, project_id: &str) -> (r: BroadcastStep)
    ensures
        r == if !alive {
            BroadcastStep::Drop
        } else if !scope_allows(*scope, project_id@) {
            BroadcastStep::Skip
        } else {
            BroadcastStep::Send
        },
{
    if !alive {
        BroadcastStep::Drop
    } else if !scope.allows(project_id) {
        BroadcastStep::Skip
    } else {
        BroadcastStep::Send
    }
}

/// Whether a subscription stays after an event was sent to it: unless its
/// subscriber closed its end.
pub fn keeps_subscription(outcome: SendOutcome) -> (r: bool)
    ensures
        r == (outcome != SendOutcome::Closed),
{
    match outcome {
        SendOutcome::Closed => false,
        _ => true,
    }
}

} // verus!
