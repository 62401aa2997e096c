//! Device discovery decisions: the pipeline polls until a serial device
//! node appears, then until a block-transport endpoint enumerates. Neither
//! wait has an upper bound — the operator is expected to connect and power
//! the device — so each poll step decides only: bind what was found, or
//! retry after the fixed interval. The checking and sleeping is the
//! caller's job.

use vstd::prelude::*;

verus! {

/// Interval between checks for the serial device node.
pub const SERIAL_POLL_INTERVAL_MILLIS: u64 = 500;

/// Interval between checks for a block-transport endpoint.
pub const FASTBOOT_POLL_INTERVAL_MILLIS: u64 = 100;

/// What a poll step decides.
#[derive(Clone, Copy, Debug, PartialEq, Eq, Structural)]
pub enum PollDecision {
    /// The condition holds: bind the first match and proceed.
    Bind,
    /// Nothing found yet: suspend for this long and poll again.
    RetryAfterMillis { millis: u64 },
}

/// Decide one serial-presence poll step: proceed once the device node
/// exists, else retry on the serial interval.
pub fn serial_poll_decision(device_present: bool) -> (r: PollDecision)
    ensures
        r == (if device_present {
            PollDecision::Bind
        } else {
            PollDecision::RetryAfterMillis { millis: SERIAL_POLL_INTERVAL_MILLIS }
        }),
{
    if device_present {
        PollDecision::Bind
    } else {
        PollDecision::RetryAfterMillis { millis: SERIAL_POLL_INTERVAL_MILLIS }
    }
}

/// Which enumerated endpoint the deployment profile binds: any endpoint at
/// all, or only one whose reported identifier equals a fixed expected
/// value.
#[derive(Clone, Debug)]
pub enum TargetMatch {
    Any,
    ExactIdentifier(String),
}

/// Whether one reported identifier satisfies the matching rule.
pub open spec fn spec_endpoint_matches(rule: TargetMatch, id: Seq<char>) -> bool {
    match rule {
        TargetMatch::Any => true,
        TargetMatch::ExactIdentifier(e) => id == e@,
    }
}

pub fn endpoint_matches(rule: &TargetMatch, id: &String) -> (r: bool)
    ensures
        r == spec_endpoint_matches(*rule, id@),
{
    match rule {
        TargetMatch::Any => true,
        TargetMatch::ExactIdentifier(e) => e.eq(id),
    }
}

/// Bind the first enumerated endpoint the rule accepts: its index, or
/// nothing when no reported identifier matches. No further disambiguation
/// is attempted.
pub fn select_endpoint(rule: &TargetMatch, ids: &Vec<String>) -> (r: Option<usize>)
    ensures
        r matches Some(i) ==> i < ids@.len() && spec_endpoint_matches(*rule, ids@[i as int]@)
            && forall|j: int|
            0 <= j < i ==> !spec_endpoint_matches(*rule, (#[trigger] ids@[j])@),
        r is None ==> forall|j: int|
            0 <= j < ids@.len() ==> !spec_endpoint_matches(*rule, (#[trigger] ids@[j])@),
{
    let mut i: usize = 0;
    while i < ids.len()
        invariant
            i <= ids@.len(),
            forall|j: int| 0 <= j < i ==> !spec_endpoint_matches(*rule, (#[trigger] ids@[j])@),
        decreases ids@.len() - i,
    {
        if endpoint_matches(rule, &ids[i]) {
            return Some(i);
        }
        i += 1;
    }
    None
}

/// Decide one transport-enumeration poll step: bind the first enumerated
/// endpoint once any exists, else retry on the transport interval.
pub fn fastboot_poll_decision(endpoints_found: usize) -> (r: PollDecision)
    ensures
        r == (if endpoints_found > 0 {
            PollDecision::Bind
        } else {
            PollDecision::RetryAfterMillis { millis: FASTBOOT_POLL_INTERVAL_MILLIS }
        }),
{
    if endpoints_found > 0 {
        PollDecision::Bind
    } else {
        PollDecision::RetryAfterMillis { millis: FASTBOOT_POLL_INTERVAL_MILLIS }
    }
}

} // verus!
