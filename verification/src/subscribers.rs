//! Event subscribers: the sole writers of the authorization cache.
//!
//! Each handler takes one decoded bus message — the subject names the
//! entity kind and the action as its final segment — and applies it to
//! the cached facts: `upsert` replaces the fact wholesale, `delete`
//! removes it by its primary identity, anything else is dropped. Decode
//! and apply failures skip the message; redelivery is the bus's concern.

use vstd::prelude::*;

pub mod offer;
pub mod shop;
pub mod subscription;

use vstd::string::StrSliceExecFns;

verus! {

/// The suffix of `s` after its last `'.'` — the whole of `s` when it has
/// none.
pub open spec fn last_segment(s: Seq<char>) -> Seq<char>
    decreases s.len(),
{
    if s.len() == 0 {
        Seq::empty()
    } else if s.last() == '.' {
        Seq::empty()
    } else {
        last_segment(s.drop_last()).push(s.last())
    }
}

/// The action named by a bus subject's final segment.
#[derive(Clone, Copy, Debug, PartialEq, Eq, Structural)]
pub enum SubscriberAction {
    Upsert,
    Delete,
    Other,
}

/// The action of a subject, decided by its last segment.
pub open spec fn action_of_subject(subject: Seq<char>) -> SubscriberAction {
    if last_segment(subject) == "upsert"@ {
        SubscriberAction::Upsert
    } else if last_segment(subject) == "delete"@ {
        SubscriberAction::Delete
    } else {
        SubscriberAction::Other
    }
}

/// Whether a handler applied the message or dropped it.
#[derive(Clone, Copy, Debug, PartialEq, Eq, Structural)]
pub enum ApplyOutcome {
    Applied,
    Skipped,
}

/// Parses the action from a subject.
pub fn parse_action(subject: &str) -> (r: SubscriberAction)
    ensures
        r == action_of_subject(subject@),
{
    let n = subject.unicode_len();
    let mut start: usize = 0;
    for i in 0..n
        invariant
            n == subject@.len(),
            start <= i,
            last_segment(subject@.take(i as int)) == subject@.subrange(start as int, i as int),
    {
        proof {
            assert(subject@.take(i + 1).drop_last() =~= subject@.take(i as int));
            assert(subject@.take(i + 1).last() == subject@[i as int]);
        }
        let c = subject.get_char(i);
        if c == '.' {
            start = i + 1;
            proof {
                assert(last_segment(subject@.take(i + 1)) =~= subject@.subrange(
                    i + 1,
                    i + 1,
                ));
            }
        } else {
            proof {
                assert(last_segment(subject@.take(i + 1)) =~= subject@.subrange(
                    start as int,
                    i + 1,
                ));
            }
        }
    }
    let seg = subject.substring_char(start, n);
    proof {
        assert(subject@.take(n as int) =~= subject@);
        assert(seg@ == last_segment(subject@));
    }
    let seg_string = seg.to_owned();
    if seg_string == "upsert".to_owned() {
        SubscriberAction::Upsert
    } else if seg_string == "delete".to_owned() {
        SubscriberAction::Delete
    } else {
        SubscriberAction::Other
    }
}

} // verus!
