//! Decisions of the peer-to-peer event loops: how an inbound request is
//! answered, when a peer may be redialed, and how the one-shot submission
//! test judges a response. The loops themselves — transport, timers,
//! dialing — live in the surrounding program and consult these.

use vstd::prelude::*;

use crate::config::Role;
use crate::msg::{BookingData, Msg, NotifyData};
use crate::strutil::str_eq;

verus! {

/// What the event loop should do with an inbound request.
pub enum RequestAction {
    /// Answer an operation submission with a positive acknowledgement.
    AckOp { op_id: String },
    /// Hand the booking to the submit handler.
    HandleBooking { correlation_id: String, booking: BookingData, notify: NotifyData },
    /// Refuse the booking with an error acknowledgement: this node is not a
    /// gateway with a working broker.
    RefuseBooking { correlation_id: String },
    /// Nothing to answer.
    Ignore,
}

/// Decides how to answer one inbound request: operation submissions are
/// acknowledged as processed; booking submissions go to the broker exactly
/// when this node is a gateway whose broker is up, and are refused with an
/// error status otherwise; everything else is ignored.
pub fn classify_request(role: &Role, broker_ready: bool, msg: Msg) -> (r: RequestAction)
    ensures
        match msg {
            Msg::OpSubmit { op } => r matches RequestAction::AckOp { op_id } && op_id == op.op_id,
            Msg::SubmitBooking { correlation_id, booking, notify } => if role == Role::Gateway
                && broker_ready {
                r matches RequestAction::HandleBooking {
                    correlation_id: c,
                    booking: b,
                    notify: n,
                } && c == correlation_id && b == booking && n == notify
            } else {
                r matches RequestAction::RefuseBooking { correlation_id: c } && c
                    == correlation_id
            },
            _ => r matches RequestAction::Ignore,
        },
{
    match msg {
        Msg::OpSubmit { op } => RequestAction::AckOp { op_id: op.op_id },
        Msg::SubmitBooking { correlation_id, booking, notify } => {
            let is_gateway = match role {
                Role::Gateway => true,
                Role::Client => false,
            };
            if is_gateway && broker_ready {
                RequestAction::HandleBooking { correlation_id, booking, notify }
            } else {
                RequestAction::RefuseBooking { correlation_id }
            }
        },
        _ => RequestAction::Ignore,
    }
}

/// The positive acknowledgement for a processed operation.
pub fn make_op_ack(op_id: String) -> (r: Msg)
    ensures
        r matches Msg::OpAck { op_id: o, ok, msg } && o == op_id && ok && msg@ == "Processed"@,
{
    Msg::OpAck { op_id, ok: true, msg: String::from_str("Processed") }
}

/// The error acknowledgement for a booking this node cannot process.
pub fn make_error_ack(correlation_id: String) -> (r: Msg)
    ensures
        r matches Msg::BookingAck { correlation_id: c, status } && c == correlation_id && status@
            == "error"@,
{
    Msg::BookingAck { correlation_id, status: String::from_str("error") }
}

/// How the one-shot submission test judges a response: a matching, positive
/// acknowledgement passes; a mismatched or negative one fails; anything
/// else keeps the test waiting.
#[derive(Debug, Clone, Copy, PartialEq, Eq, Structural)]
pub enum TestVerdict {
    Pass,
    Fail,
    KeepWaiting,
}

pub fn evaluate_test_response(expected_op_id: &str, response: &Msg) -> (r: TestVerdict)
    ensures
        match response {
            Msg::OpAck { op_id, ok, .. } => if op_id@ == expected_op_id@ && *ok {
                r == TestVerdict::Pass
            } else {
                r == TestVerdict::Fail
            },
            _ => r == TestVerdict::KeepWaiting,
        },
{
    match response {
        Msg::OpAck { op_id, ok, .. } => {
            if str_eq(op_id.as_str(), expected_op_id) && *ok {
                TestVerdict::Pass
            } else {
                TestVerdict::Fail
            }
        },
        _ => TestVerdict::KeepWaiting,
    }
}

/// Redial throttling: a peer may be dialed when it was never dialed before
/// or its last dial lies at least the cooldown in the past; a permitted
/// dial is recorded at once.
pub struct DialState {
    pub last_dial: Vec<(String, i64)>,
    pub cooldown_ms: i64,
    pub bootstrap_attempted: bool,
}

/// The recorded last dial time of a peer, if any.
pub open spec fn find_dial(s: Seq<(String, i64)>, pid: Seq<char>) -> Option<i64>
    decreases s.len(),
{
    if s.len() == 0 {
        None
    } else if s[0].0@ == pid {
        Some(s[0].1)
    } else {
        find_dial(s.drop_first(), pid)
    }
}

pub open spec fn dials_unique(s: Seq<(String, i64)>) -> bool {
    forall|i: int, j: int| 0 <= i < j < s.len() ==> s[i].0@ != s[j].0@
}

proof fn lemma_find_dial_by_index(s: Seq<(String, i64)>, pid: Seq<char>, i: int)
    requires
        dials_unique(s),
        0 <= i < s.len(),
        s[i].0@ == pid,
    ensures
        find_dial(s, pid) == Some(s[i].1),
    decreases s.len(),
{
    if i > 0 {
        assert(s[0].0@ != pid);
        assert(s.drop_first()[i - 1] == s[i]);
        assert(dials_unique(s.drop_first())) by {
            assert(forall|a: int, b: int|
                0 <= a < b < s.drop_first().len() ==> s.drop_first()[a] == s[a + 1]
                    && s.drop_first()[b] == s[b + 1]);
        }
        lemma_find_dial_by_index(s.drop_first(), pid, i - 1);
    }
}

proof fn lemma_find_dial_none(s: Seq<(String, i64)>, pid: Seq<char>)
    requires
        forall|i: int| 0 <= i < s.len() ==> s[i].0@ != pid,
    ensures
        find_dial(s, pid) is None,
    decreases s.len(),
{
    if s.len() > 0 {
        assert(forall|i: int| 0 <= i < s.drop_first().len() ==> s.drop_first()[i] == s[i + 1]);
        lemma_find_dial_none(s.drop_first(), pid);
    }
}

proof fn lemma_find_dial_push_frame(s: Seq<(String, i64)>, p: (String, i64), pid: Seq<char>)
    requires
        pid != p.0@,
    ensures
        find_dial(s.push(p), pid) == find_dial(s, pid),
    decreases s.len(),
{
    if s.len() == 0 {
        assert(s.push(p)[0] == p);
        assert(s.push(p).drop_first() =~= Seq::<(String, i64)>::empty());
        assert(find_dial(s.push(p), pid) == find_dial(s.push(p).drop_first(), pid));
        assert(find_dial(s.push(p).drop_first(), pid) is None);
    } else {
        assert(s.push(p)[0] == s[0]);
        assert(s.push(p).drop_first() =~= s.drop_first().push(p));
        lemma_find_dial_push_frame(s.drop_first(), p, pid);
        if s[0].0@ != pid {
            assert(find_dial(s.push(p), pid) == find_dial(s.push(p).drop_first(), pid));
            assert(find_dial(s, pid) == find_dial(s.drop_first(), pid));
        }
    }
}

proof fn lemma_find_dial_update_frame(s: Seq<(String, i64)>, i: int, p: (String, i64), pid: Seq<char>)
    requires
        0 <= i < s.len(),
        p.0@ == s[i].0@,
        pid != p.0@,
    ensures
        find_dial(s.update(i, p), pid) == find_dial(s, pid),
    decreases s.len(),
{
    let t = s.update(i, p);
    if i == 0 {
        assert(t[0] == p);
        assert(s[0].0@ != pid);
        assert(t.drop_first() =~= s.drop_first());
    } else {
        assert(t[0] == s[0]);
        assert(t.drop_first() =~= s.drop_first().update(i - 1, p));
        assert(s.drop_first()[i - 1] == s[i]);
        lemma_find_dial_update_frame(s.drop_first(), i - 1, p, pid);
    }
}

impl DialState {
    pub open spec fn wf(self) -> bool {
        dials_unique(self.last_dial@)
    }

    pub open spec fn spec_last_dial(self, pid: Seq<char>) -> Option<i64> {
        find_dial(self.last_dial@, pid)
    }

    /// A fresh throttle with a 30-second cooldown and no dials recorded.
    pub fn new() -> (r: DialState)
        ensures
            r.wf(),
            r.cooldown_ms == 30000,
            r.bootstrap_attempted == false,
            forall|pid: Seq<char>| r.spec_last_dial(pid) is None,
    {
        let r = DialState { last_dial: Vec::new(), cooldown_ms: 30000, bootstrap_attempted: false };
        proof {
            assert forall|pid: Seq<char>| r.spec_last_dial(pid) is None by {
                lemma_find_dial_none(r.last_dial@, pid);
            }
        }
        r
    }

    /// Whether `peer_id` may be dialed at `now`: yes when it was never
    /// dialed or its last dial lies at least the cooldown back, and then
    /// the dial is recorded; no otherwise, with nothing recorded.
    pub fn can_dial(&mut self, peer_id: &str, now: i64) -> (r: bool)
        requires
            old(self).wf(),
        ensures
            final(self).wf(),
            final(self).cooldown_ms == old(self).cooldown_ms,
            final(self).bootstrap_attempted == old(self).bootstrap_attempted,
            r == match old(self).spec_last_dial(peer_id@) {
                Option::Some(last) => now - last >= old(self).cooldown_ms,
                Option::None => true,
            },
            r ==> final(self).spec_last_dial(peer_id@) == Some(now),
            !r ==> final(self).last_dial@ == old(self).last_dial@,
            forall|pid: Seq<char>|
                pid != peer_id@ ==> final(self).spec_last_dial(pid) == old(self).spec_last_dial(
                    pid,
                ),
    {
        let ghost old_dials = self.last_dial@;
        let n = self.last_dial.len();
        let mut found: Option<usize> = Option::None;
        let mut i: usize = 0;
        while i < n
            invariant
                0 <= i <= n,
                n == self.last_dial@.len(),
                self.wf(),
                match found {
                    Option::Some(k) => k < i && self.last_dial@[k as int].0@ == peer_id@,
                    Option::None => forall|j: int| 0 <= j < i ==> self.last_dial@[j].0@ != peer_id@,
                },
            decreases n - i,
        {
            match found {
                Option::Some(_) => (),
                Option::None => {
                    if str_eq(self.last_dial[i].0.as_str(), peer_id) {
                        found = Option::Some(i);
                    }
                },
            }
            i = i + 1;
        }
        match found {
            Option::Some(k) => {
                proof {
                    lemma_find_dial_by_index(old_dials, peer_id@, k as int);
                }
                let last = self.last_dial[k].1;
                let diff: i128 = now as i128 - last as i128;
                if diff < self.cooldown_ms as i128 {
                    return false;
                }
                let entry = (self.last_dial[k].0.clone(), now);
                self.last_dial[k] = entry;
                proof {
                    let s = self.last_dial@;
                    assert(s == old_dials.update(k as int, s[k as int]));
                    assert(dials_unique(s)) by {
                        assert(forall|a: int| 0 <= a < s.len() ==> s[a].0@ == old_dials[a].0@);
                    }
                    lemma_find_dial_by_index(s, peer_id@, k as int);
                    assert forall|pid: Seq<char>| pid != peer_id@ implies find_dial(s, pid)
                        == find_dial(old_dials, pid) by {
                        lemma_find_dial_update_frame(old_dials, k as int, s[k as int], pid);
                    }
                }
                true
            },
            Option::None => {
                proof {
                    lemma_find_dial_none(old_dials, peer_id@);
                }
                self.last_dial.push((String::from_str(peer_id), now));
                proof {
                    let s = self.last_dial@;
                    assert(s =~= old_dials.push(s[old_dials.len() as int]));
                    assert(dials_unique(s)) by {
                        assert(forall|a: int| 0 <= a < old_dials.len() ==> s[a] == old_dials[a]);
                    }
                    lemma_find_dial_by_index(s, peer_id@, old_dials.len() as int);
                    assert forall|pid: Seq<char>| pid != peer_id@ implies find_dial(s, pid)
                        == find_dial(old_dials, pid) by {
                        lemma_find_dial_push_frame(old_dials, s[old_dials.len() as int], pid);
                    }
                }
                true
            },
        }
    }

    /// Records that the one-time DHT bootstrap has been attempted.
    pub fn mark_bootstrap_attempted(&mut self)
        ensures
            final(self).wf() == old(self).wf(),
            final(self).bootstrap_attempted == true,
            final(self).cooldown_ms == old(self).cooldown_ms,
            final(self).last_dial@ == old(self).last_dial@,
    {
        self.bootstrap_attempted = true;
    }
}

} // verus!
