//! Replicated-operation records and their status encoding, as rows of the
//! node's local operation outbox. The SQL storage around them lives in the
//! surrounding program; the row values and the status code mapping are
//! defined and checked here.

use vstd::prelude::*;

use crate::json::json_string;
use crate::strutil::{push_char, push_u64_dec, spec_u64_dec};
use crate::time::now_ms;

verus! {

/// Delivery status of an outbox operation.
#[derive(Debug, Clone, Copy, PartialEq, Eq, Structural)]
pub enum OpStatus {
    Pending,
    Sent,
    Acked,
    Failed,
}

impl OpStatus {
    /// The status code stored in the database.
    pub fn to_i64(self) -> (r: i64)
        ensures
            r == self.spec_code(),
    {
        match self {
            OpStatus::Pending => 0,
            OpStatus::Sent => 1,
            OpStatus::Acked => 2,
            OpStatus::Failed => 3,
        }
    }

    /// The status a stored code decodes to; an unknown code reads as
    /// `Failed`.
    pub fn from_i64(v: i64) -> (r: OpStatus)
        ensures
            r == OpStatus::spec_from_code(v),
    {
        if v == 0 {
            OpStatus::Pending
        } else if v == 1 {
            OpStatus::Sent
        } else if v == 2 {
            OpStatus::Acked
        } else {
            OpStatus::Failed
        }
    }

    pub open spec fn spec_code(self) -> i64 {
        match self {
            OpStatus::Pending => 0,
            OpStatus::Sent => 1,
            OpStatus::Acked => 2,
            OpStatus::Failed => 3,
        }
    }

    pub open spec fn spec_from_code(v: i64) -> OpStatus {
        if v == 0 {
            OpStatus::Pending
        } else if v == 1 {
            OpStatus::Sent
        } else if v == 2 {
            OpStatus::Acked
        } else {
            OpStatus::Failed
        }
    }
}

/// Decoding a stored status code recovers the status it was encoded from.
pub proof fn lemma_op_status_roundtrip(s: OpStatus)
    ensures
        OpStatus::spec_from_code(s.spec_code()) == s,
{
}

/// One outbox row.
#[derive(Debug, Clone)]
pub struct Op {
    pub op_id: String,
    pub actor_id: String,
    pub kind: String,
    pub entity: String,
    pub payload_json: String,
    pub created_at_ms: u64,
    pub status: OpStatus,
}

/// The demonstration payload: a note object with a fresh note id, fixed
/// title and body, and the creation time as a JSON number.
pub open spec fn spec_fake_note_payload(note_id: Seq<char>, now: nat) -> Seq<char> {
    "{\"note_id\":"@ + json_string(note_id) + ",\"title\":\"Hola\",\"body\":\"Nota fake para demo\",\"updated_at_ms\":"@
        + spec_u64_dec(now) + "}"@
}

/// Relies on uuid's `Uuid::new_v4` and its hyphenated `Display` form: 36
/// characters. The value is random; callers assume nothing more.
#[verifier::external_body]
fn new_uuid_string() -> (r: String)
    ensures
        r@.len() == 36,
{
    uuid::Uuid::new_v4().to_string()
}

impl Op {
    /// A demonstration operation: a fresh op id and note id, the fixed
    /// upsert-note kind, and a pending status, stamped with the current
    /// time.
    pub fn new_fake_upsert_note(actor_id: &str) -> (r: Op)
        ensures
            r.op_id@.len() == 36,
            r.actor_id@ == actor_id@,
            r.kind@ == "UpsertNote"@,
            r.entity@ == "note"@,
            r.status == OpStatus::Pending,
            exists|note_id: Seq<char>|
                note_id.len() == 36 && r.payload_json@ == spec_fake_note_payload(
                    note_id,
                    r.created_at_ms as nat,
                ),
    {
        let n0 = now_ms();
        let created_at_ms: u64 = if n0 < 0 {
            0
        } else {
            n0 as u64
        };
        let note_id = new_uuid_string();
        let mut payload = String::from_str("{\"note_id\":");
        crate::json::write_json_string(&mut payload, note_id.as_str());
        payload.append(",\"title\":\"Hola\",\"body\":\"Nota fake para demo\",\"updated_at_ms\":");
        push_u64_dec(&mut payload, created_at_ms);
        push_char(&mut payload, '}');
        proof {
            assert(seq!['}'] =~= "}"@) by {
                reveal_strlit("}");
            }
            assert(payload@ =~= spec_fake_note_payload(note_id@, created_at_ms as nat));
        }
        Op {
            op_id: new_uuid_string(),
            actor_id: String::from_str(actor_id),
            kind: String::from_str("UpsertNote"),
            entity: String::from_str("note"),
            payload_json: payload,
            created_at_ms,
            status: OpStatus::Pending,
        }
    }
}

} // verus!
