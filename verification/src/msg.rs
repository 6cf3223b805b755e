//! Wire messages exchanged with clients over the peer-to-peer transport, and
//! the payload renderings the broker stores for them.

use vstd::prelude::*;

use crate::json::{json_object, pairs_view, render_json_object};

verus! {

/// A generic replicated operation, as carried on the wire.
#[derive(Debug, Clone)]
pub struct Op {
    pub op_id: String,
    pub actor_id: String,
    pub kind: String,
    pub entity: String,
    pub payload_json: String,
    pub created_at_ms: i64,
}

/// A booking submission's structured fields.
#[derive(Debug, Clone)]
pub struct BookingData {
    pub date: String,
    pub start_time: String,
    pub end_time: String,
    pub name: String,
}

/// Notification hints accompanying a booking submission.
#[derive(Debug, Clone)]
pub struct NotifyData {
    pub email: String,
    pub locale: Option<String>,
    pub timezone: Option<String>,
}

/// The tagged wire message.
#[derive(Debug, Clone)]
pub enum Msg {
    OpSubmit { op: Op },
    OpAck { op_id: String, ok: bool, msg: String },
    Heartbeat { role: String },
    SubmitBooking { correlation_id: String, booking: BookingData, notify: NotifyData },
    BookingAck { correlation_id: String, status: String },
}

/// The stored booking payload: a flat JSON object with the four well-known
/// fields, in this order.
pub open spec fn spec_booking_fields(b: BookingData) -> Seq<(Seq<char>, Seq<char>)> {
    seq![
        ("date"@, b.date@),
        ("start_time"@, b.start_time@),
        ("end_time"@, b.end_time@),
        ("name"@, b.name@),
    ]
}

pub open spec fn spec_booking_json(b: BookingData) -> Seq<char> {
    json_object(spec_booking_fields(b))
}

/// The stored notify payload: `email` always, `locale` and `timezone` only
/// when given.
pub open spec fn spec_notify_fields(n: NotifyData) -> Seq<(Seq<char>, Seq<char>)> {
    seq![("email"@, n.email@)] + (if n.locale is Some {
        seq![("locale"@, (n.locale->0)@)]
    } else {
        Seq::<(Seq<char>, Seq<char>)>::empty()
    }) + (if n.timezone is Some {
        seq![("timezone"@, (n.timezone->0)@)]
    } else {
        Seq::<(Seq<char>, Seq<char>)>::empty()
    })
}

pub open spec fn spec_notify_json(n: NotifyData) -> Seq<char> {
    json_object(spec_notify_fields(n))
}

/// Renders the booking payload the handler stores.
pub fn booking_json_of(b: &BookingData) -> (r: String)
    ensures
        r@ == spec_booking_json(*b),
{
    let mut fields: Vec<(String, String)> = Vec::new();
    fields.push((String::from_str("date"), b.date.clone()));
    fields.push((String::from_str("start_time"), b.start_time.clone()));
    fields.push((String::from_str("end_time"), b.end_time.clone()));
    fields.push((String::from_str("name"), b.name.clone()));
    let r = render_json_object(&fields);
    proof {
        assert(pairs_view(fields@) =~= spec_booking_fields(*b));
    }
    r
}

/// Renders the notify payload the handler stores.
pub fn notify_json_of(n: &NotifyData) -> (r: String)
    ensures
        r@ == spec_notify_json(*n),
{
    let mut fields: Vec<(String, String)> = Vec::new();
    fields.push((String::from_str("email"), n.email.clone()));
    match &n.locale {
        Option::Some(l) => fields.push((String::from_str("locale"), l.clone())),
        Option::None => (),
    }
    match &n.timezone {
        Option::Some(t) => fields.push((String::from_str("timezone"), t.clone())),
        Option::None => (),
    }
    let r = render_json_object(&fields);
    proof {
        assert(pairs_view(fields@) =~= spec_notify_fields(*n));
    }
    r
}

} // verus!
