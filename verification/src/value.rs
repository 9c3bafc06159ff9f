//! The event model: a structured log event is an ordered mapping from
//! field name to a heterogeneous value, together with the paths that carry
//! the message and host semantics and an opaque delivery token.
use vstd::prelude::*;

verus! {

/// A field value: scalar, timestamp (epoch milliseconds), array or nested
/// object.
pub enum Value {
    Null,
    Bool(bool),
    Int(i64),
    Str(String),
    Timestamp(i64),
    Arr(Vec<Value>),
    Obj(Vec<(String, Value)>),
}

/// One structured log event awaiting archival. `message_key` and
/// `host_key` name the fields that carry the message and host semantics,
/// when the schema defines them. `token` is the delivery token that must
/// be resolved exactly once after the event's batch is written or fails.
pub struct LogEvent {
    pub fields: Vec<(String, Value)>,
    pub message_key: Option<String>,
    pub host_key: Option<String>,
    pub token: u64,
}

impl LogEvent {
    /// Well-formedness: an event is a mapping, so its field names are
    /// pairwise distinct.
    pub open spec fn wf(&self) -> bool {
        forall|i: int, j: int|
            0 <= i < j < self.fields@.len() ==> self.fields@[i].0@ != self.fields@[j].0@
    }

    /// Decides well-formedness, for callers that receive an event from
    /// outside and must check it before normalization.
    #[verifier::loop_isolation(false)]
    pub fn has_distinct_names(&self) -> (r: bool)
        ensures
            r == self.wf(),
    {
        let mut i: usize = 0;
        while i < self.fields.len()
            invariant
                i <= self.fields@.len(),
                forall|p: int, q: int|
                    0 <= p < q < i ==> self.fields@[p].0@ != self.fields@[q].0@,
            decreases self.fields@.len() - i,
        {
            let mut j: usize = 0;
            while j < i
                invariant
                    j <= i < self.fields@.len(),
                    forall|p: int, q: int|
                        0 <= p < q < i ==> self.fields@[p].0@ != self.fields@[q].0@,
                    forall|p: int| 0 <= p < j ==> self.fields@[p].0@ != self.fields@[i as int].0@,
                decreases i - j,
            {
                if crate::strutil::str_eq(self.fields[j].0.as_str(), self.fields[i].0.as_str()) {
                    return false;
                }
                j = j + 1;
            }
            i = i + 1;
        }
        true
    }

    /// An event with no fields, carrying the given delivery token.
    pub fn new(token: u64) -> (r: LogEvent)
        ensures
            r.fields@ == Seq::<(String, Value)>::empty(),
            r.message_key is None,
            r.host_key is None,
            r.token == token,
    {
        LogEvent { fields: Vec::new(), message_key: None, host_key: None, token }
    }

    /// An event holding one `message` field, with the message semantic
    /// pointing at it.
    pub fn from_message(text: String, token: u64) -> (r: LogEvent)
        ensures
            r.fields@.len() == 1,
            r.fields@[0].0@ == "message"@,
            r.fields@[0].1 == Value::Str(text),
            r.message_key matches Some(k) && k@ == "message"@,
            r.host_key is None,
            r.token == token,
    {
        let mut fields: Vec<(String, Value)> = Vec::new();
        fields.push((String::from_str("message"), Value::Str(text)));
        LogEvent {
            fields,
            message_key: Some(String::from_str("message")),
            host_key: None,
            token,
        }
    }

    /// Appends a field. Callers keep names distinct; with a repeated name
    /// both entries stay, and the normalizer consumes the first.
    pub fn insert(&mut self, name: String, value: Value)
        ensures
            final(self).fields@ == old(self).fields@.push((name, value)),
            final(self).message_key == old(self).message_key,
            final(self).host_key == old(self).host_key,
            final(self).token == old(self).token,
    {
        self.fields.push((name, value));
    }
}

} // verus!
