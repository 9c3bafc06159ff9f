//! The record normalizer: maps one structured event to the canonical
//! archive shape. It generates the unique `_id`, resolves `date` from the
//! event's timestamp (falling back to the supplied clock reading), hoists
//! the message and host fields, passes the remaining reserved fields
//! through, and buckets everything else under `attributes`.
use vstd::prelude::*;

use crate::id::{base64_std_decode_of, base64_std_of, encode_id, id_bytes, random_bytes};
use crate::strutil::str_eq;
use crate::time::{rfc3339_millis, rfc3339_millis_of, MILLIS_LIMIT};
use crate::value::{LogEvent, Value};

verus! {

/// The reserved top-level names that pass through unchanged when present.
pub open spec fn is_reserved_extra(name: Seq<char>) -> bool {
    ||| name == "source"@
    ||| name == "service"@
    ||| name == "status"@
    ||| name == "tags"@
    ||| name == "trace_id"@
    ||| name == "span_id"@
}

/// All reserved top-level names of an archive record.
pub open spec fn is_reserved(name: Seq<char>) -> bool {
    ||| name == "_id"@
    ||| name == "date"@
    ||| name == "message"@
    ||| name == "host"@
    ||| is_reserved_extra(name)
}

/// Where one field of the event ends up, decided by its name. The first
/// matching rule wins: the message rename, then the host rename, then the
/// timestamp (consumed into `date`), the literal `message` and `host`
/// names, the names the normalizer itself writes (`_id`, `date`), the
/// remaining reserved names, and finally the attributes bucket.
pub enum FieldClass {
    MessageHoist,
    HostHoist,
    TimestampField,
    MessageName,
    HostName,
    Generated,
    ReservedExtra,
    Attribute,
}

/// The class of a field name under the given message and host semantics.
pub open spec fn field_class(name: Seq<char>, mk: Option<String>, hk: Option<String>) -> FieldClass {
    if mk matches Some(k) && name == k@ {
        FieldClass::MessageHoist
    } else if hk matches Some(k) && name == k@ {
        FieldClass::HostHoist
    } else if name == "timestamp"@ {
        FieldClass::TimestampField
    } else if name == "message"@ {
        FieldClass::MessageName
    } else if name == "host"@ {
        FieldClass::HostName
    } else if name == "_id"@ || name == "date"@ {
        FieldClass::Generated
    } else if is_reserved_extra(name) {
        FieldClass::ReservedExtra
    } else {
        FieldClass::Attribute
    }
}

/// The value of the first field of the given class, if any.
pub open spec fn first_of_class(
    fields: Seq<(String, Value)>,
    mk: Option<String>,
    hk: Option<String>,
    c: FieldClass,
) -> Option<Value>
    decreases fields.len(),
{
    if fields.len() == 0 {
        None
    } else if field_class(fields[0].0@, mk, hk) == c {
        Some(fields[0].1)
    } else {
        first_of_class(fields.drop_first(), mk, hk, c)
    }
}

/// The record's `message`: the value the message semantic hoists, else a
/// literal `message` field that no rename consumed.
pub open spec fn message_of(
    fields: Seq<(String, Value)>,
    mk: Option<String>,
    hk: Option<String>,
) -> Option<Value> {
    match first_of_class(fields, mk, hk, FieldClass::MessageHoist) {
        Some(v) => Some(v),
        None => first_of_class(fields, mk, hk, FieldClass::MessageName),
    }
}

/// The record's `host`, resolved like `message`.
pub open spec fn host_of(
    fields: Seq<(String, Value)>,
    mk: Option<String>,
    hk: Option<String>,
) -> Option<Value> {
    match first_of_class(fields, mk, hk, FieldClass::HostHoist) {
        Some(v) => Some(v),
        None => first_of_class(fields, mk, hk, FieldClass::HostName),
    }
}

/// The event's consumed `timestamp` field, if any.
pub open spec fn timestamp_field(
    fields: Seq<(String, Value)>,
    mk: Option<String>,
    hk: Option<String>,
) -> Option<Value> {
    first_of_class(fields, mk, hk, FieldClass::TimestampField)
}

/// The timestamp the record is dated by: the event's own when it carries
/// one in the range the four-digit-year formats of the object layout
/// render (1970 up to year 10000, UTC), else the clock reading. A
/// timestamp outside that range is treated like a missing one: this is
/// the intended domain of the sink's date and partition formats.
pub open spec fn resolved_ts(
    fields: Seq<(String, Value)>,
    mk: Option<String>,
    hk: Option<String>,
    now: int,
) -> int {
    match timestamp_field(fields, mk, hk) {
        Some(Value::Timestamp(t)) => if 0 <= t < MILLIS_LIMIT {
            t as int
        } else {
            now
        },
        _ => now,
    }
}

/// The reserved fields that pass through to the top level, in order.
pub open spec fn reserved_kept(
    fields: Seq<(String, Value)>,
    mk: Option<String>,
    hk: Option<String>,
) -> Seq<(String, Value)>
    decreases fields.len(),
{
    if fields.len() == 0 {
        Seq::empty()
    } else if field_class(fields.last().0@, mk, hk) == FieldClass::ReservedExtra {
        reserved_kept(fields.drop_last(), mk, hk) + seq![fields.last()]
    } else {
        reserved_kept(fields.drop_last(), mk, hk)
    }
}

/// The fields bucketed under `attributes`, in order.
pub open spec fn attributes_kept(
    fields: Seq<(String, Value)>,
    mk: Option<String>,
    hk: Option<String>,
) -> Seq<(String, Value)>
    decreases fields.len(),
{
    if fields.len() == 0 {
        Seq::empty()
    } else if field_class(fields.last().0@, mk, hk) == FieldClass::Attribute {
        attributes_kept(fields.drop_last(), mk, hk) + seq![fields.last()]
    } else {
        attributes_kept(fields.drop_last(), mk, hk)
    }
}

/// How `first_of_class` behaves when one field is appended: an existing
/// first match wins, else the new field answers for its own class.
proof fn lemma_first_of_class_push(
    s: Seq<(String, Value)>,
    x: (String, Value),
    mk: Option<String>,
    hk: Option<String>,
    c: FieldClass,
)
    ensures
        first_of_class(s.push(x), mk, hk, c) == (if first_of_class(s, mk, hk, c) is Some {
            first_of_class(s, mk, hk, c)
        } else if field_class(x.0@, mk, hk) == c {
            Some(x.1)
        } else {
            None::<Value>
        }),
    decreases s.len(),
{
    if s.len() == 0 {
        let p = s.push(x);
        assert(p[0] == x);
        assert(p.drop_first() =~= Seq::<(String, Value)>::empty());
        assert(first_of_class(p.drop_first(), mk, hk, c) is None);
        assert(first_of_class(s, mk, hk, c) is None);
    } else {
        assert(s.push(x)[0] == s[0]);
        assert(s.push(x).drop_first() =~= s.drop_first().push(x));
        lemma_first_of_class_push(s.drop_first(), x, mk, hk, c);
    }
}

/// The normalized shape: every field kept under `attributes` carries a
/// non-reserved name and comes from the event; every reserved field kept
/// at top level carries a reserved name and comes from the event; and
/// every event field classed for a bucket lands in it. Together with the
/// generated `_id` and `date`, the top level of a record is exactly
/// `_id`, `date`, the hoisted and reserved fields present in the source,
/// and `attributes`.
pub proof fn lemma_normalized_shape(
    fields: Seq<(String, Value)>,
    mk: Option<String>,
    hk: Option<String>,
)
    ensures
        forall|i: int|
            0 <= i < attributes_kept(fields, mk, hk).len() ==> {
                let f = #[trigger] attributes_kept(fields, mk, hk)[i];
                &&& !is_reserved(f.0@)
                &&& f.0@ != "timestamp"@
                &&& fields.contains(f)
            },
        forall|i: int|
            0 <= i < reserved_kept(fields, mk, hk).len() ==> {
                let f = #[trigger] reserved_kept(fields, mk, hk)[i];
                &&& is_reserved_extra(f.0@)
                &&& fields.contains(f)
            },
        forall|j: int|
            0 <= j < fields.len() && field_class(#[trigger] fields[j].0@, mk, hk)
                == FieldClass::Attribute ==> attributes_kept(fields, mk, hk).contains(fields[j]),
        forall|j: int|
            0 <= j < fields.len() && field_class(#[trigger] fields[j].0@, mk, hk)
                == FieldClass::ReservedExtra ==> reserved_kept(fields, mk, hk).contains(fields[j]),
    decreases fields.len(),
{
    if fields.len() > 0 {
        lemma_normalized_shape(fields.drop_last(), mk, hk);
        let d = fields.drop_last();
        let aa = attributes_kept(fields, mk, hk);
        let ad = attributes_kept(d, mk, hk);
        let ra = reserved_kept(fields, mk, hk);
        let rd = reserved_kept(d, mk, hk);
        assert forall|i: int| 0 <= i < aa.len() implies {
            let f = #[trigger] aa[i];
            &&& !is_reserved(f.0@)
            &&& f.0@ != "timestamp"@
            &&& fields.contains(f)
        } by {
            if i < ad.len() {
                assert(aa[i] == ad[i]);
                let w = choose|w: int| 0 <= w < d.len() && d[w] == ad[i];
                assert(fields[w] == aa[i]);
            } else {
                assert(aa[i] == fields.last());
                assert(fields[fields.len() - 1] == fields.last());
            }
        }
        assert forall|i: int| 0 <= i < ra.len() implies {
            let f = #[trigger] ra[i];
            &&& is_reserved_extra(f.0@)
            &&& fields.contains(f)
        } by {
            if i < rd.len() {
                assert(ra[i] == rd[i]);
                let w = choose|w: int| 0 <= w < d.len() && d[w] == rd[i];
                assert(fields[w] == ra[i]);
            } else {
                assert(ra[i] == fields.last());
                assert(fields[fields.len() - 1] == fields.last());
            }
        }
        assert forall|j: int|
            0 <= j < fields.len() && field_class(#[trigger] fields[j].0@, mk, hk)
                == FieldClass::Attribute implies aa.contains(fields[j]) by {
            if j < fields.len() - 1 {
                assert(d[j] == fields[j]);
                assert(ad.contains(fields[j]));
                let w = choose|w: int| 0 <= w < ad.len() && ad[w] == fields[j];
                assert(aa[w] == fields[j]);
            } else {
                assert(fields[j] == fields.last());
                assert(aa[aa.len() - 1] == fields.last());
            }
        }
        assert forall|j: int|
            0 <= j < fields.len() && field_class(#[trigger] fields[j].0@, mk, hk)
                == FieldClass::ReservedExtra implies ra.contains(fields[j]) by {
            if j < fields.len() - 1 {
                assert(d[j] == fields[j]);
                assert(rd.contains(fields[j]));
                let w = choose|w: int| 0 <= w < rd.len() && rd[w] == fields[j];
                assert(ra[w] == fields[j]);
            } else {
                assert(fields[j] == fields.last());
                assert(ra[ra.len() - 1] == fields.last());
            }
        }
    }
}

/// The canonical archived shape of one event: generated id and date, the
/// optional hoisted message and host, the reserved fields present in the
/// source, and the attributes map, plus the event's delivery token.
pub struct ArchiveRecord {
    pub id: String,
    pub date: String,
    pub message: Option<Value>,
    pub host: Option<Value>,
    pub reserved: Vec<(String, Value)>,
    pub attributes: Vec<(String, Value)>,
    pub token: u64,
}

/// The normalizer: the eight random bytes drawn once at construction and
/// the rolling counter that together make every issued id unique.
pub struct DatadogArchivesEncoding {
    pub rnd: [u8; 8],
    pub counter: u32,
}

/// How the counter advances on each issued id: one step, wrapping.
pub open spec fn next_counter(c: u32) -> u32 {
    if c == 0xffffffffu32 {
        0u32
    } else {
        (c + 1) as u32
    }
}

/// Derives the partition key of one event from its resolved timestamp:
/// the event's own timestamp field when it carries one in range, else the
/// supplied clock reading. Callers hand the same reading here and to
/// `normalize_at`, so an event's `date` and its partition key never come
/// from two different clock reads.
#[verifier::loop_isolation(false)]
pub fn partition_key_for(event: &LogEvent, now_millis: u64) -> (r: String)
    requires
        now_millis < MILLIS_LIMIT,
    ensures
        r@ == crate::time::partition_key_of(
            resolved_ts(event.fields@, event.message_key, event.host_key, now_millis as int),
        ),
{
    let mut found = false;
    let mut resolved: u64 = now_millis;
    let mut i: usize = 0;
    while i < event.fields.len()
        invariant
            i <= event.fields@.len(),
            found == (first_of_class(
                event.fields@.take(i as int),
                event.message_key,
                event.host_key,
                FieldClass::TimestampField,
            ) is Some),
            resolved < MILLIS_LIMIT,
            resolved as int == resolved_ts(
                event.fields@.take(i as int),
                event.message_key,
                event.host_key,
                now_millis as int,
            ),
        decreases event.fields@.len() - i,
    {
        proof {
            assert(event.fields@.take(i as int + 1) =~= event.fields@.take(i as int).push(
                event.fields@[i as int],
            ));
            lemma_first_of_class_push(
                event.fields@.take(i as int),
                event.fields@[i as int],
                event.message_key,
                event.host_key,
                FieldClass::TimestampField,
            );
        }
        let name = &event.fields[i].0;
        let hit_mk = match &event.message_key {
            Some(k) => str_eq(name.as_str(), k.as_str()),
            None => false,
        };
        let hit_hk = !hit_mk && match &event.host_key {
            Some(k) => str_eq(name.as_str(), k.as_str()),
            None => false,
        };
        if !found && !hit_mk && !hit_hk && str_eq(name.as_str(), "timestamp") {
            found = true;
            match &event.fields[i].1 {
                Value::Timestamp(t) => {
                    if 0 <= *t && (*t as u64) < MILLIS_LIMIT {
                        resolved = *t as u64;
                    }
                },
                _ => (),
            }
        }
        i = i + 1;
    }
    proof {
        assert(event.fields@.take(event.fields@.len() as int) =~= event.fields@);
    }
    crate::time::partition_key(resolved)
}

impl DatadogArchivesEncoding {
    /// A fresh normalizer: random bytes from the process generator and a
    /// counter at zero.
    pub fn new() -> (r: Self)
        ensures
            r.counter == 0u32,
    {
        DatadogArchivesEncoding { rnd: random_bytes(), counter: 0 }
    }

    /// A normalizer from explicit parts, for deterministic construction.
    pub fn from_parts(rnd: [u8; 8], counter: u32) -> (r: Self)
        ensures
            r.rnd == rnd,
            r.counter == counter,
    {
        DatadogArchivesEncoding { rnd, counter }
    }

    /// Issues one id for the given clock reading and advances the counter.
    pub fn generate_log_id(&mut self, now_millis: u64) -> (r: String)
        ensures
            r@ == base64_std_of(id_bytes(now_millis, old(self).rnd@, old(self).counter)),
            base64_std_decode_of(r@) == Some(
                id_bytes(now_millis, old(self).rnd@, old(self).counter),
            ),
            r@.len() == 24,
            final(self).rnd == old(self).rnd,
            final(self).counter == next_counter(old(self).counter),
    {
        let r = encode_id(now_millis, &self.rnd, self.counter);
        self.counter = if self.counter == 0xffffffffu32 {
            0
        } else {
            self.counter + 1
        };
        r
    }

    /// Normalizes one event against the given clock reading: every part of
    /// the result is pinned down as a function of the event and the clock.
    #[verifier::loop_isolation(false)]
    #[verifier::rlimit(100)]
    pub fn normalize_at(&mut self, event: LogEvent, now_millis: u64) -> (r: ArchiveRecord)
        requires
            event.wf(),
            now_millis < MILLIS_LIMIT,
        ensures
            final(self).rnd == old(self).rnd,
            final(self).counter == next_counter(old(self).counter),
            r.id@ == base64_std_of(id_bytes(now_millis, old(self).rnd@, old(self).counter)),
            base64_std_decode_of(r.id@) == Some(
                id_bytes(now_millis, old(self).rnd@, old(self).counter),
            ),
            r.date@ == rfc3339_millis_of(
                resolved_ts(event.fields@, event.message_key, event.host_key, now_millis as int),
            ),
            r.message == message_of(event.fields@, event.message_key, event.host_key),
            r.host == host_of(event.fields@, event.message_key, event.host_key),
            r.reserved@ == reserved_kept(event.fields@, event.message_key, event.host_key),
            r.attributes@ == attributes_kept(event.fields@, event.message_key, event.host_key),
            r.token == event.token,
    {
        let LogEvent { fields, message_key, host_key, token } = event;
        let ghost original = fields@;
        let mut fields = fields;
        let mut msg: Option<Value> = None;
        let mut host: Option<Value> = None;
        let mut lit_msg: Option<Value> = None;
        let mut lit_host: Option<Value> = None;
        let mut tsv: Option<Value> = None;
        let mut reserved: Vec<(String, Value)> = Vec::new();
        let mut attrs: Vec<(String, Value)> = Vec::new();
        let ghost mut i: int = 0;
        while fields.len() > 0
            invariant
                0 <= i,
                i + fields@.len() == original.len(),
                fields@ == original.skip(i),
                msg == first_of_class(
                    original.take(i),
                    message_key,
                    host_key,
                    FieldClass::MessageHoist,
                ),
                host == first_of_class(
                    original.take(i),
                    message_key,
                    host_key,
                    FieldClass::HostHoist,
                ),
                tsv == first_of_class(
                    original.take(i),
                    message_key,
                    host_key,
                    FieldClass::TimestampField,
                ),
                lit_msg == first_of_class(
                    original.take(i),
                    message_key,
                    host_key,
                    FieldClass::MessageName,
                ),
                lit_host == first_of_class(
                    original.take(i),
                    message_key,
                    host_key,
                    FieldClass::HostName,
                ),
                reserved@ == reserved_kept(original.take(i), message_key, host_key),
                attrs@ == attributes_kept(original.take(i), message_key, host_key),
            decreases fields@.len(),
        {
            let (name, val) = fields.remove(0);
            proof {
                assert(original.skip(i).remove(0) =~= original.skip(i + 1));
                assert((name, val) == original[i]);
                assert(original.take(i + 1) =~= original.take(i).push(original[i]));
                assert(original.take(i + 1).drop_last() =~= original.take(i));
                assert(original.take(i + 1).last() == original[i]);
                lemma_first_of_class_push(
                    original.take(i),
                    original[i],
                    message_key,
                    host_key,
                    FieldClass::MessageHoist,
                );
                lemma_first_of_class_push(
                    original.take(i),
                    original[i],
                    message_key,
                    host_key,
                    FieldClass::HostHoist,
                );
                lemma_first_of_class_push(
                    original.take(i),
                    original[i],
                    message_key,
                    host_key,
                    FieldClass::TimestampField,
                );
                lemma_first_of_class_push(
                    original.take(i),
                    original[i],
                    message_key,
                    host_key,
                    FieldClass::MessageName,
                );
                lemma_first_of_class_push(
                    original.take(i),
                    original[i],
                    message_key,
                    host_key,
                    FieldClass::HostName,
                );
            }
            let hit_mk = match &message_key {
                Some(k) => str_eq(name.as_str(), k.as_str()),
                None => false,
            };
            let hit_hk = !hit_mk && match &host_key {
                Some(k) => str_eq(name.as_str(), k.as_str()),
                None => false,
            };
            if hit_mk {
                if msg.is_none() {
                    msg = Some(val);
                }
            } else if hit_hk {
                if host.is_none() {
                    host = Some(val);
                }
            } else if str_eq(name.as_str(), "timestamp") {
                if tsv.is_none() {
                    tsv = Some(val);
                }
            } else if str_eq(name.as_str(), "message") {
                if lit_msg.is_none() {
                    lit_msg = Some(val);
                }
            } else if str_eq(name.as_str(), "host") {
                if lit_host.is_none() {
                    lit_host = Some(val);
                }
            } else if str_eq(name.as_str(), "_id") || str_eq(name.as_str(), "date") {
                // replaced by the generated id and date
            } else if str_eq(name.as_str(), "source") || str_eq(name.as_str(), "service")
                || str_eq(name.as_str(), "status") || str_eq(name.as_str(), "tags") || str_eq(
                name.as_str(),
                "trace_id",
            ) || str_eq(name.as_str(), "span_id") {
                reserved.push((name, val));
            } else {
                attrs.push((name, val));
            }
            proof {
                let x = original[i];
                let t = original.take(i);
                let t1 = original.take(i + 1);
                if field_class(x.0@, message_key, host_key) == FieldClass::ReservedExtra {
                    assert(reserved_kept(t1, message_key, host_key) =~= reserved_kept(
                        t,
                        message_key,
                        host_key,
                    ).push(x));
                } else {
                    assert(reserved_kept(t1, message_key, host_key) == reserved_kept(
                        t,
                        message_key,
                        host_key,
                    ));
                }
                if field_class(x.0@, message_key, host_key) == FieldClass::Attribute {
                    assert(attributes_kept(t1, message_key, host_key) =~= attributes_kept(
                        t,
                        message_key,
                        host_key,
                    ).push(x));
                } else {
                    assert(attributes_kept(t1, message_key, host_key) == attributes_kept(
                        t,
                        message_key,
                        host_key,
                    ));
                }
                i = i + 1;
            }
        }
        proof {
            assert(original.take(i) =~= original);
        }
        let resolved: u64 = match &tsv {
            Some(Value::Timestamp(t)) => {
                if 0 <= *t && (*t as u64) < MILLIS_LIMIT {
                    *t as u64
                } else {
                    now_millis
                }
            },
            _ => now_millis,
        };
        let id = self.generate_log_id(now_millis);
        let date = rfc3339_millis(resolved);
        let message = match msg {
            Some(v) => Some(v),
            None => lit_msg,
        };
        let host_val = match host {
            Some(v) => Some(v),
            None => lit_host,
        };
        ArchiveRecord { id, date, message, host: host_val, reserved, attributes: attrs, token }
    }
}

} // verus!
