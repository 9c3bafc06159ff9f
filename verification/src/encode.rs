//! The persisted artifact format: one JSON object per archive record, one
//! record per line. This is the bit-exact contract rehydration tooling
//! parses.
use vstd::prelude::*;

use crate::id::{base64_std_decode_of, base64_std_of, id_bytes};
use crate::json::{json_of_fields, json_of_string, json_of_value, write_json_string, write_json_value};
use crate::normalize::{
    attributes_kept, host_of, message_of, next_counter, resolved_ts, reserved_kept, ArchiveRecord,
    DatadogArchivesEncoding,
};
use crate::strutil::push_char;
use crate::time::{rfc3339_millis_of, MILLIS_LIMIT};
use crate::value::{LogEvent, Value};

verus! {

/// The counter after `n` more ids have been issued.
pub open spec fn counter_plus(c: u32, n: int) -> u32
    decreases n,
{
    if n <= 0 {
        c
    } else {
        next_counter(counter_plus(c, n - 1))
    }
}

/// What `normalize_at` promises of one record, with the counter value its
/// id was drawn at.
pub open spec fn record_matches(
    r: ArchiveRecord,
    ev: LogEvent,
    now: u64,
    rnd: Seq<u8>,
    c: u32,
) -> bool {
    &&& r.id@ == base64_std_of(id_bytes(now, rnd, c))
    &&& base64_std_decode_of(r.id@) == Some(id_bytes(now, rnd, c))
    &&& r.date@ == rfc3339_millis_of(resolved_ts(ev.fields@, ev.message_key, ev.host_key, now as int))
    &&& r.message == message_of(ev.fields@, ev.message_key, ev.host_key)
    &&& r.host == host_of(ev.fields@, ev.message_key, ev.host_key)
    &&& r.reserved@ == reserved_kept(ev.fields@, ev.message_key, ev.host_key)
    &&& r.attributes@ == attributes_kept(ev.fields@, ev.message_key, ev.host_key)
    &&& r.token == ev.token
}

/// The counter is plain modular arithmetic: after `n` steps it stands at
/// `(c + n) mod 2^32`.
proof fn lemma_counter_plus_mod(c: u32, n: int)
    requires
        n >= 0,
    ensures
        counter_plus(c, n) as int == (c + n) % 0x100000000,
    decreases n,
{
    if n == 0 {
        vstd::arithmetic::div_mod::lemma_small_mod(c as nat, 0x100000000);
    } else {
        lemma_counter_plus_mod(c, n - 1);
        let prev = counter_plus(c, n - 1);
        assert((c + n - 1) % 0x100000000 + 1 == prev + 1);
        vstd::arithmetic::div_mod::lemma_add_mod_noop(c + n - 1, 1, 0x100000000);
        vstd::arithmetic::div_mod::lemma_small_mod(1nat, 0x100000000);
        if prev == 0xffffffffu32 {
            vstd::arithmetic::div_mod::lemma_mod_self_0(0x100000000);
        } else {
            vstd::arithmetic::div_mod::lemma_small_mod((prev + 1) as nat, 0x100000000);
        }
    }
}

/// Any two of the first 2^32 ids one normalizer issues are drawn at
/// distinct counter values; with `lemma_ids_distinct` this makes their id
/// strings distinct.
pub proof fn lemma_issued_counters_distinct(c0: u32, j1: int, j2: int)
    requires
        0 <= j1 < j2,
        j2 - j1 < 0x100000000,
    ensures
        counter_plus(c0, j1) != counter_plus(c0, j2),
{
    lemma_counter_plus_mod(c0, j1);
    lemma_counter_plus_mod(c0, j2);
    if counter_plus(c0, j1) == counter_plus(c0, j2) {
        let m = 0x100000000int;
        let a = c0 + j1;
        let b = c0 + j2;
        vstd::arithmetic::div_mod::lemma_fundamental_div_mod(a, m);
        vstd::arithmetic::div_mod::lemma_fundamental_div_mod(b, m);
        let qa = a / m;
        let qb = b / m;
        assert(b - a == m * (qb - qa)) by (nonlinear_arith)
            requires
                a == m * qa + a % m,
                b == m * qb + b % m,
                a % m == b % m,
        ;
        assert(false) by (nonlinear_arith)
            requires
                b - a == m * (qb - qa),
                0 < b - a < m,
                m == 0x100000000int,
        ;
    }
}

/// One optional top-level member, rendered with its leading comma.
pub open spec fn json_of_opt_member(name: Seq<char>, v: Option<Value>) -> Seq<char> {
    match v {
        Some(x) => seq![','] + json_of_string(name) + seq![':'] + json_of_value(x),
        None => Seq::empty(),
    }
}

/// The leading members of a record's JSON: the generated `_id` and
/// `date`, then the optional `message` and `host`.
pub open spec fn json_of_record_head(r: ArchiveRecord) -> Seq<char> {
    seq!['{'] + json_of_string(seq!['_', 'i', 'd']) + seq![':'] + json_of_string(r.id@) + seq![',']
        + json_of_string(seq!['d', 'a', 't', 'e']) + seq![':'] + json_of_string(r.date@)
        + json_of_opt_member(seq!['m', 'e', 's', 's', 'a', 'g', 'e'], r.message)
        + json_of_opt_member(seq!['h', 'o', 's', 't'], r.host)
}

/// The closing `attributes` member, braces included.
pub open spec fn json_of_attributes_member(fields: Seq<(String, Value)>) -> Seq<char> {
    seq![','] + json_of_string(seq!['a', 't', 't', 'r', 'i', 'b', 'u', 't', 'e', 's']) + seq![
        ':',
        '{',
    ] + json_of_fields(fields) + seq!['}']
}

/// The JSON text of one archive record: `_id` and `date` first, then the
/// optional `message` and `host`, the reserved fields present, and the
/// `attributes` object.
pub open spec fn json_of_record(r: ArchiveRecord) -> Seq<char> {
    json_of_record_head(r) + (if r.reserved@.len() > 0 {
        seq![','] + json_of_fields(r.reserved@)
    } else {
        Seq::empty()
    }) + json_of_attributes_member(r.attributes@) + seq!['}']
}

/// The archived body of a batch: the records' JSON lines in order, each
/// ended by a newline.
pub open spec fn payload_of(rs: Seq<ArchiveRecord>) -> Seq<char>
    decreases rs.len(),
{
    if rs.len() == 0 {
        Seq::empty()
    } else {
        payload_of(rs.drop_last()) + json_of_record(rs.last()) + seq!['\n']
    }
}

/// Appends the members of a JSON object for a field list, each preceded by
/// a comma.
fn write_member_list(out: &mut String, fields: &Vec<(String, Value)>)
    ensures
        final(out)@ == old(out)@ + (if fields@.len() > 0 {
            seq![','] + json_of_fields(fields@)
        } else {
            Seq::<char>::empty()
        }),
{
    let mut i: usize = 0;
    while i < fields.len()
        invariant
            i <= fields@.len(),
            out@ == old(out)@ + (if i > 0 {
                seq![','] + json_of_fields(fields@.take(i as int))
            } else {
                Seq::<char>::empty()
            }),
        decreases fields@.len() - i,
    {
        push_char(out, ',');
        write_json_string(out, fields[i].0.as_str());
        push_char(out, ':');
        write_json_value(out, &fields[i].1);
        proof {
            let fs = fields@;
            assert(fs.take(i as int + 1).drop_last() =~= fs.take(i as int));
            assert(fs.take(i as int + 1).last() == fs[i as int]);
            assert(crate::json::json_of_field(fs[i as int]) == json_of_string(fs[i as int].0@)
                + seq![':'] + json_of_value(fs[i as int].1));
            assert(out@ =~= old(out)@ + seq![','] + json_of_fields(fs.take(i as int + 1)));
        }
        i = i + 1;
    }
    proof {
        assert(fields@.take(fields@.len() as int) =~= fields@);
    }
}

/// Renders the comma-separated members of the attributes object.
fn attributes_body(fields: &Vec<(String, Value)>) -> (r: String)
    ensures
        r@ == json_of_fields(fields@),
{
    let mut body = String::new();
    let mut i: usize = 0;
    while i < fields.len()
        invariant
            i <= fields@.len(),
            body@ == json_of_fields(fields@.take(i as int)),
        decreases fields@.len() - i,
    {
        if i > 0 {
            push_char(&mut body, ',');
        }
        write_json_string(&mut body, fields[i].0.as_str());
        push_char(&mut body, ':');
        write_json_value(&mut body, &fields[i].1);
        proof {
            let fs = fields@;
            assert(fs.take(i as int + 1).drop_last() =~= fs.take(i as int));
            assert(fs.take(i as int + 1).last() == fs[i as int]);
            assert(crate::json::json_of_field(fs[i as int]) == json_of_string(fs[i as int].0@)
                + seq![':'] + json_of_value(fs[i as int].1));
            assert(body@ =~= json_of_fields(fs.take(i as int + 1)));
        }
        i = i + 1;
    }
    proof {
        assert(fields@.take(fields@.len() as int) =~= fields@);
    }
    body
}

/// Appends the leading members of a record's JSON line.
fn write_record_head(out: &mut String, r: &ArchiveRecord)
    ensures
        final(out)@ == old(out)@ + json_of_record_head(*r),
{
    push_char(out, '{');
    write_json_string(out, "_id");
    push_char(out, ':');
    write_json_string(out, r.id.as_str());
    push_char(out, ',');
    write_json_string(out, "date");
    push_char(out, ':');
    write_json_string(out, r.date.as_str());
    proof {
        reveal_strlit("_id");
        reveal_strlit("date");
        assert("_id"@ =~= seq!['_', 'i', 'd']);
        assert("date"@ =~= seq!['d', 'a', 't', 'e']);
        assert(out@ =~= old(out)@ + seq!['{'] + json_of_string(seq!['_', 'i', 'd']) + seq![':']
            + json_of_string(r.id@) + seq![','] + json_of_string(seq!['d', 'a', 't', 'e'])
            + seq![':'] + json_of_string(r.date@));
    }
    let ghost head = out@;
    match &r.message {
        Some(v) => {
            push_char(out, ',');
            write_json_string(out, "message");
            push_char(out, ':');
            write_json_value(out, v);
        },
        None => (),
    }
    proof {
        reveal_strlit("message");
        assert("message"@ =~= seq!['m', 'e', 's', 's', 'a', 'g', 'e']);
        assert(out@ =~= head + json_of_opt_member(
            seq!['m', 'e', 's', 's', 'a', 'g', 'e'],
            r.message,
        ));
    }
    let ghost head2 = out@;
    match &r.host {
        Some(v) => {
            push_char(out, ',');
            write_json_string(out, "host");
            push_char(out, ':');
            write_json_value(out, v);
        },
        None => (),
    }
    proof {
        reveal_strlit("host");
        assert("host"@ =~= seq!['h', 'o', 's', 't']);
        assert(out@ =~= head2 + json_of_opt_member(seq!['h', 'o', 's', 't'], r.host));
        assert(final(out)@ =~= old(out)@ + json_of_record_head(*r));
    }
}

/// Appends the `attributes` member, braces included.
fn write_attributes_member(out: &mut String, fields: &Vec<(String, Value)>)
    ensures
        final(out)@ == old(out)@ + json_of_attributes_member(fields@),
{
    push_char(out, ',');
    write_json_string(out, "attributes");
    push_char(out, ':');
    push_char(out, '{');
    let body = attributes_body(fields);
    out.append(body.as_str());
    push_char(out, '}');
    proof {
        reveal_strlit("attributes");
        assert("attributes"@ =~= seq!['a', 't', 't', 'r', 'i', 'b', 'u', 't', 'e', 's']);
        assert(final(out)@ =~= old(out)@ + json_of_attributes_member(fields@));
    }
}

/// Appends the JSON line of one record, without the trailing newline.
pub fn write_record(out: &mut String, r: &ArchiveRecord)
    ensures
        final(out)@ == old(out)@ + json_of_record(*r),
{
    write_record_head(out, r);
    write_member_list(out, &r.reserved);
    write_attributes_member(out, &r.attributes);
    push_char(out, '}');
    proof {
        assert(final(out)@ =~= old(out)@ + json_of_record(*r));
    }
}

impl DatadogArchivesEncoding {
    /// Normalizes a batch of events against one clock reading and renders
    /// the newline-delimited JSON body, one record per event, in order.
    #[verifier::loop_isolation(false)]
    pub fn encode_input(&mut self, events: Vec<LogEvent>, now_millis: u64) -> (r: String)
        requires
            forall|j: int| 0 <= j < events@.len() ==> (#[trigger] events@[j]).wf(),
            now_millis < MILLIS_LIMIT,
        ensures
            final(self).rnd == old(self).rnd,
            final(self).counter == counter_plus(old(self).counter, events@.len() as int),
            exists|rs: Seq<ArchiveRecord>|
                {
                    &&& #[trigger] payload_of(rs) == r@
                    &&& rs.len() == events@.len()
                    &&& forall|j: int|
                        0 <= j < rs.len() ==> record_matches(
                            rs[j],
                            events@[j],
                            now_millis,
                            old(self).rnd@,
                            counter_plus(old(self).counter, j),
                        )
                },
    {
        let ghost original = events@;
        let ghost rnd0 = self.rnd@;
        let ghost c0 = self.counter;
        let mut events = events;
        let mut out = String::new();
        let ghost mut rs: Seq<ArchiveRecord> = Seq::empty();
        let ghost mut i: int = 0;
        while events.len() > 0
            invariant
                0 <= i,
                i + events@.len() == original.len(),
                events@ == original.skip(i),
                self.rnd@ == rnd0,
                self.rnd == old(self).rnd,
                self.counter == counter_plus(c0, i),
                rs.len() == i,
                out@ == payload_of(rs),
                forall|j: int|
                    0 <= j < i ==> record_matches(
                        rs[j],
                        original[j],
                        now_millis,
                        rnd0,
                        counter_plus(c0, j),
                    ),
            decreases events@.len(),
        {
            let ev = events.remove(0);
            proof {
                assert(original.skip(i).remove(0) =~= original.skip(i + 1));
                assert(ev == original[i]);
            }
            let rec = self.normalize_at(ev, now_millis);
            write_record(&mut out, &rec);
            push_char(&mut out, '\n');
            proof {
                let rs0 = rs;
                rs = rs.push(rec);
                assert(rs.drop_last() =~= rs0);
                assert(rs.last() == rec);
                assert(counter_plus(c0, i + 1) == next_counter(counter_plus(c0, i)));
                assert(out@ == payload_of(rs));
                i = i + 1;
            }
        }
        proof {
            assert(payload_of(rs) == out@);
        }
        out
    }
}

/// Builds the full newline-delimited body for a sequence of records.
pub fn encode_records(records: &Vec<ArchiveRecord>) -> (r: String)
    ensures
        r@ == payload_of(records@),
{
    let mut out = String::new();
    let mut i: usize = 0;
    while i < records.len()
        invariant
            i <= records@.len(),
            out@ == payload_of(records@.take(i as int)),
        decreases records@.len() - i,
    {
        write_record(&mut out, &records[i]);
        push_char(&mut out, '\n');
        proof {
            let rs = records@;
            assert(rs.take(i as int + 1).drop_last() =~= rs.take(i as int));
            assert(rs.take(i as int + 1).last() == rs[i as int]);
            assert(out@ =~= payload_of(rs.take(i as int + 1)));
        }
        i = i + 1;
    }
    proof {
        assert(records@.take(records@.len() as int) =~= records@);
    }
    out
}

} // verus!
