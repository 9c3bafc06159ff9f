//! Object keys: `{prefix}/{partition_key}/archive_{uuid}.json.gz` with
//! every run of doubled path separators collapsed, and a fresh random UUID
//! per batch so that no two flushes ever share a storage key.
use vstd::prelude::*;

use crate::strutil::{chars_vec, push_char};

verus! {

/// `s` with every `/` that directly follows another `/` removed.
pub open spec fn collapse_slashes(s: Seq<char>) -> Seq<char>
    decreases s.len(),
{
    if s.len() == 0 {
        Seq::empty()
    } else if s.len() >= 2 && s[s.len() - 1] == '/' && s[s.len() - 2] == '/' {
        collapse_slashes(s.drop_last())
    } else {
        collapse_slashes(s.drop_last()) + seq![s[s.len() - 1]]
    }
}

/// Collapsing keeps the last character and never empties a nonempty
/// sequence.
proof fn lemma_collapse_last(s: Seq<char>)
    requires
        s.len() > 0,
    ensures
        collapse_slashes(s).len() > 0,
        collapse_slashes(s).last() == s.last(),
    decreases s.len(),
{
    if s.len() >= 2 && s[s.len() - 1] == '/' && s[s.len() - 2] == '/' {
        lemma_collapse_last(s.drop_last());
    }
}

/// No doubled separator survives collapsing.
pub proof fn lemma_collapse_no_double(s: Seq<char>)
    ensures
        forall|i: int|
            0 <= i < collapse_slashes(s).len() - 1 ==> !((#[trigger] collapse_slashes(s)[i])
                == '/' && collapse_slashes(s)[i + 1] == '/'),
    decreases s.len(),
{
    if s.len() == 0 {
    } else if s.len() >= 2 && s[s.len() - 1] == '/' && s[s.len() - 2] == '/' {
        lemma_collapse_no_double(s.drop_last());
        let r = collapse_slashes(s);
        let r0 = collapse_slashes(s.drop_last());
        assert forall|i: int| 0 <= i < r.len() - 1 implies !((#[trigger] r[i]) == '/' && r[i + 1]
            == '/') by {
            assert(r[i] == r0[i] && r[i + 1] == r0[i + 1]);
        }
    } else {
        lemma_collapse_no_double(s.drop_last());
        let r = collapse_slashes(s);
        let r0 = collapse_slashes(s.drop_last());
        assert(r == r0 + seq![s[s.len() - 1]]);
        if s.len() >= 2 && s[s.len() - 1] == '/' {
            lemma_collapse_last(s.drop_last());
            assert(r0.last() == s[s.len() - 2]);
        }
        assert forall|i: int| 0 <= i < r.len() - 1 implies !((#[trigger] r[i]) == '/' && r[i + 1]
            == '/') by {
            if i + 1 < r0.len() {
                assert(r[i] == r0[i] && r[i + 1] == r0[i + 1]);
            } else if r0.len() > 0 {
                assert(r[i] == r0[r0.len() - 1] && r[i + 1] == s[s.len() - 1]);
            }
        }
    }
}

/// The view of an optional prefix: its characters, or nothing.
pub open spec fn opt_view(p: Option<String>) -> Seq<char> {
    match p {
        Some(s) => s@,
        None => Seq::empty(),
    }
}

/// The key before collapsing: prefix, partition key and archive file name
/// joined by separators.
pub open spec fn raw_object_key(prefix: Seq<char>, partition: Seq<char>, uuid: Seq<char>) -> Seq<
    char,
> {
    prefix + seq!['/'] + partition + seq!['/', 'a', 'r', 'c', 'h', 'i', 'v', 'e', '_'] + uuid
        + seq!['.', 'j', 's', 'o', 'n', '.', 'g', 'z']
}

/// The storage key of a batch, given the UUID drawn for it.
pub open spec fn object_key_of(prefix: Seq<char>, partition: Seq<char>, uuid: Seq<char>) -> Seq<
    char,
> {
    collapse_slashes(raw_object_key(prefix, partition, uuid))
}

/// A character of the hyphenated UUID form: a lower-case hex digit or a
/// hyphen. In particular never a path separator.
pub open spec fn is_uuid_char(c: char) -> bool {
    ||| c == '-'
    ||| 48 <= c as u32 <= 57
    ||| 97 <= c as u32 <= 102
}

/// The shape of every drawn UUID string: 36 characters, each a lower-case
/// hex digit or a hyphen.
pub open spec fn is_uuid_text(u: Seq<char>) -> bool {
    u.len() == 36 && (forall|i: int| 0 <= i < u.len() ==> is_uuid_char(#[trigger] u[i]))
}

/// Relies on uuid's `Uuid::new_v4` and its `to_string`: a fresh random
/// version-4 UUID in the hyphenated form, which is always 36 characters of
/// lower-case hex digits and hyphens. Nothing is promised about which
/// UUID comes back.
#[verifier::external_body]
fn new_uuid_string() -> (r: String)
    ensures
        is_uuid_text(r@),
{
    uuid::Uuid::new_v4().to_string()
}

/// Joins prefix, partition key and file name around the given UUID and
/// collapses doubled separators. The result never contains `//`.
pub fn object_key_from(key_prefix: &Option<String>, partition_key: &str, uuid: &str) -> (r: String)
    ensures
        r@ == object_key_of(opt_view(*key_prefix), partition_key@, uuid@),
        forall|i: int| 0 <= i < r@.len() - 1 ==> !((#[trigger] r@[i]) == '/' && r@[i + 1] == '/'),
{
    let mut raw = String::new();
    match key_prefix {
        Some(p) => raw.append(p.as_str()),
        None => (),
    }
    raw.append("/");
    raw.append(partition_key);
    raw.append("/archive_");
    raw.append(uuid);
    raw.append(".json.gz");
    proof {
        reveal_strlit("/");
        reveal_strlit("/archive_");
        reveal_strlit(".json.gz");
        assert(raw@ =~= raw_object_key(opt_view(*key_prefix), partition_key@, uuid@));
    }
    let cs = chars_vec(raw.as_str());
    let ghost full = raw@;
    let mut out = String::new();
    let mut i: usize = 0;
    while i < cs.len()
        invariant
            i <= cs.len(),
            cs@ == full,
            out@ == collapse_slashes(full.take(i as int)),
        decreases cs.len() - i,
    {
        let c = cs[i];
        let skip = c == '/' && i >= 1 && cs[i - 1] == '/';
        proof {
            assert(full.take(i as int + 1).drop_last() =~= full.take(i as int));
        }
        if !skip {
            push_char(&mut out, c);
        }
        i = i + 1;
    }
    proof {
        assert(full.take(full.len() as int) =~= full);
        lemma_collapse_no_double(full);
    }
    out
}

/// Draws a fresh UUID and builds the storage key for one flushed batch.
/// Every call uses a new UUID, never derived from the batch, so a retried
/// flush cannot silently overwrite an earlier upload.
pub fn generate_object_key(key_prefix: Option<String>, partition_key: String) -> (r: String)
    ensures
        exists|u: Seq<char>|
            #[trigger] object_key_of(opt_view(key_prefix), partition_key@, u) == r@
                && is_uuid_text(u),
        forall|i: int| 0 <= i < r@.len() - 1 ==> !((#[trigger] r@[i]) == '/' && r@[i + 1] == '/'),
{
    let uuid = new_uuid_string();
    let r = object_key_from(&key_prefix, partition_key.as_str(), uuid.as_str());
    proof {
        assert(object_key_of(opt_view(key_prefix), partition_key@, uuid@) == r@);
    }
    r
}

} // verus!
