//! Unique record ids: 18 raw bytes (6-byte big-endian millisecond
//! timestamp, 8 process-lifetime random bytes, 4-byte big-endian rolling
//! counter), base64-encoded with the standard alphabet. Ids issued by one
//! process are distinct as long as fewer than 2^32 are drawn.
use vstd::prelude::*;

verus! {

/// The standard-alphabet, padded base64 rendering of a byte sequence, as
/// computed by the base64 crate.
pub uninterp spec fn base64_std_of(b: Seq<u8>) -> Seq<char>;

/// The inverse: what the base64 crate's standard-alphabet decode returns,
/// `None` on input it rejects.
pub uninterp spec fn base64_std_decode_of(s: Seq<char>) -> Option<Seq<u8>>;

/// Relies on base64's `Engine::encode` with the `BASE64_STANDARD` engine:
/// RFC 4648 standard alphabet with padding, four output characters per
/// three-byte group, a function of the input bytes alone; `Engine::decode`
/// with the same engine inverts it, which is what makes distinct inputs
/// encode to distinct strings.
#[verifier::external_body]
fn base64_encode(b: &Vec<u8>) -> (r: String)
    ensures
        r@ == base64_std_of(b@),
        r@.len() == 4 * ((b@.len() + 2) / 3),
        base64_std_decode_of(r@) == Some(b@),
{
    base64::Engine::encode(&base64::prelude::BASE64_STANDARD, b.as_slice())
}

/// Relies on rand's `random`: eight bytes drawn from the thread-local
/// generator. Nothing is promised of their values.
#[verifier::external_body]
pub fn random_bytes() -> [u8; 8] {
    rand::random::<[u8; 8]>()
}

/// The 18 raw bytes of a record id: the low six bytes of the timestamp,
/// big-endian, then the eight random bytes, then the counter, big-endian.
pub open spec fn id_bytes(now: u64, rnd: Seq<u8>, counter: u32) -> Seq<u8> {
    seq![
        (((now as int / 0x10000000000) % 256) as u8),
        (((now as int / 0x100000000) % 256) as u8),
        (((now as int / 0x1000000) % 256) as u8),
        (((now as int / 0x10000) % 256) as u8),
        (((now as int / 0x100) % 256) as u8),
        ((now as int % 256) as u8),
    ] + rnd + seq![
        (((counter as int / 0x1000000) % 256) as u8),
        (((counter as int / 0x10000) % 256) as u8),
        (((counter as int / 0x100) % 256) as u8),
        ((counter as int % 256) as u8),
    ]
}

/// Builds and encodes one record id from its three ingredients.
pub fn encode_id(now: u64, rnd: &[u8; 8], counter: u32) -> (r: String)
    ensures
        r@ == base64_std_of(id_bytes(now, rnd@, counter)),
        base64_std_decode_of(r@) == Some(id_bytes(now, rnd@, counter)),
        r@.len() == 24,
{
    let mut b: Vec<u8> = Vec::new();
    b.push(((now / 0x10000000000) % 256) as u8);
    b.push(((now / 0x100000000) % 256) as u8);
    b.push(((now / 0x1000000) % 256) as u8);
    b.push(((now / 0x10000) % 256) as u8);
    b.push(((now / 0x100) % 256) as u8);
    b.push((now % 256) as u8);
    let mut i: usize = 0;
    while i < 8
        invariant
            i <= 8,
            b@.len() == 6 + i,
            b@ == id_bytes(now, rnd@, 0u32).take(6 + i as int),
        decreases 8 - i,
    {
        b.push(rnd[i]);
        proof {
            assert(b@ =~= id_bytes(now, rnd@, 0u32).take(6 + i as int + 1));
        }
        i = i + 1;
    }
    b.push(((counter / 0x1000000) % 256) as u8);
    b.push(((counter / 0x10000) % 256) as u8);
    b.push(((counter / 0x100) % 256) as u8);
    b.push((counter % 256) as u8);
    proof {
        assert(b@ =~= id_bytes(now, rnd@, counter));
    }
    base64_encode(&b)
}

/// The raw id is exactly 18 bytes, and its leading six bytes carry the
/// generation timestamp: read big-endian they give back the millisecond
/// reading the id was drawn at, for any reading below 2^48.
pub proof fn lemma_id_bytes_shape(now: u64, rnd: Seq<u8>, counter: u32)
    requires
        rnd.len() == 8,
        now < 0x1000000000000,
    ensures
        ({
            let b = id_bytes(now, rnd, counter);
            &&& b.len() == 18
            &&& (b[0] as int) * 0x10000000000 + (b[1] as int) * 0x100000000 + (b[2] as int)
                * 0x1000000 + (b[3] as int) * 0x10000 + (b[4] as int) * 0x100 + (b[5] as int)
                == now as int
        }),
{
    assert(((now / 0x10000000000) % 256) * 0x10000000000 + ((now / 0x100000000) % 256)
        * 0x100000000 + ((now / 0x1000000) % 256) * 0x1000000 + ((now / 0x10000) % 256) * 0x10000
        + ((now / 0x100) % 256) * 0x100 + (now % 256) == now) by (bit_vector)
        requires
            now < 0x1000000000000,
    ;
}

/// Id byte sequences drawn with the same random block but distinct counter
/// values differ, whatever their timestamps: the four counter bytes pin
/// the counter down.
pub proof fn lemma_id_bytes_distinct(now1: u64, now2: u64, rnd: Seq<u8>, c1: u32, c2: u32)
    requires
        rnd.len() == 8,
        c1 != c2,
    ensures
        id_bytes(now1, rnd, c1) != id_bytes(now2, rnd, c2),
{
    let b1 = id_bytes(now1, rnd, c1);
    let b2 = id_bytes(now2, rnd, c2);
    if b1 == b2 {
        assert(b1[14] == b2[14] && b1[15] == b2[15] && b1[16] == b2[16] && b1[17] == b2[17]);
        assert((c1 / 0x1000000) % 256 == (c2 / 0x1000000) % 256 && (c1 / 0x10000) % 256 == (c2
            / 0x10000) % 256 && (c1 / 0x100) % 256 == (c2 / 0x100) % 256 && c1 % 256 == c2 % 256
            ==> c1 == c2) by (bit_vector);
        assert(false);
    }
}

/// Strings whose base64 decodings are present and distinct are themselves
/// distinct.
pub proof fn lemma_encoded_ids_distinct(s1: Seq<char>, b1: Seq<u8>, s2: Seq<char>, b2: Seq<u8>)
    requires
        base64_std_decode_of(s1) == Some(b1),
        base64_std_decode_of(s2) == Some(b2),
        b1 != b2,
    ensures
        s1 != s2,
{
}

/// Two ids issued by one process are distinct as long as their counter
/// values differ, whatever their timestamps: the counter bytes pin the
/// counter down, and decoding tells the encodings apart. Since the
/// counter steps once per id and wraps at 2^32, any two of the first 2^32
/// ids a normalizer issues satisfy this.
pub proof fn lemma_ids_distinct(
    s1: Seq<char>,
    s2: Seq<char>,
    now1: u64,
    now2: u64,
    rnd: Seq<u8>,
    c1: u32,
    c2: u32,
)
    requires
        rnd.len() == 8,
        c1 != c2,
        base64_std_decode_of(s1) == Some(id_bytes(now1, rnd, c1)),
        base64_std_decode_of(s2) == Some(id_bytes(now2, rnd, c2)),
    ensures
        s1 != s2,
{
    lemma_id_bytes_distinct(now1, now2, rnd, c1, c2);
    lemma_encoded_ids_distinct(s1, id_bytes(now1, rnd, c1), s2, id_bytes(now2, rnd, c2));
}

} // verus!
