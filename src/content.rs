//! Content ids: the SHA-1 digest of a blob object (`blob <len>\0<bytes>`),
//! written as lower-case hex.

use vstd::prelude::*;

use sha1::Digest;

verus! {

/// The SHA-1 digest of a byte sequence.
pub uninterp spec fn sha1_of(data: Seq<u8>) -> Seq<u8>;

/// The lower-case hex digit of a value below sixteen.
pub open spec fn hex_digit(v: u8) -> char {
    seq!['0', '1', '2', '3', '4', '5', '6', '7', '8', '9', 'a', 'b', 'c', 'd', 'e', 'f'][v as int]
}

/// Two lower-case hex digits per byte, high nibble first.
pub open spec fn hex_of(b: Seq<u8>) -> Seq<char>
    decreases b.len(),
{
    if b.len() == 0 {
        Seq::empty()
    } else {
        seq![hex_digit(b[0] / 16), hex_digit(b[0] % 16)] + hex_of(b.drop_first())
    }
}

/// The ASCII decimal digits of `n`, most significant first.
pub open spec fn decimal_of(n: nat) -> Seq<u8>
    decreases n,
{
    if n < 10 {
        seq![(48 + n) as u8]
    } else {
        decimal_of(n / 10).push((48 + n % 10) as u8)
    }
}

/// `blob <len>\0`: the header of a blob object of `len` bytes.
pub open spec fn blob_header(len: nat) -> Seq<u8> {
    seq![98u8, 108u8, 111u8, 98u8, 32u8] + decimal_of(len) + seq![0u8]
}

/// The bytes that are digested for a blob holding `data`.
pub open spec fn blob_object(data: Seq<u8>) -> Seq<u8> {
    blob_header(data.len()) + data
}

/// The content id of a blob holding `data`.
pub open spec fn content_id_of(data: Seq<u8>) -> Seq<char> {
    hex_of(sha1_of(blob_object(data)))
}

/// Relies on sha1's `Digest::digest` for `Sha1`: the 20-byte SHA-1 digest of
/// the input, which depends on the input alone.
#[verifier::external_body]
fn sha1_digest(data: &[u8]) -> (r: Vec<u8>)
    ensures
        r@ == sha1_of(data@),
        r@.len() == 20,
{
    sha1::Sha1::digest(data).to_vec()
}

/// Relies on hex::encode: two lower-case hex digits per byte, high nibble
/// first.
#[verifier::external_body]
fn hex_encode(data: &[u8]) -> (r: String)
    ensures
        r@ == hex_of(data@),
{
    hex::encode(data)
}

proof fn lemma_decimal_digits(n: nat)
    ensures
        decimal_of(n).len() >= 1,
        forall|i: int| 0 <= i < decimal_of(n).len() ==> 48 <= #[trigger] decimal_of(n)[i] <= 57,
    decreases n,
{
    if n >= 10 {
        lemma_decimal_digits(n / 10);
    }
}

fn decimal_digits(n: usize) -> (r: Vec<u8>)
    ensures
        r@ == decimal_of(n as nat),
    decreases n,
{
    if n < 10 {
        let d: u8 = (48 + n) as u8;
        vec![d]
    } else {
        let mut r = decimal_digits(n / 10);
        let d: u8 = (48 + n % 10) as u8;
        r.push(d);
        r
    }
}

/// The bytes of the blob object that holds `data`.
pub fn blob_object_bytes(data: &[u8]) -> (r: Vec<u8>)
    ensures
        r@ == blob_object(data@),
{
    let mut r: Vec<u8> = vec![98u8, 108u8, 111u8, 98u8, 32u8];
    let n = data.len();
    let digits = decimal_digits(n);
    let mut i: usize = 0;
    while i < digits.len()
        invariant
            i <= digits@.len(),
            r@ == seq![98u8, 108u8, 111u8, 98u8, 32u8] + digits@.subrange(0, i as int),
        decreases digits@.len() - i,
    {
        r.push(digits[i]);
        proof {
            assert(digits@.subrange(0, i + 1) == digits@.subrange(0, i as int).push(digits@[i as int]));
        }
        i = i + 1;
    }
    r.push(0u8);
    let header = Ghost(r@);
    assert(header@ == blob_header(data@.len())) by {
        assert(digits@.subrange(0, digits@.len() as int) == digits@);
        assert(n as nat == data@.len());
        assert(header@ =~= blob_header(data@.len()));
    }
    let mut k: usize = 0;
    while k < data.len()
        invariant
            k <= data@.len(),
            r@ == header@ + data@.subrange(0, k as int),
        decreases data@.len() - k,
    {
        r.push(data[k]);
        proof {
            assert(data@.subrange(0, k + 1) == data@.subrange(0, k as int).push(data@[k as int]));
        }
        k = k + 1;
    }
    assert(data@.subrange(0, data@.len() as int) == data@);
    r
}

/// The content id of a blob holding `data`: lower-case hex of the SHA-1
/// digest of `blob <len>\0` followed by the bytes. The length in the header
/// is that of the bytes given, so header and bytes always agree.
pub fn blob_content_id(data: &[u8]) -> (r: String)
    ensures
        r@ == content_id_of(data@),
{
    let object = blob_object_bytes(data);
    let digest = sha1_digest(object.as_slice());
    hex_encode(digest.as_slice())
}

/// Hashing is deterministic: equal contents give equal content ids.
pub proof fn lemma_content_id_deterministic(a: Seq<u8>, b: Seq<u8>)
    requires
        a == b,
    ensures
        content_id_of(a) == content_id_of(b),
{
}

/// Distinct contents give distinct blob objects, so two contents share a
/// content id only where SHA-1 itself collides.
pub proof fn lemma_blob_object_injective(a: Seq<u8>, b: Seq<u8>)
    requires
        blob_object(a) == blob_object(b),
    ensures
        a == b,
{
    let da = decimal_of(a.len());
    let la: int = da.len() as int;
    let db = decimal_of(b.len());
    let lb: int = db.len() as int;
    let oa = blob_object(a);
    let ob = blob_object(b);
    lemma_decimal_digits(a.len());
    lemma_decimal_digits(b.len());
    if la < lb {
        assert(oa[5 + la] == 0u8);
        assert(ob[5 + la] == db[la]);
    } else if lb < la {
        assert(ob[5 + lb] == 0u8);
        assert(oa[5 + lb] == da[lb]);
    } else {
        assert(da =~= oa.subrange(5, 5 + la));
        assert(db =~= ob.subrange(5, 5 + lb));
        let h: int = 6 + la;
        assert(a =~= oa.subrange(h, oa.len() as int));
        assert(b =~= ob.subrange(h, ob.len() as int));
    }
}

proof fn lemma_hex_digit_injective(x: u8, y: u8)
    requires
        x < 16,
        y < 16,
        hex_digit(x) == hex_digit(y),
    ensures
        x == y,
{
    let digits = seq!['0', '1', '2', '3', '4', '5', '6', '7', '8', '9', 'a', 'b', 'c', 'd', 'e', 'f'];
    assert(forall|i: int, j: int| 0 <= i < j < 16 ==> digits[i] != digits[j]);
}

proof fn lemma_hex_injective(a: Seq<u8>, b: Seq<u8>)
    requires
        hex_of(a) == hex_of(b),
    ensures
        a == b,
    decreases a.len(),
{
    lemma_hex_len(a);
    lemma_hex_len(b);
    if a.len() > 0 {
        let ha = seq![hex_digit(a[0] / 16), hex_digit(a[0] % 16)];
        let hb = seq![hex_digit(b[0] / 16), hex_digit(b[0] % 16)];
        assert(hex_of(a)[0] == ha[0] && hex_of(a)[1] == ha[1]);
        assert(hex_of(b)[0] == hb[0] && hex_of(b)[1] == hb[1]);
        lemma_hex_digit_injective(a[0] / 16, b[0] / 16);
        lemma_hex_digit_injective(a[0] % 16, b[0] % 16);
        assert(a[0] == b[0]);
        assert(hex_of(a.drop_first()) =~= hex_of(a).subrange(2, hex_of(a).len() as int));
        assert(hex_of(b.drop_first()) =~= hex_of(b).subrange(2, hex_of(b).len() as int));
        lemma_hex_injective(a.drop_first(), b.drop_first());
        assert(a =~= seq![a[0]] + a.drop_first());
        assert(b =~= seq![b[0]] + b.drop_first());
    }
}

proof fn lemma_hex_len(a: Seq<u8>)
    ensures
        hex_of(a).len() == 2 * a.len(),
    decreases a.len(),
{
    if a.len() > 0 {
        lemma_hex_len(a.drop_first());
    }
}

/// Two distinct contents share a content id only where SHA-1 maps their
/// two distinct blob objects to one digest.
pub proof fn lemma_shared_id_is_digest_collision(a: Seq<u8>, b: Seq<u8>)
    requires
        a != b,
        content_id_of(a) == content_id_of(b),
    ensures
        blob_object(a) != blob_object(b),
        sha1_of(blob_object(a)) == sha1_of(blob_object(b)),
{
    lemma_hex_injective(sha1_of(blob_object(a)), sha1_of(blob_object(b)));
    if blob_object(a) == blob_object(b) {
        lemma_blob_object_injective(a, b);
    }
}

} // verus!
