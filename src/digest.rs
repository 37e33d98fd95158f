//! Content digests of the form `sha256:<hex>` and the blob paths derived from them.
use vstd::prelude::*;
use crate::text::{chars_of, string_of, push_chars, push_str};

verus! {

/// The SHA-256 hash of a byte sequence.
pub uninterp spec fn sha256_of(data: Seq<u8>) -> Seq<u8>;

/// Relies on `sha2::Sha256::digest`: the SHA-256 hash of the input, 32 bytes long.
#[verifier::external_body]
fn sha256(data: &[u8]) -> (r: Vec<u8>)
    ensures
        r@ == sha256_of(data@),
        r@.len() == 32,
{
    <sha2::Sha256 as sha2::Digest>::digest(data).to_vec()
}

/// The lowercase hexadecimal digit of a value below sixteen.
pub open spec fn hex_digit(d: u8) -> char {
    seq!['0', '1', '2', '3', '4', '5', '6', '7', '8', '9', 'a', 'b', 'c', 'd', 'e', 'f'][d as int]
}

/// Two lowercase hexadecimal digits per byte, high nibble first.
pub open spec fn hex_text(b: Seq<u8>) -> Seq<char>
    decreases b.len(),
{
    if b.len() == 0 {
        Seq::empty()
    } else {
        hex_text(b.drop_last()) + seq![hex_digit(b.last() / 16), hex_digit(b.last() % 16)]
    }
}

/// Relies on `hex::encode`: each byte as two lowercase hexadecimal digits, in order.
#[verifier::external_body]
fn hex_encode(b: &[u8]) -> (r: String)
    ensures
        r@ == hex_text(b@),
{
    hex::encode(b)
}

/// The name of the digest algorithm, followed by the separator.
pub open spec fn algorithm_prefix() -> Seq<char> {
    seq!['s', 'h', 'a', '2', '5', '6', ':']
}

/// The digest of a byte sequence: `sha256:` and the hash in hexadecimal.
pub open spec fn digest_of(data: Seq<u8>) -> Seq<char> {
    algorithm_prefix() + hex_text(sha256_of(data))
}

/// Computes the digest string of `data`.
pub fn sha256_bytes(data: &[u8]) -> (r: String)
    ensures
        r@ == digest_of(data@),
        r@.len() == 71,
{
    let hash = sha256(data);
    let hex = hex_encode(hash.as_slice());
    let mut out: Vec<char> = Vec::new();
    push_str(&mut out, "sha256:");
    proof {
        reveal_strlit("sha256:");
        assert(out@ =~= algorithm_prefix());
    }
    let hex_chars = chars_of(hex.as_str());
    push_chars(&mut out, &hex_chars);
    proof {
        lemma_hex_text_no_colon(sha256_of(data@));
    }
    string_of(&out)
}

/// The characters of `s` before its first `:`, or all of `s` where it has none.
pub open spec fn upto_colon(s: Seq<char>) -> Seq<char>
    decreases s.len(),
{
    if s.len() == 0 {
        s
    } else if s[0] == ':' {
        Seq::empty()
    } else {
        seq![s[0]] + upto_colon(s.drop_first())
    }
}

proof fn lemma_upto_colon_len(s: Seq<char>)
    ensures
        upto_colon(s).len() <= s.len(),
        upto_colon(s).len() == s.len() <==> (forall|i: int| 0 <= i < s.len() ==> s[i] != ':'),
    decreases s.len(),
{
    if s.len() > 0 && s[0] != ':' {
        lemma_upto_colon_len(s.drop_first());
        if upto_colon(s).len() == s.len() {
            assert forall|i: int| 0 <= i < s.len() implies s[i] != ':' by {
                if i > 0 {
                    assert(s[i] == s.drop_first()[i - 1]);
                }
            }
        }
        if forall|i: int| 0 <= i < s.len() ==> s[i] != ':' {
            assert forall|i: int| 0 <= i < s.drop_first().len() implies s.drop_first()[i] != ':' by {
                assert(s.drop_first()[i] == s[i + 1]);
            }
        }
    }
}

/// The characters of `s` from `start` up to the next `:` or the end.
fn field_from(s: &Vec<char>, start: usize) -> (r: Vec<char>)
    requires
        start <= s@.len(),
    ensures
        r@ == upto_colon(s@.skip(start as int)),
{
    let mut out: Vec<char> = Vec::new();
    let mut i: usize = start;
    while i < s.len() && s[i] != ':'
        invariant
            start <= i <= s@.len(),
            upto_colon(s@.skip(start as int)) == out@ + upto_colon(s@.skip(i as int)),
        decreases s@.len() - i,
    {
        assert(s@.skip(i as int).drop_first() =~= s@.skip(i + 1));
        assert(out@ + upto_colon(s@.skip(i as int)) =~= out@.push(s[i as int]) + upto_colon(
            s@.skip(i + 1),
        ));
        out.push(s[i]);
        i = i + 1;
    }
    assert(out@ + upto_colon(s@.skip(i as int)) =~= out@);
    out
}

/// `name` appended to the path `base`, with one `/` between them.
pub open spec fn join_path(base: Seq<char>, name: Seq<char>) -> Seq<char> {
    if base.len() > 0 && base.last() == '/' {
        base + name
    } else {
        base + seq!['/'] + name
    }
}

fn push_component(out: &mut Vec<char>, name: &Vec<char>)
    ensures
        final(out)@ == join_path(old(out)@, name@),
{
    let n = out.len();
    if n == 0 || out[n - 1] != '/' {
        out.push('/');
    }
    push_chars(out, name);
}

/// The directory that holds the blobs of a package root.
pub open spec fn blobs_dir() -> Seq<char> {
    seq!['b', 'l', 'o', 'b', 's']
}

/// Where the blob with `digest` lies under `root`: `<root>/blobs/<algorithm>/<hex>`,
/// the algorithm being what precedes the first `:` and the hexadecimal part what
/// follows it, up to a second `:` if there is one. A digest without `:` names no blob.
pub open spec fn blob_path_of(root: Seq<char>, digest: Seq<char>) -> Option<Seq<char>> {
    let algorithm = upto_colon(digest);
    if algorithm.len() == digest.len() {
        None
    } else {
        let hex = upto_colon(digest.skip(algorithm.len() as int + 1));
        Some(join_path(join_path(join_path(root, blobs_dir()), algorithm), hex))
    }
}

/// The path of the blob with `digest` under the package root `root`; `None` when
/// `digest` has no `:` between algorithm and hash.
pub fn blob_path(root: &str, digest: &str) -> (r: Option<String>)
    ensures
        r matches Some(p) ==> blob_path_of(root@, digest@) == Some(p@),
        r is None ==> blob_path_of(root@, digest@) is None,
{
    let d = chars_of(digest);
    let algorithm = field_from(&d, 0);
    proof {
        assert(d@.skip(0) =~= d@);
        lemma_upto_colon_len(d@);
    }
    if algorithm.len() == d.len() {
        return None;
    }
    let hex = field_from(&d, algorithm.len() + 1);
    let mut out = chars_of(root);
    let blobs = chars_of("blobs");
    proof {
        reveal_strlit("blobs");
        assert(blobs@ =~= blobs_dir());
    }
    push_component(&mut out, &blobs);
    push_component(&mut out, &algorithm);
    push_component(&mut out, &hex);
    Some(string_of(&out))
}

proof fn lemma_upto_colon_at(s: Seq<char>, i: int)
    requires
        0 <= i <= s.len(),
        forall|k: int| 0 <= k < i ==> s[k] != ':',
        i == s.len() || s[i] == ':',
    ensures
        upto_colon(s) == s.take(i),
    decreases i,
{
    if i == 0 {
        assert(s.take(0) =~= Seq::<char>::empty());
        if s.len() == 0 {
            assert(s =~= Seq::<char>::empty());
        }
    } else {
        let t = s.drop_first();
        assert forall|k: int| 0 <= k < i - 1 implies t[k] != ':' by {
            assert(t[k] == s[k + 1]);
        }
        lemma_upto_colon_at(t, i - 1);
        assert(s.take(i) =~= seq![s[0]] + t.take(i - 1));
    }
}

proof fn lemma_hex_digit_not_colon(d: u8)
    requires
        d < 16,
    ensures
        hex_digit(d) != ':',
{
    let digits = seq!['0', '1', '2', '3', '4', '5', '6', '7', '8', '9', 'a', 'b', 'c', 'd', 'e', 'f'];
    assert forall|k: int| 0 <= k < 16 implies digits[k] != ':' by {
        assert(digits[0] == '0' && digits[1] == '1' && digits[2] == '2' && digits[3] == '3');
        assert(digits[4] == '4' && digits[5] == '5' && digits[6] == '6' && digits[7] == '7');
        assert(digits[8] == '8' && digits[9] == '9' && digits[10] == 'a' && digits[11] == 'b');
        assert(digits[12] == 'c' && digits[13] == 'd' && digits[14] == 'e' && digits[15] == 'f');
    }
}

proof fn lemma_hex_text_no_colon(b: Seq<u8>)
    ensures
        forall|k: int| 0 <= k < hex_text(b).len() ==> hex_text(b)[k] != ':',
        hex_text(b).len() == 2 * b.len(),
    decreases b.len(),
{
    if b.len() > 0 {
        lemma_hex_text_no_colon(b.drop_last());
        lemma_hex_digit_not_colon(b.last() / 16);
        lemma_hex_digit_not_colon(b.last() % 16);
        let h = hex_text(b.drop_last());
        assert forall|k: int| 0 <= k < hex_text(b).len() implies hex_text(b)[k] != ':' by {
            if k < h.len() {
                assert(hex_text(b)[k] == h[k]);
            }
        }
    }
}

/// The blob of any content is stored at `<root>/blobs/sha256/<hex>`, where `<hex>`
/// is the hexadecimal hash of that content: a blob's file name is its digest.
pub proof fn lemma_blob_path_of_digest(root: Seq<char>, data: Seq<u8>)
    ensures
        blob_path_of(root, digest_of(data)) == Some(
            join_path(
                join_path(join_path(root, blobs_dir()), seq!['s', 'h', 'a', '2', '5', '6']),
                hex_text(sha256_of(data)),
            ),
        ),
{
    let hex = hex_text(sha256_of(data));
    let d = digest_of(data);
    lemma_hex_text_no_colon(sha256_of(data));
    assert forall|k: int| 0 <= k < 6 implies d[k] != ':' by {
        assert(d[k] == algorithm_prefix()[k]);
    }
    assert(d[6] == ':');
    lemma_upto_colon_at(d, 6);
    assert(d.take(6) =~= seq!['s', 'h', 'a', '2', '5', '6']);
    assert(d.skip(7) =~= hex);
    lemma_upto_colon_at(hex, hex.len() as int);
    assert(hex.take(hex.len() as int) =~= hex);
}

} // verus!
