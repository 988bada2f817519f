//! Text fields: zero-padded UTF-8 inside packet payloads.
use vstd::prelude::*;
use vstd::string::StringSliceAdditionalSpecFns;
use vstd::utf8::{
    decode_utf8, decode_utf8_split, encode_scalar, encode_utf8, encode_utf8_decode_utf8,
    encode_utf8_valid_utf8, is_char_boundary, is_char_boundary_iff_not_is_continuation_byte,
    is_char_boundary_start_end_of_seq, is_continuation_byte, valid_utf8, valid_utf8_split,
};

verus! {

/// `s` without its trailing zero bytes.
pub open spec fn trim_zeros(s: Seq<u8>) -> Seq<u8>
    decreases s.len(),
{
    if s.len() > 0 && s.last() == 0 {
        trim_zeros(s.drop_last())
    } else {
        s
    }
}

/// Trimming gives a prefix of `s` that is empty or does not end in a zero byte.
pub proof fn lemma_trim_zeros_shape(s: Seq<u8>)
    ensures
        trim_zeros(s).len() <= s.len(),
        trim_zeros(s) == s.subrange(0, trim_zeros(s).len() as int),
        trim_zeros(s).len() == 0 || trim_zeros(s).last() != 0,
    decreases s.len(),
{
    if s.len() > 0 && s.last() == 0 {
        lemma_trim_zeros_shape(s.drop_last());
        let t = trim_zeros(s.drop_last());
        assert(s.drop_last().subrange(0, t.len() as int) =~= s.subrange(0, t.len() as int));
    } else {
        assert(s.subrange(0, s.len() as int) =~= s);
    }
}

/// The encoding of two texts one after the other is the two encodings one
/// after the other.
pub proof fn lemma_encode_utf8_concat(a: Seq<char>, b: Seq<char>)
    ensures
        encode_utf8(a + b) == encode_utf8(a) + encode_utf8(b),
    decreases a.len(),
{
    if a.len() == 0 {
        assert(a + b =~= b);
        assert(encode_utf8(a) + encode_utf8(b) =~= encode_utf8(b));
    } else {
        lemma_encode_utf8_concat(a.drop_first(), b);
        assert((a + b).drop_first() =~= a.drop_first() + b);
        assert((a + b)[0] == a[0]);
        assert(encode_utf8(a + b) =~= encode_utf8(a) + encode_utf8(b));
    }
}

/// NUL is encoded as the single byte 0.
proof fn lemma_nul_encoding()
    ensures
        encode_scalar('\0' as u32) == seq![0u8],
        encode_utf8(seq!['\0']) == seq![0u8],
        decode_utf8(seq![0u8]) == seq!['\0'],
{
    assert(vstd::utf8::leading_byte_width_1(0u32) == 0u8) by (bit_vector);
    assert(encode_scalar('\0' as u32) =~= seq![0u8]);
    let one = seq!['\0'];
    assert(one.drop_first() =~= Seq::<char>::empty());
    assert(one[0] == '\0');
    assert(encode_utf8(one.drop_first()) =~= Seq::<u8>::empty());
    assert(encode_utf8(one) == encode_scalar(one[0] as u32) + encode_utf8(one.drop_first()));
    assert(encode_utf8(one) =~= seq![0u8]);
    encode_utf8_decode_utf8(seq!['\0']);
}

/// A text ends in NUL exactly when its encoding ends in a zero byte.
pub proof fn lemma_trailing_nul(c: Seq<char>)
    ensures
        (c.len() > 0 && c.last() == '\0') <==> (encode_utf8(c).len() > 0 && encode_utf8(c).last()
            == 0),
{
    lemma_nul_encoding();
    if c.len() > 0 && c.last() == '\0' {
        lemma_encode_utf8_concat(c.drop_last(), seq!['\0']);
        assert(c.drop_last() + seq!['\0'] =~= c);
    }
    let b = encode_utf8(c);
    if b.len() > 0 && b.last() == 0 {
        encode_utf8_valid_utf8(c);
        encode_utf8_decode_utf8(c);
        let n = b.len() - 1;
        is_char_boundary_iff_not_is_continuation_byte(b, n);
        assert(!is_continuation_byte(b[n]));
        decode_utf8_split(b, n);
        assert(b.subrange(n, b.len() as int) =~= seq![0u8]);
        let head = decode_utf8(b.subrange(0, n));
        assert(c == head + seq!['\0']);
        assert(c.len() > 0 && c.last() == '\0');
    }
}

/// Calls `std::str::from_utf8`: `Some` exactly when the bytes are valid UTF-8
/// (`None` stands for its error), and then the text has exactly those bytes.
#[verifier::external_body]
fn str_from_utf8(bytes: &[u8]) -> (r: Option<&str>)
    ensures
        r is Some <==> valid_utf8(bytes@),
        r matches Some(s) ==> s.spec_bytes() == bytes@,
{
    match std::str::from_utf8(bytes) {
        Ok(s) => Some(s),
        Err(_) => None,
    }
}

/// Whether `bytes` are valid UTF-8.
pub fn is_text(bytes: &[u8]) -> (b: bool)
    ensures
        b == valid_utf8(bytes@),
{
    str_from_utf8(bytes).is_some()
}

/// Trimming the zeros of `s.subrange(0, end)` or of `s.subrange(0, k)` is the
/// same when all bytes between `end` and `k` are zero.
proof fn lemma_trim_zeros_prefix(s: Seq<u8>, end: int, k: int)
    requires
        0 <= end <= k <= s.len(),
        forall|j: int| end <= j < k ==> s[j] == 0,
    ensures
        trim_zeros(s.subrange(0, k)) == trim_zeros(s.subrange(0, end)),
    decreases k - end,
{
    if k > end {
        assert(s.subrange(0, k).drop_last() =~= s.subrange(0, k - 1));
        lemma_trim_zeros_prefix(s, end, k - 1);
    }
}

/// The text of a zero-padded field: its bytes up to the trailing zeros,
/// decoded as UTF-8.
pub fn text_of_field(bytes: &[u8]) -> (t: &str)
    requires
        valid_utf8(bytes@),
    ensures
        t.spec_bytes() == trim_zeros(bytes@),
        valid_utf8(trim_zeros(bytes@)),
        t@ == decode_utf8(trim_zeros(bytes@)),
        t.spec_bytes().len() <= bytes@.len(),
        t@.len() == 0 || t@.last() != '\0',
{
    let n = bytes.len();
    let mut end: usize = n;
    while end > 0 && bytes[end - 1] == 0
        invariant
            end <= n,
            n == bytes@.len(),
            forall|j: int| end <= j < n ==> bytes@[j] == 0,
        decreases end,
    {
        end = end - 1;
    }
    proof {
        lemma_trim_zeros_prefix(bytes@, end as int, n as int);
        assert(bytes@.subrange(0, n as int) =~= bytes@);
        let p = bytes@.subrange(0, end as int);
        if end > 0 {
            assert(p.last() == bytes@[end - 1]);
        }
        assert(trim_zeros(p) == p);
        is_char_boundary_start_end_of_seq(bytes@);
        if end < n {
            is_char_boundary_iff_not_is_continuation_byte(bytes@, end as int);
            assert(!is_continuation_byte(bytes@[end as int]));
        }
        assert(is_char_boundary(bytes@, end as int));
        valid_utf8_split(bytes@, end as int);
    }
    let field = vstd::slice::slice_subrange(bytes, 0, end);
    let t = match str_from_utf8(field) {
        Some(s) => s,
        None => "",
    };
    proof {
        lemma_trim_zeros_shape(bytes@);
        encode_utf8_decode_utf8(t@);
        lemma_trailing_nul(t@);
    }
    t
}

/// Zero padding after a sequence does not change what trimming gives.
pub proof fn lemma_trim_zeros_padding(s: Seq<u8>, k: nat)
    ensures
        trim_zeros(s + Seq::new(k, |i: int| 0u8)) == trim_zeros(s),
    decreases k,
{
    if k > 0 {
        let padded = s + Seq::new(k, |i: int| 0u8);
        assert(padded.drop_last() =~= s + Seq::new((k - 1) as nat, |i: int| 0u8));
        lemma_trim_zeros_padding(s, (k - 1) as nat);
    } else {
        assert(s + Seq::new(0, |i: int| 0u8) =~= s);
    }
}

/// A run of zero bytes is valid UTF-8 (each byte is the character NUL).
pub proof fn lemma_zeros_valid_utf8(k: nat)
    ensures
        valid_utf8(Seq::new(k, |i: int| 0u8)),
    decreases k,
{
    let z = Seq::new(k, |i: int| 0u8);
    if k > 0 {
        lemma_zeros_valid_utf8((k - 1) as nat);
        assert(vstd::utf8::leading_bits_width_1(0u8) == 0) by (bit_vector);
        assert(vstd::utf8::pop_first_scalar(z) =~= Seq::new((k - 1) as nat, |i: int| 0u8));
    }
}

} // verus!
