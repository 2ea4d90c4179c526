//! Small verified operations on string slices, proved against their UTF-8 encoding.
use vstd::prelude::*;
use vstd::string::StringSliceAdditionalSpecFns;
use vstd::utf8::*;

verus! {

broadcast use encode_utf8_decode_utf8, encode_utf8_valid_utf8;

/// Two texts are equal exactly when their encodings are.
proof fn lemma_same_encoding(a: Seq<char>, b: Seq<char>)
    requires
        encode_utf8(a) == encode_utf8(b),
    ensures
        a == b,
{
    assert(decode_utf8(encode_utf8(a)) == a);
    assert(decode_utf8(encode_utf8(b)) == b);
}

/// Encoding a concatenation concatenates the encodings.
proof fn lemma_encode_concat(a: Seq<char>, b: Seq<char>)
    ensures
        encode_utf8(a + b) == encode_utf8(a) + encode_utf8(b),
    decreases a.len(),
{
    if a.len() == 0 {
        assert(a + b =~= b);
        assert(encode_utf8(a) + encode_utf8(b) =~= encode_utf8(b));
    } else {
        assert((a + b).drop_first() =~= a.drop_first() + b);
        lemma_encode_concat(a.drop_first(), b);
        assert(encode_utf8(a + b) =~= encode_utf8(a) + encode_utf8(b));
    }
}

/// The end of an encoded prefix is a character boundary.
proof fn lemma_boundary_after_prefix(a: Seq<char>, b: Seq<char>)
    ensures
        is_char_boundary(encode_utf8(a + b), encode_utf8(a).len() as int),
    decreases a.len(),
{
    if a.len() > 0 {
        let bytes = encode_utf8(a + b);
        lemma_encode_concat(a, b);
        assert((a + b).drop_first() =~= a.drop_first() + b);
        encode_utf8_first_scalar(a + b);
        lemma_encode_concat(a.drop_first(), b);
        assert(pop_first_scalar(bytes) =~= encode_utf8(a.drop_first() + b));
        lemma_boundary_after_prefix(a.drop_first(), b);
    }
}

/// Whether `s` begins with the characters of `prefix`.
pub open spec fn starts_with(s: Seq<char>, prefix: Seq<char>) -> bool {
    prefix.len() <= s.len() && s.subrange(0, prefix.len() as int) == prefix
}

/// True exactly when `s` begins with `prefix`.
pub fn has_prefix(s: &str, prefix: &str) -> (r: bool)
    ensures
        r == starts_with(s@, prefix@),
{
    let n = prefix.as_bytes().len();
    proof {
        if starts_with(s@, prefix@) {
            let t = s@.subrange(prefix@.len() as int, s@.len() as int);
            assert(s@ =~= prefix@ + t);
            lemma_encode_concat(prefix@, t);
            lemma_boundary_after_prefix(prefix@, t);
        }
    }
    if n > s.as_bytes().len() || !s.is_char_boundary(n) {
        return false;
    }
    let (head, tail) = s.split_at(n);
    let r = same_text(head, prefix);
    proof {
        assert(s.spec_bytes() =~= head.spec_bytes() + tail.spec_bytes());
        lemma_encode_concat(head@, tail@);
        lemma_same_encoding(s@, head@ + tail@);
        assert(s@.subrange(0, head@.len() as int) =~= head@);
        if starts_with(s@, prefix@) {
            let t = s@.subrange(prefix@.len() as int, s@.len() as int);
            assert(s@ =~= prefix@ + t);
            lemma_encode_concat(prefix@, t);
            assert(head.spec_bytes() =~= prefix.spec_bytes());
            lemma_same_encoding(head@, prefix@);
        }
    }
    r
}

/// Character-wise equality of two string slices.
pub fn same_text(a: &str, b: &str) -> (r: bool)
    ensures
        r == (a@ == b@),
{
    let x = a.as_bytes();
    let y = b.as_bytes();
    if x.len() != y.len() {
        return false;
    }
    let mut i: usize = 0;
    while i < x.len()
        invariant
            x@ == a.spec_bytes(),
            y@ == b.spec_bytes(),
            x@.len() == y@.len(),
            0 <= i <= x@.len(),
            forall|j: int| 0 <= j < i ==> x@[j] == y@[j],
        decreases x@.len() - i,
    {
        if x[i] != y[i] {
            return false;
        }
        i = i + 1;
    }
    proof {
        assert(x@ =~= y@);
        lemma_same_encoding(a@, b@);
    }
    true
}

/// `s` without its first character when that character is `/`.
pub fn strip_leading_slash(s: &str) -> (r: Option<&str>)
    ensures
        r is Some <==> (s@.len() > 0 && s@[0] == '/'),
        r matches Some(rest) ==> rest@ == s@.drop_first(),
{
    let bytes = s.as_bytes();
    proof {
        reveal_with_fuel(encode_utf8, 2);
        if s@.len() > 0 {
            encode_utf8_first_scalar(s@);
        }
    }
    if bytes.len() >= 1 && bytes[0] == 47u8 {
        proof {
            assert(s@.len() > 0);
            assert(47u8 & 0x7Fu8 == 47u8) by (bit_vector);
            assert(decode_first_scalar(s.spec_bytes()) == 47u32);
            char_u32_cast(s@[0], 47u32);
            char_u32_cast('/', 47u32);
            assert(s@[0] == '/');
            assert(encode_scalar(s@[0] as u32) =~= seq![47u8]);
            reveal_with_fuel(is_char_boundary, 2);
            assert(is_char_boundary(s.spec_bytes(), 1));
        }
        let (_, rest) = s.split_at(1);
        proof {
            assert(rest.spec_bytes() =~= encode_utf8(s@.drop_first()));
            lemma_same_encoding(rest@, s@.drop_first());
        }
        Some(rest)
    } else {
        proof {
            if s@.len() > 0 && s@[0] == '/' {
                assert(47u32 & 0x7Fu32 == 47u32) by (bit_vector);
                assert(s@[0] as u32 == 47u32);
                assert(encode_scalar(s@[0] as u32) =~= seq![47u8]);
                assert(bytes@[0] == 47u8);
            }
        }
        None
    }
}

} // verus!
