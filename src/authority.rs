//! The host part of a URI authority (`userinfo@host:port`), over its bytes.
use vstd::prelude::*;
use vstd::slice::{slice_subrange, slice_to_vec};

verus! {

/// Index of the first `b` in `s`, or -1.
pub open spec fn first_index(s: Seq<u8>, b: u8) -> int
    decreases s.len(),
{
    if s.len() == 0 {
        -1
    } else if s[0] == b {
        0
    } else {
        let k = first_index(s.drop_first(), b);
        if k < 0 {
            -1
        } else {
            k + 1
        }
    }
}

/// Index of the last `b` in `s`, or -1.
pub open spec fn last_index(s: Seq<u8>, b: u8) -> int
    decreases s.len(),
{
    if s.len() == 0 {
        -1
    } else if s.last() == b {
        s.len() - 1
    } else {
        last_index(s.drop_last(), b)
    }
}

/// The authority without its user information: what follows the last `@`.
pub open spec fn host_and_port(auth: Seq<u8>) -> Seq<u8> {
    auth.subrange(last_index(auth, '@' as u8) + 1, auth.len() as int)
}

/// The host of an authority: a bracketed IPv6 literal up to its first `]`, or
/// else the text up to the first `:`. `None` where a `[` is never closed.
pub open spec fn host_of(auth: Seq<u8>) -> Option<Seq<u8>> {
    let hp = host_and_port(auth);
    if hp.len() > 0 && hp[0] == '[' as u8 {
        let i = first_index(hp, ']' as u8);
        if i < 0 {
            None
        } else {
            Some(hp.subrange(0, i + 1))
        }
    } else {
        let i = first_index(hp, ':' as u8);
        if i < 0 {
            Some(hp)
        } else {
            Some(hp.subrange(0, i))
        }
    }
}

proof fn lemma_first_index(s: Seq<u8>, b: u8, i: int)
    requires
        0 <= i <= s.len(),
        forall|j: int| 0 <= j < i ==> s[j] != b,
        i < s.len() ==> s[i] == b,
    ensures
        first_index(s, b) == if i == s.len() { -1 } else { i },
    decreases s.len(),
{
    if s.len() > 0 && i > 0 {
        assert(s[0] != b);
        lemma_first_index(s.drop_first(), b, i - 1);
    }
}

proof fn lemma_last_index(s: Seq<u8>, b: u8, i: int)
    requires
        -1 <= i < s.len(),
        forall|j: int| i < j < s.len() ==> s[j] != b,
        i >= 0 ==> s[i] == b,
    ensures
        last_index(s, b) == i,
    decreases s.len(),
{
    if s.len() > 0 && i < s.len() - 1 {
        assert(s.last() != b);
        lemma_last_index(s.drop_last(), b, i);
    }
}

/// Position of the first `b` in `s`.
fn find_first(s: &[u8], b: u8) -> (r: Option<usize>)
    ensures
        match r {
            Some(i) => i < s@.len() && first_index(s@, b) == i as int,
            None => first_index(s@, b) == -1,
        },
{
    let mut i: usize = 0;
    while i < s.len()
        invariant
            0 <= i <= s@.len(),
            forall|j: int| 0 <= j < i ==> s@[j] != b,
        decreases s@.len() - i,
    {
        if s[i] == b {
            proof {
                lemma_first_index(s@, b, i as int);
            }
            return Some(i);
        }
        i = i + 1;
    }
    proof {
        lemma_first_index(s@, b, i as int);
    }
    None
}

/// Position of the last `b` in `s`.
fn find_last(s: &[u8], b: u8) -> (r: Option<usize>)
    ensures
        match r {
            Some(i) => i < s@.len() && last_index(s@, b) == i as int,
            None => last_index(s@, b) == -1,
        },
{
    let mut i: usize = s.len();
    while i > 0
        invariant
            0 <= i <= s@.len(),
            forall|j: int| i <= j < s@.len() ==> s@[j] != b,
        decreases i,
    {
        if s[i - 1] == b {
            proof {
                lemma_last_index(s@, b, i - 1);
            }
            return Some(i - 1);
        }
        i = i - 1;
    }
    proof {
        lemma_last_index(s@, b, -1);
    }
    None
}

/// Extracts the host from an authority.
pub fn host_of_authority(auth: &[u8]) -> (r: Option<Vec<u8>>)
    ensures
        match r {
            Some(h) => host_of(auth@) == Some(h@),
            None => host_of(auth@) is None,
        },
{
    let n = auth.len();
    let start = match find_last(auth, '@' as u8) {
        Some(i) => i + 1,
        None => 0,
    };
    let hp = slice_subrange(auth, start, n);
    assert(hp@ =~= host_and_port(auth@));
    if hp.len() > 0 && hp[0] == '[' as u8 {
        match find_first(hp, ']' as u8) {
            Some(i) => {
                let h = slice_to_vec(slice_subrange(hp, 0, i + 1));
                assert(h@ =~= hp@.subrange(0, i + 1));
                Some(h)
            },
            None => None,
        }
    } else {
        match find_first(hp, ':' as u8) {
            Some(i) => Some(slice_to_vec(slice_subrange(hp, 0, i))),
            None => Some(slice_to_vec(hp)),
        }
    }
}

} // verus!
