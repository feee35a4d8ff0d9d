//! Character and string utilities shared by the classifier and the rewriter.
//!
//! Archive paths are forward-slash separated text; extensions are matched
//! ASCII-case-insensitively. All functions here carry exact contracts over
//! the `Seq<char>` views of their inputs.

use vstd::prelude::*;

verus! {

/// Relies on String::push: appends the given character to the end of the string.
pub assume_specification[ String::push ](s: &mut String, c: char)
    ensures
        final(s)@ == old(s)@.push(c),
;

/// ASCII lower-casing of one character; all other characters are unchanged.
pub open spec fn lower_char(c: char) -> char {
    if 'A' <= c && c <= 'Z' {
        (((c as u32) + 32) as char)
    } else {
        c
    }
}

/// Pointwise ASCII lower-casing of a character sequence.
pub open spec fn seq_lower(s: Seq<char>) -> Seq<char> {
    Seq::new(s.len(), |i: int| lower_char(s[i]))
}

pub fn char_to_lower(c: char) -> (r: char)
    ensures
        r == lower_char(c),
{
    if 'A' <= c && c <= 'Z' {
        (((c as u8) + 32) as char)
    } else {
        c
    }
}

pub fn str_to_lower(s: &str) -> (r: String)
    ensures
        r@ == seq_lower(s@),
{
    let n = s.unicode_len();
    let mut out = String::new();
    let mut i: usize = 0;
    while i < n
        invariant
            n == s@.len(),
            0 <= i <= n,
            out@ == seq_lower(s@).subrange(0, i as int),
        decreases n - i,
    {
        let c = char_to_lower(s.get_char(i));
        out.push(c);
        i = i + 1;
        proof {
            assert(out@ =~= seq_lower(s@).subrange(0, i as int));
        }
    }
    proof {
        assert(out@ =~= seq_lower(s@));
    }
    out
}

pub open spec fn starts_with(s: Seq<char>, p: Seq<char>) -> bool {
    p.len() <= s.len() && s.subrange(0, p.len() as int) == p
}

pub fn str_starts_with(s: &str, p: &str) -> (r: bool)
    ensures
        r == starts_with(s@, p@),
{
    let sn = s.unicode_len();
    let pn = p.unicode_len();
    if pn > sn {
        proof {
            assert(!starts_with(s@, p@));
        }
        return false;
    }
    let mut i: usize = 0;
    while i < pn
        invariant
            sn == s@.len(),
            pn == p@.len(),
            pn <= sn,
            0 <= i <= pn,
            forall|j: int| 0 <= j < i ==> s@[j] == p@[j],
        decreases pn - i,
    {
        if s.get_char(i) != p.get_char(i) {
            proof {
                assert(s@.subrange(0, pn as int)[i as int] != p@[i as int]);
            }
            return false;
        }
        i = i + 1;
    }
    proof {
        assert(s@.subrange(0, pn as int) =~= p@);
    }
    true
}

pub fn str_eq(a: &str, b: &str) -> (r: bool)
    ensures
        r == (a@ == b@),
{
    let an = a.unicode_len();
    let bn = b.unicode_len();
    if an != bn {
        proof {
            assert(a@ != b@);
        }
        return false;
    }
    let mut i: usize = 0;
    while i < an
        invariant
            an == a@.len(),
            bn == b@.len(),
            an == bn,
            0 <= i <= an,
            forall|j: int| 0 <= j < i ==> a@[j] == b@[j],
        decreases an - i,
    {
        if a.get_char(i) != b.get_char(i) {
            return false;
        }
        i = i + 1;
    }
    proof {
        assert(a@ =~= b@);
    }
    true
}

/// Index of the last occurrence of `c` in `s`, or -1 when `c` does not occur.
pub open spec fn last_index_of(s: Seq<char>, c: char) -> int
    decreases s.len(),
{
    if s.len() == 0 {
        -1
    } else if s[s.len() - 1] == c {
        s.len() - 1
    } else {
        last_index_of(s.drop_last(), c)
    }
}

pub proof fn lemma_last_index_of(s: Seq<char>, c: char)
    ensures
        -1 <= last_index_of(s, c) < s.len(),
        last_index_of(s, c) == -1 ==> forall|j: int| 0 <= j < s.len() ==> s[j] != c,
        last_index_of(s, c) >= 0 ==> {
            &&& last_index_of(s, c) < s.len()
            &&& s[last_index_of(s, c)] == c
            &&& forall|j: int| last_index_of(s, c) < j < s.len() ==> s[j] != c
        },
    decreases s.len(),
{
    if s.len() > 0 && s[s.len() - 1] != c {
        lemma_last_index_of(s.drop_last(), c);
        assert forall|j: int| 0 <= j < s.len() - 1 implies s.drop_last()[j] == s[j] by {}
    }
}

/// Appending text free of `c` does not move the last occurrence of `c`.
pub proof fn lemma_last_index_concat_free(b: Seq<char>, e: Seq<char>, c: char)
    requires
        forall|j: int| 0 <= j < e.len() ==> e[j] != c,
    ensures
        last_index_of(b + e, c) == last_index_of(b, c),
    decreases e.len(),
{
    if e.len() == 0 {
        assert(b + e =~= b);
    } else {
        assert((b + e).drop_last() =~= b + e.drop_last());
        assert((b + e).last() == e.last());
        lemma_last_index_concat_free(b, e.drop_last(), c);
    }
}

/// Scan for the last occurrence of `c` in `s`.
pub fn find_last(s: &str, c: char) -> (r: Option<usize>)
    ensures
        match r {
            Some(i) => i == last_index_of(s@, c) && i < s@.len(),
            None => last_index_of(s@, c) == -1,
        },
{
    let n = s.unicode_len();
    let mut i: usize = n;
    while i > 0
        invariant
            n == s@.len(),
            0 <= i <= n,
            forall|j: int| i <= j < n ==> s@[j] != c,
        decreases i,
    {
        i = i - 1;
        let ch = s.get_char(i);
        if ch == c {
            proof {
                assert(s@[i as int] == c);
                lemma_last_index_of(s@, c);
                let lio = last_index_of(s@, c);
                assert(lio != -1) by {
                    if lio == -1 {
                        assert(s@[i as int] != c);
                    }
                };
                assert(lio <= i) by {
                    if lio > i {
                        assert(s@[lio] != c);
                    }
                };
                assert(lio >= i) by {
                    if lio < i {
                        assert(s@[i as int] != c);
                    }
                };
            }
            return Some(i);
        }
    }
    proof {
        lemma_last_index_of(s@, c);
        let lio = last_index_of(s@, c);
        if lio >= 0 {
            assert(s@[lio] != c);
        }
    }
    None
}

} // verus!
