//! The manifest reference rewriter: a plain-text, context-pattern substring
//! substitution. For each rename record it tries every encoding variant of
//! the old and new bare file names, wrapped in a fixed set of context
//! patterns, and replaces all occurrences of each old pattern that differs
//! from its new counterpart.

use vstd::prelude::*;

use crate::rename::RenameRegistry;
use crate::text::{starts_with, str_eq, str_starts_with};
use crate::textenc::{encoding_variants, spec_variant};

verus! {

/// `p` occurs in `t` starting at position `i`.
pub open spec fn matches_at(t: Seq<char>, p: Seq<char>, i: int) -> bool {
    0 <= i && i + p.len() <= t.len() && t.subrange(i, i + p.len() as int) == p
}

/// `p` occurs somewhere in `t`.
pub open spec fn occurs(t: Seq<char>, p: Seq<char>) -> bool {
    exists|i: int| matches_at(t, p, i)
}

/// Position of the leftmost occurrence of `p` in `t`, or -1 when there is
/// none. The empty pattern occurs at position 0.
pub open spec fn spec_find(t: Seq<char>, p: Seq<char>) -> int
    decreases t.len(),
{
    if p.len() <= t.len() && t.subrange(0, p.len() as int) == p {
        0
    } else if t.len() == 0 {
        -1
    } else {
        let r = spec_find(t.skip(1), p);
        if r < 0 {
            -1
        } else {
            r + 1
        }
    }
}

proof fn lemma_matches_skip(t: Seq<char>, p: Seq<char>, j: int)
    requires
        t.len() > 0,
        j >= 0,
    ensures
        matches_at(t, p, j + 1) == matches_at(t.skip(1), p, j),
{
    let t1 = t.skip(1);
    if j + 1 + p.len() <= t.len() {
        assert(t.subrange(j + 1, j + 1 + p.len() as int) =~= t1.subrange(j, j + p.len() as int));
    }
}

/// `spec_find` returns the leftmost occurrence, and -1 exactly when the
/// pattern does not occur.
pub proof fn lemma_spec_find(t: Seq<char>, p: Seq<char>)
    ensures
        spec_find(t, p) >= -1,
        spec_find(t, p) == -1 ==> !occurs(t, p),
        spec_find(t, p) >= 0 ==> {
            &&& spec_find(t, p) + p.len() <= t.len()
            &&& matches_at(t, p, spec_find(t, p))
            &&& forall|j: int| 0 <= j < spec_find(t, p) ==> !matches_at(t, p, j)
        },
    decreases t.len(),
{
    if p.len() <= t.len() && t.subrange(0, p.len() as int) == p {
        assert(matches_at(t, p, 0));
    } else if t.len() == 0 {
        assert forall|i: int| !matches_at(t, p, i) by {}
    } else {
        let t1 = t.skip(1);
        lemma_spec_find(t1, p);
        let r = spec_find(t1, p);
        assert(!matches_at(t, p, 0));
        if r < 0 {
            assert forall|i: int| !matches_at(t, p, i) by {
                if i >= 1 {
                    lemma_matches_skip(t, p, i - 1);
                    assert(!matches_at(t1, p, i - 1));
                }
            }
        } else {
            lemma_matches_skip(t, p, r);
            assert(matches_at(t, p, r + 1));
            assert forall|j: int| 0 <= j < r + 1 implies !matches_at(t, p, j) by {
                if j >= 1 {
                    lemma_matches_skip(t, p, j - 1);
                    assert(!matches_at(t1, p, j - 1));
                }
            }
        }
    }
}

/// If the pattern does not occur, `spec_find` is -1.
pub proof fn lemma_not_occurs_find(t: Seq<char>, p: Seq<char>)
    requires
        !occurs(t, p),
    ensures
        spec_find(t, p) == -1,
{
    lemma_spec_find(t, p);
    if spec_find(t, p) >= 0 {
        assert(matches_at(t, p, spec_find(t, p)));
    }
}

/// Scan for the leftmost occurrence of `pat` in `text`.
pub fn find_pattern(text: &str, pat: &str) -> (r: Option<usize>)
    requires
        pat@.len() >= 1,
    ensures
        match r {
            Some(i) => i == spec_find(text@, pat@),
            None => spec_find(text@, pat@) == -1,
        },
{
    proof {
        lemma_spec_find(text@, pat@);
    }
    let tn = text.unicode_len();
    let pn = pat.unicode_len();
    if pn > tn {
        return None;
    }
    let mut i: usize = 0;
    while i <= tn - pn
        invariant
            tn == text@.len(),
            pn == pat@.len(),
            1 <= pn <= tn,
            0 <= i <= tn - pn + 1,
            forall|j: int| 0 <= j < i ==> !matches_at(text@, pat@, j),
        decreases tn - pn + 1 - i,
    {
        let mut k: usize = 0;
        let mut hit = true;
        while k < pn
            invariant
                tn == text@.len(),
                pn == pat@.len(),
                0 <= i <= tn - pn,
                0 <= k <= pn,
                hit ==> forall|m: int| 0 <= m < k ==> text@[i + m] == pat@[m],
                !hit ==> !matches_at(text@, pat@, i as int),
            decreases pn - k,
        {
            if text.get_char(i + k) != pat.get_char(k) {
                proof {
                    if matches_at(text@, pat@, i as int) {
                        assert(text@.subrange(i as int, i + pn as int)[k as int] == pat@[k as int]);
                    }
                }
                hit = false;
                k = pn;
            } else {
                k = k + 1;
            }
        }
        if hit {
            proof {
                assert(text@.subrange(i as int, i + pn as int) =~= pat@);
                assert(matches_at(text@, pat@, i as int));
                lemma_spec_find(text@, pat@);
                let f = spec_find(text@, pat@);
                if f == -1 {
                    assert(!occurs(text@, pat@));
                    assert(matches_at(text@, pat@, i as int));
                }
                assert(f >= 0);
                if f < i {
                    assert(!matches_at(text@, pat@, f));
                } else if f > i {
                    assert(!matches_at(text@, pat@, i as int));
                }
            }
            return Some(i);
        }
        i = i + 1;
    }
    proof {
        lemma_spec_find(text@, pat@);
        let f = spec_find(text@, pat@);
        if f >= 0 {
            assert(matches_at(text@, pat@, f));
            assert(f <= tn - pn);
            assert(!matches_at(text@, pat@, f));
        }
    }
    None
}

/// Replace every occurrence of `o` in `t` with `n`, scanning left to right
/// without overlap. The empty pattern replaces nothing.
pub open spec fn spec_replace(t: Seq<char>, o: Seq<char>, n: Seq<char>) -> Seq<char>
    decreases t.len(),
{
    if o.len() == 0 {
        t
    } else {
        let i = spec_find(t, o);
        if i < 0 || i + o.len() > t.len() {
            t
        } else {
            t.subrange(0, i) + n + spec_replace(t.skip(i + o.len() as int), o, n)
        }
    }
}

/// How many non-overlapping occurrences `spec_replace` replaces.
pub open spec fn spec_count(t: Seq<char>, o: Seq<char>) -> nat
    decreases t.len(),
{
    if o.len() == 0 {
        0
    } else {
        let i = spec_find(t, o);
        if i < 0 || i + o.len() > t.len() {
            0
        } else {
            1 + spec_count(t.skip(i + o.len() as int), o)
        }
    }
}

/// A text in which the pattern does not occur is left unchanged.
pub proof fn lemma_replace_absent(t: Seq<char>, o: Seq<char>, n: Seq<char>)
    requires
        o.len() >= 1,
        !occurs(t, o),
    ensures
        spec_replace(t, o, n) == t,
        spec_count(t, o) == 0,
{
    lemma_not_occurs_find(t, o);
}

/// Replace every occurrence of `old` in `text` with `new`, left to right,
/// and count the replacements made.
pub fn replace_all(text: &str, old: &str, new: &str) -> (r: (String, usize))
    ensures
        r.0@ == spec_replace(text@, old@, new@),
        r.1 as nat == spec_count(text@, old@),
{
    let tn = text.unicode_len();
    let on = old.unicode_len();
    if on == 0 {
        return (text.to_owned(), 0);
    }
    let mut out = String::new();
    let mut pos: usize = 0;
    let mut count: usize = 0;
    proof {
        assert(text@.skip(0) =~= text@);
    }
    loop
        invariant
            tn == text@.len(),
            on == old@.len(),
            on >= 1,
            0 <= pos <= tn,
            count <= pos,
            spec_replace(text@, old@, new@) == out@ + spec_replace(
                text@.skip(pos as int),
                old@,
                new@,
            ),
            spec_count(text@, old@) == count + spec_count(text@.skip(pos as int), old@),
        decreases tn - pos,
    {
        let rest = text.substring_char(pos, tn);
        proof {
            assert(rest@ =~= text@.skip(pos as int));
        }
        match find_pattern(rest, old) {
            None => {
                out.append(rest);
                proof {
                    assert(spec_replace(rest@, old@, new@) == rest@);
                    assert(spec_count(rest@, old@) == 0);
                }
                return (out, count);
            },
            Some(i) => {
                proof {
                    lemma_spec_find(rest@, old@);
                }
                let head = rest.substring_char(0, i);
                out.append(head);
                out.append(new);
                count = count + 1;
                let ghost old_pos = pos as int;
                pos = pos + i + on;
                proof {
                    assert(rest@.skip(i + on as int) =~= text@.skip(pos as int));
                    assert(spec_replace(rest@, old@, new@) == rest@.subrange(0, i as int) + new@
                        + spec_replace(text@.skip(pos as int), old@, new@));
                    assert(spec_count(rest@, old@) == 1 + spec_count(text@.skip(pos as int), old@));
                }
            },
        }
    }
}

/// A bare file name wrapped in one of the fixed context shapes the
/// manifest is known to use, as an index: 0 the bare name, 1..=3 reference
/// markers in several quoting styles, 4 and 5 directory-prefixed forms.
pub open spec fn spec_pattern(name: Seq<char>, k: int) -> Seq<char> {
    if k == 0 {
        name
    } else if k == 1 {
        "isRef=\"True\">"@ + name
    } else if k == 2 {
        "type=\"image\" isRef=\"True\">"@ + name
    } else if k == 3 {
        "isRef='True'>"@ + name
    } else if k == 4 {
        "Images/"@ + name
    } else {
        "isRef=\"True\">Images/"@ + name
    }
}

/// Pattern pairs for one record are enumerated by one index 0..54:
/// old-variant outermost, then new-variant, then context shape.
pub open spec fn spec_old_pattern(ob: Seq<char>, idx: int) -> Seq<char> {
    spec_pattern(spec_variant(ob, idx / 18), idx % 6)
}

pub open spec fn spec_new_pattern(nb: Seq<char>, idx: int) -> Seq<char> {
    spec_pattern(spec_variant(nb, (idx / 6) % 3), idx % 6)
}

/// One pattern pair is applied only when the two patterns differ.
pub open spec fn spec_apply_pair(t: Seq<char>, o: Seq<char>, n: Seq<char>) -> Seq<char> {
    if o == n {
        t
    } else {
        spec_replace(t, o, n)
    }
}

pub open spec fn spec_pair_count(t: Seq<char>, o: Seq<char>, n: Seq<char>) -> nat {
    if o == n {
        0
    } else {
        spec_count(t, o)
    }
}

/// The text after applying the pattern pairs `idx..54` of one record.
pub open spec fn spec_record_text_from(t: Seq<char>, ob: Seq<char>, nb: Seq<char>, idx: int) -> Seq<
    char,
>
    decreases 54 - idx,
{
    if idx < 0 || idx >= 54 {
        t
    } else {
        spec_record_text_from(
            spec_apply_pair(t, spec_old_pattern(ob, idx), spec_new_pattern(nb, idx)),
            ob,
            nb,
            idx + 1,
        )
    }
}

/// The replacements made by the pattern pairs `idx..54` of one record.
pub open spec fn spec_record_count_from(t: Seq<char>, ob: Seq<char>, nb: Seq<char>, idx: int) -> nat
    decreases 54 - idx,
{
    if idx < 0 || idx >= 54 {
        0
    } else {
        spec_pair_count(t, spec_old_pattern(ob, idx), spec_new_pattern(nb, idx))
            + spec_record_count_from(
            spec_apply_pair(t, spec_old_pattern(ob, idx), spec_new_pattern(nb, idx)),
            ob,
            nb,
            idx + 1,
        )
    }
}

/// The kind-directory prefix stripped from rename record paths.
pub open spec fn spec_strip_images(p: Seq<char>) -> Seq<char> {
    if starts_with(p, "Images/"@) {
        p.skip("Images/"@.len() as int)
    } else {
        p
    }
}

/// Strip the `Images/` directory prefix, when present, to obtain the bare
/// file name a manifest reference uses.
pub fn strip_images_prefix(path: &str) -> (r: String)
    ensures
        r@ == spec_strip_images(path@),
{
    let pre = "Images/";
    if str_starts_with(path, pre) {
        let n = path.unicode_len();
        let pl = pre.unicode_len();
        let r = path.substring_char(pl, n).to_owned();
        proof {
            assert(r@ =~= path@.skip(pre@.len() as int));
        }
        r
    } else {
        path.to_owned()
    }
}

/// The text after the first `i` rename records have been applied.
pub open spec fn spec_rewrite_text_upto(
    t0: Seq<char>,
    rs: Seq<(String, String)>,
    i: int,
) -> Seq<char>
    decreases i,
{
    if i <= 0 || i > rs.len() {
        t0
    } else {
        spec_record_text_from(
            spec_rewrite_text_upto(t0, rs, i - 1),
            spec_strip_images(rs[i - 1].0@),
            spec_strip_images(rs[i - 1].1@),
            0,
        )
    }
}

/// The patched manifest text for the whole registry.
pub open spec fn spec_rewrite_text(t0: Seq<char>, rs: Seq<(String, String)>) -> Seq<char> {
    spec_rewrite_text_upto(t0, rs, rs.len() as int)
}

/// The replacements contributed by record `i`, applied after its
/// predecessors.
pub open spec fn spec_record_tally(t0: Seq<char>, rs: Seq<(String, String)>, i: int) -> nat {
    spec_record_count_from(
        spec_rewrite_text_upto(t0, rs, i),
        spec_strip_images(rs[i].0@),
        spec_strip_images(rs[i].1@),
        0,
    )
}

pub open spec fn spec_rewrite_total_upto(t0: Seq<char>, rs: Seq<(String, String)>, i: int) -> nat
    decreases i,
{
    if i <= 0 || i > rs.len() {
        0
    } else {
        spec_rewrite_total_upto(t0, rs, i - 1) + spec_record_tally(t0, rs, i - 1)
    }
}

/// The total number of updated references over the whole registry.
pub open spec fn spec_rewrite_total(t0: Seq<char>, rs: Seq<(String, String)>) -> nat {
    spec_rewrite_total_upto(t0, rs, rs.len() as int)
}

/// `n` clamped to the range of `u64`.
pub open spec fn cap_u64(n: nat) -> u64 {
    if n <= u64::MAX {
        n as u64
    } else {
        u64::MAX
    }
}

fn build_pattern(name: &str, k: usize) -> (r: String)
    requires
        k < 6,
    ensures
        r@ == spec_pattern(name@, k as int),
{
    if k == 0 {
        name.to_owned()
    } else if k == 1 {
        String::from_str("isRef=\"True\">").concat(name)
    } else if k == 2 {
        String::from_str("type=\"image\" isRef=\"True\">").concat(name)
    } else if k == 3 {
        String::from_str("isRef='True'>").concat(name)
    } else if k == 4 {
        String::from_str("Images/").concat(name)
    } else {
        String::from_str("isRef=\"True\">Images/").concat(name)
    }
}

fn saturating_add_u64(a: u64, b: u64) -> (r: u64)
    ensures
        r as nat == (if a + b <= u64::MAX {
            (a + b) as nat
        } else {
            u64::MAX as nat
        }),
{
    if u64::MAX - a < b {
        u64::MAX
    } else {
        a + b
    }
}

/// Apply all 54 pattern pairs of one rename record to `text`, returning
/// the new text and the number of replacements, saturated at `u64::MAX`.
fn apply_record(text: String, old_bare: &str, new_bare: &str) -> (r: (String, u64))
    ensures
        r.0@ == spec_record_text_from(text@, old_bare@, new_bare@, 0),
        r.1 == cap_u64(spec_record_count_from(text@, old_bare@, new_bare@, 0)),
{
    let ghost t0 = text@;
    let old_vars = encoding_variants(old_bare);
    let new_vars = encoding_variants(new_bare);
    let mut t = text;
    let mut tally: u64 = 0;
    let ghost mut tally_g: nat = 0nat;
    let mut idx: usize = 0;
    while idx < 54
        invariant
            0 <= idx <= 54,
            old_vars@.len() == 3,
            new_vars@.len() == 3,
            forall|v: int| 0 <= v < 3 ==> old_vars@[v]@ == spec_variant(old_bare@, v),
            forall|v: int| 0 <= v < 3 ==> new_vars@[v]@ == spec_variant(new_bare@, v),
            spec_record_text_from(t0, old_bare@, new_bare@, 0) == spec_record_text_from(
                t@,
                old_bare@,
                new_bare@,
                idx as int,
            ),
            spec_record_count_from(t0, old_bare@, new_bare@, 0) == tally_g
                + spec_record_count_from(t@, old_bare@, new_bare@, idx as int),
            tally == cap_u64(tally_g),
        decreases 54 - idx,
    {
        let ov = idx / 18;
        let nv = (idx / 6) % 3;
        let k = idx % 6;
        let op = build_pattern(old_vars[ov].as_str(), k);
        let np = build_pattern(new_vars[nv].as_str(), k);
        proof {
            assert(op@ == spec_old_pattern(old_bare@, idx as int));
            assert(np@ == spec_new_pattern(new_bare@, idx as int));
        }
        if !str_eq(op.as_str(), np.as_str()) {
            let (t2, c) = replace_all(t.as_str(), op.as_str(), np.as_str());
            proof {
                assert(spec_apply_pair(t@, op@, np@) == t2@);
                assert(spec_pair_count(t@, op@, np@) == c as nat);
                tally_g = tally_g + c as nat;
            }
            t = t2;
            tally = saturating_add_u64(tally, c as u64);
        } else {
            proof {
                assert(spec_apply_pair(t@, op@, np@) == t@);
                assert(spec_pair_count(t@, op@, np@) == 0);
            }
        }
        idx = idx + 1;
    }
    (t, tally)
}

proof fn lemma_matches_in_prefix(t: Seq<char>, m: int, p: Seq<char>, j: int)
    requires
        0 <= m <= t.len(),
        matches_at(t.subrange(0, m), p, j),
    ensures
        matches_at(t, p, j),
{
    assert(t.subrange(j, j + p.len() as int) =~= t.subrange(0, m).subrange(
        j,
        j + p.len() as int,
    ));
}

proof fn lemma_matches_in_skip(t: Seq<char>, k: int, p: Seq<char>, j: int)
    requires
        0 <= k <= t.len(),
        matches_at(t.skip(k), p, j),
    ensures
        matches_at(t, p, j + k),
{
    assert(t.subrange(j + k, j + k + p.len() as int) =~= t.skip(k).subrange(
        j,
        j + p.len() as int,
    ));
}

/// Where a pattern can sit inside the concatenation `a + n + b`: wholly
/// inside one of the three parts, or straddling a boundary — in which case
/// a part of the pattern coincides with a prefix, a suffix, or the whole
/// of `n`.
proof fn lemma_occurrence_cases(a: Seq<char>, n: Seq<char>, b: Seq<char>, p: Seq<char>, j: int)
    requires
        p.len() >= 1,
        matches_at(a + n + b, p, j),
    ensures
        ({
            ||| (j + p.len() <= a.len() && matches_at(a, p, j))
            ||| (a.len() <= j && j + p.len() <= a.len() + n.len() && matches_at(n, p, j - a.len()))
            ||| (a.len() + n.len() <= j && matches_at(b, p, j - a.len() - n.len()))
            ||| (j < a.len() && a.len() < j + p.len() && j + p.len() <= a.len() + n.len()
                && p.subrange(p.len() - (j + p.len() - a.len()), p.len() as int) == n.subrange(
                0,
                j + p.len() - a.len(),
            ))
            ||| (a.len() <= j && j < a.len() + n.len() && a.len() + n.len() < j + p.len()
                && p.subrange(0, a.len() + n.len() - j) == n.subrange(j - a.len(), n.len() as int))
            ||| (j < a.len() && a.len() + n.len() < j + p.len() && p.subrange(
                a.len() - j,
                a.len() + n.len() - j,
            ) == n)
        }),
{
    let r = a + n + b;
    let pl = p.len() as int;
    let al = a.len() as int;
    let nl = n.len() as int;
    assert forall|m: int| 0 <= m < pl implies r[j + m] == p[m] by {
        assert(r.subrange(j, j + pl)[m] == p[m]);
    }
    if j + pl <= al {
        assert(a.subrange(j, j + pl) =~= p);
    } else if al <= j && j + pl <= al + nl {
        assert forall|m: int| 0 <= m < pl implies n[j - al + m] == p[m] by {
            assert(r[j + m] == n[j + m - al]);
        }
        assert(n.subrange(j - al, j - al + pl) =~= p);
    } else if al + nl <= j {
        assert forall|m: int| 0 <= m < pl implies b[j - al - nl + m] == p[m] by {
            assert(r[j + m] == b[j + m - al - nl]);
        }
        assert(b.subrange(j - al - nl, j - al - nl + pl) =~= p);
    } else if j < al && al < j + pl && j + pl <= al + nl {
        let k = j + pl - al;
        assert forall|m: int| 0 <= m < k implies p[pl - k + m] == n[m] by {
            assert(r[al + m] == n[m]);
            assert(r[j + (pl - k + m)] == p[pl - k + m]);
        }
        assert(p.subrange(pl - k, pl) =~= n.subrange(0, k));
    } else if al <= j && j < al + nl && al + nl < j + pl {
        let k = al + nl - j;
        assert forall|m: int| 0 <= m < k implies p[m] == n[j - al + m] by {
            assert(r[j + m] == n[j + m - al]);
        }
        assert(p.subrange(0, k) =~= n.subrange(j - al, nl));
    } else {
        assert(j < al && al + nl < j + pl);
        assert forall|m: int| 0 <= m < nl implies p[al - j + m] == n[m] by {
            assert(r[al + m] == n[m]);
            assert(r[j + (al - j + m)] == p[al - j + m]);
        }
        assert(p.subrange(al - j, al + nl - j) =~= n);
    }
}

/// `p` cannot appear across the boundary of an inserted copy of `n`: no
/// nonempty proper suffix of `p` is a prefix of `n`, no nonempty proper
/// prefix of `p` is a suffix of `n`, and `n` does not occur strictly
/// inside `p`. Ordinary file names renamed to a new extension satisfy
/// this for every context pattern.
pub open spec fn no_straddle(p: Seq<char>, n: Seq<char>) -> bool {
    &&& forall|k: int|
        0 < k < p.len() && k <= n.len() ==> p.subrange(p.len() - k, p.len() as int) != n.subrange(
            0,
            k,
        )
    &&& forall|k: int|
        0 < k < p.len() && k <= n.len() ==> p.subrange(0, k) != n.subrange(
            n.len() - k,
            n.len() as int,
        )
    &&& forall|m: int|
        0 < m && m + n.len() < p.len() ==> #[trigger] p.subrange(m, m + n.len() as int) != n
}

/// Replacing `o` by `n` leaves no occurrence of `p` behind, where `p` is
/// the replaced pattern itself or a pattern that did not occur before,
/// provided `p` does not occur in `n` and cannot straddle an insertion
/// boundary.
pub proof fn lemma_replace_no_occurrence(t: Seq<char>, o: Seq<char>, n: Seq<char>, p: Seq<char>)
    requires
        o.len() >= 1,
        p.len() >= 1,
        p == o || !occurs(t, p),
        !occurs(n, p),
        no_straddle(p, n),
    ensures
        !occurs(spec_replace(t, o, n), p),
    decreases t.len(),
{
    lemma_spec_find(t, o);
    let i = spec_find(t, o);
    if i >= 0 {
        let a = t.subrange(0, i);
        let b = t.skip(i + o.len() as int);
        if p != o {
            assert(!occurs(b, p)) by {
                if occurs(b, p) {
                    let j = choose|j: int| matches_at(b, p, j);
                    lemma_matches_in_skip(t, i + o.len() as int, p, j);
                }
            }
        }
        lemma_replace_no_occurrence(b, o, n, p);
        let rb = spec_replace(b, o, n);
        let r = spec_replace(t, o, n);
        assert(r == a + n + rb);
        assert forall|j: int| !matches_at(r, p, j) by {
            if matches_at(r, p, j) {
                lemma_occurrence_cases(a, n, rb, p, j);
                let pl = p.len() as int;
                let al = a.len() as int;
                let nl = n.len() as int;
                if j + pl <= al && matches_at(a, p, j) {
                    lemma_matches_in_prefix(t, i, p, j);
                    if p == o {
                        assert(j < i);
                        assert(!matches_at(t, o, j));
                    } else {
                        assert(occurs(t, p));
                    }
                } else if al <= j && j + pl <= al + nl && matches_at(n, p, j - al) {
                    assert(occurs(n, p));
                } else if al + nl <= j && matches_at(rb, p, j - al - nl) {
                    assert(occurs(rb, p));
                } else if j < al && al < j + pl && j + pl <= al + nl && p.subrange(
                    pl - (j + pl - al),
                    pl,
                ) == n.subrange(0, j + pl - al) {
                    let k = j + pl - al;
                    assert(0 < k < pl && k <= nl);
                    assert(p.subrange(pl - k, pl) != n.subrange(0, k));
                } else if al <= j && j < al + nl && al + nl < j + pl && p.subrange(0, al + nl - j)
                    == n.subrange(j - al, nl) {
                    let k = al + nl - j;
                    assert(0 < k < pl && k <= nl);
                    assert(p.subrange(0, k) != n.subrange(nl - k, nl));
                } else {
                    assert(j < al && al + nl < j + pl && p.subrange(al - j, al + nl - j) == n);
                    let m = al - j;
                    assert(0 < m && m + nl < pl);
                    assert(p.subrange(m, m + nl) != n);
                }
            }
        }
        assert(!occurs(r, p)) by {
            if occurs(r, p) {
                let j = choose|j: int| matches_at(r, p, j);
                assert(!matches_at(r, p, j));
            }
        }
    }
}

proof fn lemma_record_fixpoint_from(t: Seq<char>, ob: Seq<char>, nb: Seq<char>, idx: int)
    requires
        0 <= idx <= 54,
        forall|j: int|
            idx <= j < 54 ==> spec_old_pattern(ob, j) == spec_new_pattern(nb, j) || !occurs(
                t,
                spec_old_pattern(ob, j),
            ),
    ensures
        spec_record_text_from(t, ob, nb, idx) == t,
        spec_record_count_from(t, ob, nb, idx) == 0,
    decreases 54 - idx,
{
    if idx < 54 {
        let o = spec_old_pattern(ob, idx);
        let n = spec_new_pattern(nb, idx);
        if o != n {
            assert(!occurs(t, o));
            if o.len() == 0 {
                assert(t.subrange(0, 0) =~= o);
                assert(matches_at(t, o, 0));
            } else {
                lemma_replace_absent(t, o, n);
            }
        }
        assert(spec_apply_pair(t, o, n) == t);
        lemma_record_fixpoint_from(t, ob, nb, idx + 1);
    }
}

proof fn lemma_rewrite_fixpoint_upto(t: Seq<char>, rs: Seq<(String, String)>, i: int)
    requires
        0 <= i <= rs.len(),
        forall|ri: int, j: int|
            0 <= ri < rs.len() && 0 <= j < 54 ==> spec_old_pattern(
                spec_strip_images(rs[ri].0@),
                j,
            ) == spec_new_pattern(spec_strip_images(rs[ri].1@), j) || !occurs(
                t,
                spec_old_pattern(spec_strip_images(rs[ri].0@), j),
            ),
    ensures
        spec_rewrite_text_upto(t, rs, i) == t,
        spec_rewrite_total_upto(t, rs, i) == 0,
    decreases i,
{
    if i > 0 {
        lemma_rewrite_fixpoint_upto(t, rs, i - 1);
        lemma_record_fixpoint_from(
            t,
            spec_strip_images(rs[i - 1].0@),
            spec_strip_images(rs[i - 1].1@),
            0,
        );
    }
}

/// A text in which no old pattern of any record occurs — in particular the
/// rewriter's own output, whenever the first pass left no old pattern
/// behind — is rewritten to itself, with zero further replacements.
pub proof fn lemma_rewrite_fixpoint(t: Seq<char>, rs: Seq<(String, String)>)
    requires
        forall|ri: int, j: int|
            0 <= ri < rs.len() && 0 <= j < 54 ==> spec_old_pattern(
                spec_strip_images(rs[ri].0@),
                j,
            ) == spec_new_pattern(spec_strip_images(rs[ri].1@), j) || !occurs(
                t,
                spec_old_pattern(spec_strip_images(rs[ri].0@), j),
            ),
    ensures
        spec_rewrite_text(t, rs) == t,
        spec_rewrite_total(t, rs) == 0,
{
    lemma_rewrite_fixpoint_upto(t, rs, rs.len() as int);
}

proof fn lemma_record_preserves_absence(
    t: Seq<char>,
    ob: Seq<char>,
    nb: Seq<char>,
    idx: int,
    p: Seq<char>,
)
    requires
        0 <= idx <= 54,
        p.len() >= 1,
        !occurs(t, p),
        forall|j: int|
            idx <= j < 54 ==> spec_old_pattern(ob, j) == spec_new_pattern(nb, j) || (!occurs(
                spec_new_pattern(nb, j),
                p,
            ) && no_straddle(p, spec_new_pattern(nb, j))),
    ensures
        !occurs(spec_record_text_from(t, ob, nb, idx), p),
    decreases 54 - idx,
{
    if idx < 54 {
        let o = spec_old_pattern(ob, idx);
        let n = spec_new_pattern(nb, idx);
        let t1 = spec_apply_pair(t, o, n);
        if o != n {
            if o.len() == 0 {
                assert(t1 == t);
            } else {
                lemma_replace_no_occurrence(t, o, n, p);
            }
        }
        lemma_record_preserves_absence(t1, ob, nb, idx + 1, p);
    }
}

proof fn lemma_record_kills_old(t: Seq<char>, ob: Seq<char>, nb: Seq<char>, idx: int, i: int)
    requires
        0 <= idx <= i < 54,
        spec_old_pattern(ob, i) != spec_new_pattern(nb, i),
        spec_old_pattern(ob, i).len() >= 1,
        forall|j: int|
            idx <= j < 54 ==> spec_old_pattern(ob, j) == spec_new_pattern(nb, j) || (!occurs(
                spec_new_pattern(nb, j),
                spec_old_pattern(ob, i),
            ) && no_straddle(spec_old_pattern(ob, i), spec_new_pattern(nb, j))),
    ensures
        !occurs(spec_record_text_from(t, ob, nb, idx), spec_old_pattern(ob, i)),
    decreases 54 - idx,
{
    let o = spec_old_pattern(ob, idx);
    let n = spec_new_pattern(nb, idx);
    let t1 = spec_apply_pair(t, o, n);
    if idx == i {
        lemma_replace_no_occurrence(t, o, n, o);
        lemma_record_preserves_absence(t1, ob, nb, idx + 1, o);
    } else {
        lemma_record_kills_old(t1, ob, nb, idx + 1, i);
    }
}

pub open spec fn record_ob(rs: Seq<(String, String)>, r: int) -> Seq<char> {
    spec_strip_images(rs[r].0@)
}

pub open spec fn record_nb(rs: Seq<(String, String)>, r: int) -> Seq<char> {
    spec_strip_images(rs[r].1@)
}

/// Nothing any record inserts can contain `p` or recreate it across an
/// insertion boundary.
pub open spec fn safe_against(rs: Seq<(String, String)>, p: Seq<char>) -> bool {
    forall|r: int, j: int|
        0 <= r < rs.len() && 0 <= j < 54 ==> #[trigger] spec_old_pattern(record_ob(rs, r), j)
            == spec_new_pattern(record_nb(rs, r), j) || (!occurs(
            spec_new_pattern(record_nb(rs, r), j),
            p,
        ) && no_straddle(p, spec_new_pattern(record_nb(rs, r), j)))
}

/// No replacement any record makes can reintroduce any other record's
/// differing old pattern. This holds for ordinary renames — same stem,
/// extension changed to the target format — and fails only for contrived
/// names in which one pattern overlaps another across a boundary.
pub open spec fn records_no_reintroduction(rs: Seq<(String, String)>) -> bool {
    forall|r: int, i: int|
        0 <= r < rs.len() && 0 <= i < 54 && #[trigger] spec_old_pattern(record_ob(rs, r), i)
            != spec_new_pattern(record_nb(rs, r), i) ==> spec_old_pattern(record_ob(rs, r), i).len()
            >= 1 && safe_against(rs, spec_old_pattern(record_ob(rs, r), i))
}

proof fn lemma_rewrite_kills_from(
    t0: Seq<char>,
    rs: Seq<(String, String)>,
    r0: int,
    i0: int,
    m: int,
)
    requires
        0 <= r0 < rs.len(),
        0 <= i0 < 54,
        r0 < m <= rs.len(),
        spec_old_pattern(record_ob(rs, r0), i0) != spec_new_pattern(record_nb(rs, r0), i0),
        spec_old_pattern(record_ob(rs, r0), i0).len() >= 1,
        safe_against(rs, spec_old_pattern(record_ob(rs, r0), i0)),
    ensures
        !occurs(spec_rewrite_text_upto(t0, rs, m), spec_old_pattern(record_ob(rs, r0), i0)),
    decreases m,
{
    let p = spec_old_pattern(record_ob(rs, r0), i0);
    if m == r0 + 1 {
        lemma_record_kills_old(
            spec_rewrite_text_upto(t0, rs, r0),
            record_ob(rs, r0),
            record_nb(rs, r0),
            0,
            i0,
        );
    } else {
        lemma_rewrite_kills_from(t0, rs, r0, i0, m - 1);
        lemma_record_preserves_absence(
            spec_rewrite_text_upto(t0, rs, m - 1),
            record_ob(rs, m - 1),
            record_nb(rs, m - 1),
            0,
            p,
        );
    }
}

/// After the rewrite, no differing old pattern of any record occurs in
/// the patched text, provided nothing the rewrite inserts can recreate
/// one.
pub proof fn lemma_rewrite_removes_old_patterns(
    t0: Seq<char>,
    rs: Seq<(String, String)>,
    r: int,
    i: int,
)
    requires
        records_no_reintroduction(rs),
        0 <= r < rs.len(),
        0 <= i < 54,
        spec_old_pattern(record_ob(rs, r), i) != spec_new_pattern(record_nb(rs, r), i),
    ensures
        !occurs(spec_rewrite_text(t0, rs), spec_old_pattern(record_ob(rs, r), i)),
{
    lemma_rewrite_kills_from(t0, rs, r, i, rs.len() as int);
}

/// After the rewrite, a renamed entry's old bare file name no longer
/// follows the double-quoted reference marker anywhere in the patched
/// text (nor occurs at all: the bare-name pattern itself is also gone).
pub proof fn lemma_rewrite_clears_marker_references(
    t0: Seq<char>,
    rs: Seq<(String, String)>,
    r: int,
)
    requires
        records_no_reintroduction(rs),
        0 <= r < rs.len(),
        record_ob(rs, r) != record_nb(rs, r),
    ensures
        !occurs(spec_rewrite_text(t0, rs), "isRef=\"True\">"@ + record_ob(rs, r)),
{
    let ob = record_ob(rs, r);
    let nb = record_nb(rs, r);
    let mk = "isRef=\"True\">"@;
    assert(spec_old_pattern(ob, 1) == mk + ob);
    assert(spec_new_pattern(nb, 1) == mk + nb);
    assert(mk + ob != mk + nb) by {
        if mk + ob == mk + nb {
            assert((mk + ob).subrange(mk.len() as int, (mk + ob).len() as int) =~= ob);
            assert((mk + nb).subrange(mk.len() as int, (mk + nb).len() as int) =~= nb);
        }
    }
    lemma_rewrite_removes_old_patterns(t0, rs, r, 1);
}

/// Running the rewriter a second time on its own output with the same
/// records yields the same text and zero further replacements, provided
/// nothing the rewrite inserts can recreate an old pattern.
pub proof fn lemma_rewrite_idempotent(t0: Seq<char>, rs: Seq<(String, String)>)
    requires
        records_no_reintroduction(rs),
    ensures
        spec_rewrite_text(spec_rewrite_text(t0, rs), rs) == spec_rewrite_text(t0, rs),
        spec_rewrite_total(spec_rewrite_text(t0, rs), rs) == 0,
{
    let ft = spec_rewrite_text(t0, rs);
    assert forall|ri: int, idx: int| 0 <= ri < rs.len() && 0 <= idx < 54 implies spec_old_pattern(
        spec_strip_images(rs[ri].0@),
        idx,
    ) == spec_new_pattern(spec_strip_images(rs[ri].1@), idx) || !occurs(
        ft,
        spec_old_pattern(spec_strip_images(rs[ri].0@), idx),
    ) by {
        if spec_old_pattern(record_ob(rs, ri), idx) != spec_new_pattern(record_nb(rs, ri), idx) {
            lemma_rewrite_removes_old_patterns(t0, rs, ri, idx);
        }
    }
    lemma_rewrite_fixpoint(ft, rs);
}

/// The patched manifest and the per-record reference tallies.
pub struct RewriteResult {
    pub text: String,
    pub updated_refs: u64,
    pub record_tallies: Vec<u64>,
}

/// Rewrite every manifest reference that a rename record invalidated.
/// Records are applied in insertion order; within one record, every
/// old-variant / new-variant / context-shape combination whose two patterns
/// differ has all its occurrences replaced. A record whose tally is zero is
/// a reference-not-found warning for the caller; it never fails the run.
pub fn rewrite_references(manifest: &str, registry: &RenameRegistry) -> (r: RewriteResult)
    ensures
        r.text@ == spec_rewrite_text(manifest@, registry.entries@),
        r.record_tallies@.len() == registry.entries@.len(),
        forall|i: int|
            0 <= i < registry.entries@.len() ==> r.record_tallies@[i] == cap_u64(
                spec_record_tally(manifest@, registry.entries@, i),
            ),
        r.updated_refs == cap_u64(spec_rewrite_total(manifest@, registry.entries@)),
{
    let ghost rs = registry.entries@;
    let n = registry.len();
    let mut text = manifest.to_owned();
    let mut tallies: Vec<u64> = Vec::new();
    let mut total: u64 = 0;
    let ghost mut total_g: nat = 0nat;
    let mut i: usize = 0;
    while i < n
        invariant
            n == rs.len(),
            rs == registry.entries@,
            0 <= i <= n,
            text@ == spec_rewrite_text_upto(manifest@, rs, i as int),
            tallies@.len() == i,
            forall|j: int|
                0 <= j < i ==> tallies@[j] == cap_u64(spec_record_tally(manifest@, rs, j)),
            total_g == spec_rewrite_total_upto(manifest@, rs, i as int),
            total == cap_u64(total_g),
        decreases n - i,
    {
        let rec = registry.get(i);
        let old_bare = strip_images_prefix(rec.0.as_str());
        let new_bare = strip_images_prefix(rec.1.as_str());
        let (t2, tally) = apply_record(text, old_bare.as_str(), new_bare.as_str());
        text = t2;
        tallies.push(tally);
        total = saturating_add_u64(total, tally);
        proof {
            total_g = total_g + spec_record_tally(manifest@, rs, i as int);
        }
        i = i + 1;
        proof {
            assert(text@ == spec_rewrite_text_upto(manifest@, rs, i as int));
            assert(cap_u64(spec_record_tally(manifest@, rs, i - 1)) == tallies@[i - 1]);
        }
    }
    RewriteResult { text, updated_refs: total, record_tallies: tallies }
}

} // verus!
