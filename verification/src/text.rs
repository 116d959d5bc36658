use vstd::prelude::*;

verus! {

/// Characters with the Unicode `White_Space` property, the set that
/// `char::is_whitespace` (and therefore `str::trim`) recognises.
pub open spec fn is_ws_spec(c: char) -> bool {
    ||| c == '\t'
    ||| c == '\n'
    ||| c == '\u{0B}'
    ||| c == '\u{0C}'
    ||| c == '\r'
    ||| c == ' '
    ||| c == '\u{85}'
    ||| c == '\u{A0}'
    ||| c == '\u{1680}'
    ||| ('\u{2000}' <= c && c <= '\u{200A}')
    ||| c == '\u{2028}'
    ||| c == '\u{2029}'
    ||| c == '\u{202F}'
    ||| c == '\u{205F}'
    ||| c == '\u{3000}'
}

pub fn is_ws(c: char) -> (b: bool)
    ensures
        b == is_ws_spec(c),
{
    c == '\t' || c == '\n' || c == '\u{0B}' || c == '\u{0C}' || c == '\r' || c == ' '
        || c == '\u{85}' || c == '\u{A0}' || c == '\u{1680}' || ('\u{2000}' <= c && c
        <= '\u{200A}') || c == '\u{2028}' || c == '\u{2029}' || c == '\u{202F}' || c
        == '\u{205F}' || c == '\u{3000}'
}

/// ASCII lower-casing of one character; every other character is kept.
pub open spec fn ascii_lower_spec(c: char) -> char {
    if 'A' <= c && c <= 'Z' {
        ((c as u32) + 32) as char
    } else {
        c
    }
}

pub fn ascii_lower(c: char) -> (r: char)
    ensures
        r == ascii_lower_spec(c),
{
    if 'A' <= c && c <= 'Z' {
        let code: u8 = (c as u8) + 32;
        code as char
    } else {
        c
    }
}

/// The characters of a string slice, in order.
pub fn chars_of(s: &str) -> (v: Vec<char>)
    ensures
        v@ == s@,
{
    let n = s.unicode_len();
    let mut v: Vec<char> = Vec::new();
    let mut i: usize = 0;
    while i < n
        invariant
            n == s@.len(),
            i <= n,
            v@ == s@.subrange(0, i as int),
        decreases n - i,
    {
        let c = s.get_char(i);
        v.push(c);
        i = i + 1;
    }
    v
}

/// Appends one character to a `String` by calling std's `String::push`.
/// Trusted: the contract claims, as std documents, that afterwards the
/// string holds its old characters followed by `c`.
#[verifier::external_body]
fn push_char(s: &mut String, c: char)
    ensures
        final(s)@ == old(s)@.push(c),
{
    s.push(c);
}

/// A `String` holding exactly the given characters.
pub fn string_from_chars(v: &[char]) -> (s: String)
    ensures
        s@ == v@,
{
    let mut s = String::new();
    let mut i: usize = 0;
    while i < v.len()
        invariant
            i <= v@.len(),
            s@ == v@.subrange(0, i as int),
        decreases v@.len() - i,
    {
        push_char(&mut s, v[i]);
        i = i + 1;
    }
    s
}

} // verus!

verus! {

/// Index of the first non-whitespace character at or after `i` (or the length).
pub open spec fn first_non_ws(s: Seq<char>, i: int) -> int
    decreases s.len() - i,
{
    if i >= s.len() {
        s.len() as int
    } else if !is_ws_spec(s[i]) {
        i
    } else {
        first_non_ws(s, i + 1)
    }
}

/// End (exclusive) of the text once trailing whitespace after `lo` is dropped,
/// scanning backwards from `j`.
pub open spec fn trimmed_end(s: Seq<char>, lo: int, j: int) -> int
    decreases j - lo,
{
    if j <= lo {
        lo
    } else if !is_ws_spec(s[j - 1]) {
        j
    } else {
        trimmed_end(s, lo, j - 1)
    }
}

/// `s` without leading and trailing whitespace (`str::trim`).
pub open spec fn trim_spec(s: Seq<char>) -> Seq<char> {
    let a = first_non_ws(s, 0);
    s.subrange(a, trimmed_end(s, a, s.len() as int))
}

pub proof fn lemma_first_non_ws_bounds(s: Seq<char>, i: int)
    requires
        0 <= i <= s.len(),
    ensures
        i <= first_non_ws(s, i) <= s.len(),
        forall|k: int| i <= k < first_non_ws(s, i) ==> is_ws_spec(#[trigger] s[k]),
        first_non_ws(s, i) < s.len() ==> !is_ws_spec(s[first_non_ws(s, i)]),
    decreases s.len() - i,
{
    if i < s.len() && is_ws_spec(s[i]) {
        lemma_first_non_ws_bounds(s, i + 1);
    }
}

pub proof fn lemma_trimmed_end_bounds(s: Seq<char>, lo: int, j: int)
    requires
        0 <= lo <= j <= s.len(),
    ensures
        lo <= trimmed_end(s, lo, j) <= j,
        forall|k: int| trimmed_end(s, lo, j) <= k < j ==> is_ws_spec(#[trigger] s[k]),
        trimmed_end(s, lo, j) > lo ==> !is_ws_spec(s[trimmed_end(s, lo, j) - 1]),
    decreases j - lo,
{
    if j > lo && is_ws_spec(s[j - 1]) {
        lemma_trimmed_end_bounds(s, lo, j - 1);
    }
}

/// Text that neither starts nor ends with whitespace is its own trim.
pub proof fn lemma_trim_of_trimmed(s: Seq<char>)
    requires
        s.len() > 0 ==> !is_ws_spec(s[0]) && !is_ws_spec(s[s.len() - 1]),
    ensures
        trim_spec(s) == s,
{
    if s.len() > 0 {
        assert(first_non_ws(s, 0) == 0);
        assert(trimmed_end(s, 0, s.len() as int) == s.len());
    }
    assert(s.subrange(0, s.len() as int) =~= s);
}

/// Trimming twice is trimming once.
pub proof fn lemma_trim_idempotent(x: Seq<char>)
    ensures
        trim_spec(trim_spec(x)) == trim_spec(x),
{
    let a = first_non_ws(x, 0);
    lemma_first_non_ws_bounds(x, 0);
    lemma_trimmed_end_bounds(x, a, x.len() as int);
    let t = trim_spec(x);
    if t.len() > 0 {
        assert(t[0] == x[a]);
        assert(t[t.len() - 1] == x[trimmed_end(x, a, x.len() as int) - 1]);
    }
    lemma_trim_of_trimmed(t);
}

/// `v` with leading and trailing whitespace removed.
pub fn trim_chars(v: &[char]) -> (r: Vec<char>)
    ensures
        r@ == trim_spec(v@),
{
    let n = v.len();
    let mut a: usize = 0;
    while a < n && is_ws(v[a])
        invariant
            n == v@.len(),
            a <= n,
            first_non_ws(v@, 0) == first_non_ws(v@, a as int),
        decreases n - a,
    {
        a = a + 1;
    }
    proof {
        lemma_first_non_ws_bounds(v@, a as int);
    }
    let mut e: usize = n;
    while e > a && is_ws(v[e - 1])
        invariant
            n == v@.len(),
            a <= e <= n,
            first_non_ws(v@, 0) == a,
            trimmed_end(v@, a as int, n as int) == trimmed_end(v@, a as int, e as int),
        decreases e,
    {
        e = e - 1;
    }
    let mut r: Vec<char> = Vec::new();
    let mut k: usize = a;
    while k < e
        invariant
            n == v@.len(),
            a <= k <= e <= n,
            r@ == v@.subrange(a as int, k as int),
        decreases e - k,
    {
        r.push(v[k]);
        k = k + 1;
    }
    r
}

/// Whether `s` begins with `prefix`.
pub open spec fn starts_with_spec(s: Seq<char>, prefix: Seq<char>) -> bool {
    prefix.len() <= s.len() && s.subrange(0, prefix.len() as int) == prefix
}

/// Whether `pat` occurs in `s` starting at index `i`.
pub open spec fn occurs_at(s: Seq<char>, pat: Seq<char>, i: int) -> bool {
    0 <= i && i + pat.len() <= s.len() && s.subrange(i, i + pat.len()) == pat
}

/// Whether `pat` occurs somewhere in `s`.
pub open spec fn contains_text(s: Seq<char>, pat: Seq<char>) -> bool {
    exists|i: int| occurs_at(s, pat, i)
}

pub fn occurs_at_exec(s: &[char], pat: &[char], i: usize) -> (b: bool)
    ensures
        b == occurs_at(s@, pat@, i as int),
{
    if pat.len() > s.len() || i > s.len() - pat.len() {
        return false;
    }
    let mut k: usize = 0;
    while k < pat.len()
        invariant
            i + pat@.len() <= s@.len(),
            s@.len() == s.len(),
            pat@.len() == pat.len(),
            k <= pat@.len(),
            forall|t: int| 0 <= t < k ==> s@[i + t] == pat@[t],
        decreases pat@.len() - k,
    {
        if s[i + k] != pat[k] {
            assert(s@.subrange(i as int, i + pat@.len())[k as int] != pat@[k as int]);
            return false;
        }
        k = k + 1;
    }
    assert(s@.subrange(i as int, i + pat@.len()) =~= pat@);
    true
}

/// Sequence equality of two character vectors.
pub fn chars_eq(a: &[char], b: &[char]) -> (r: bool)
    ensures
        r == (a@ == b@),
{
    if a.len() != b.len() {
        return false;
    }
    let r = occurs_at_exec(a, b, 0);
    proof {
        if r {
            assert(a@.subrange(0, b@.len() as int) =~= a@);
        } else {
            assert(a@ != b@) by {
                if a@ == b@ {
                    assert(a@.subrange(0, b@.len() as int) =~= a@);
                }
            }
        }
    }
    r
}

/// Left-to-right replacement of every non-overlapping occurrence of `pat` by
/// `rep` (`str::replace`, for a non-empty pattern).
pub open spec fn replace_all_spec(s: Seq<char>, pat: Seq<char>, rep: Seq<char>) -> Seq<char>
    decreases s.len(),
{
    if s.len() == 0 {
        Seq::empty()
    } else if pat.len() > 0 && occurs_at(s, pat, 0) {
        rep + replace_all_spec(s.skip(pat.len() as int), pat, rep)
    } else {
        seq![s[0]] + replace_all_spec(s.skip(1), pat, rep)
    }
}

/// Where the pattern occurs, its replacement shows up in the result.
pub proof fn lemma_replace_shows_replacement(s: Seq<char>, pat: Seq<char>, rep: Seq<char>, i: int)
    requires
        pat.len() > 0,
        occurs_at(s, pat, i),
    ensures
        contains_text(replace_all_spec(s, pat, rep), rep),
    decreases s.len(),
{
    let r = replace_all_spec(s, pat, rep);
    if occurs_at(s, pat, 0) {
        assert(r == rep + replace_all_spec(s.skip(pat.len() as int), pat, rep));
        assert(r.subrange(0, rep.len() as int) =~= rep);
        assert(occurs_at(r, rep, 0));
    } else {
        let t = s.skip(1);
        let rt = replace_all_spec(t, pat, rep);
        assert(r == seq![s[0]] + rt);
        assert(t.subrange(i - 1, i - 1 + pat.len()) =~= s.subrange(i, i + pat.len()));
        lemma_replace_shows_replacement(t, pat, rep, i - 1);
        let j = choose|j: int| occurs_at(rt, rep, j);
        assert(r.subrange(j + 1, j + 1 + rep.len()) =~= rt.subrange(j, j + rep.len()));
        assert(occurs_at(r, rep, j + 1));
    }
}

/// Two patterns that can never overlap in any text: they cannot start at the
/// same place, and neither can start strictly inside the other.
pub open spec fn never_overlap(q: Seq<char>, pat: Seq<char>) -> bool {
    &&& q.len() > 0
    &&& pat.len() > 0
    &&& q[0] == pat[0] ==> (q.len() >= 2 && pat.len() >= 2 && q[1] != pat[1])
    &&& forall|d: int| 1 <= d < pat.len() ==> #[trigger] pat[d] != q[0]
    &&& forall|d: int| 1 <= d < q.len() ==> #[trigger] q[d] != pat[0]
}

proof fn lemma_occurs_skip(s: Seq<char>, pat: Seq<char>, p: int, k: int)
    requires
        0 <= k <= s.len(),
        occurs_at(s.skip(k), pat, p),
    ensures
        occurs_at(s, pat, p + k),
{
    assert(s.subrange(p + k, p + k + pat.len()) =~= s.skip(k).subrange(p, p + pat.len()));
}

/// Where no occurrence of the pattern starts among the first `k` characters,
/// replacing leaves those characters as they are.
proof fn lemma_replace_keeps_prefix(s: Seq<char>, pat: Seq<char>, rep: Seq<char>, k: int)
    requires
        pat.len() > 0,
        0 <= k <= s.len(),
        forall|p: int| 0 <= p < k ==> !occurs_at(s, pat, p),
    ensures
        replace_all_spec(s, pat, rep).len() >= k,
        replace_all_spec(s, pat, rep).subrange(0, k) == s.subrange(0, k),
    decreases k,
{
    let r = replace_all_spec(s, pat, rep);
    if k > 0 {
        let t = s.skip(1);
        assert(!occurs_at(s, pat, 0));
        assert(r == seq![s[0]] + replace_all_spec(t, pat, rep));
        assert forall|p: int| 0 <= p < k - 1 implies !occurs_at(t, pat, p) by {
            if occurs_at(t, pat, p) {
                lemma_occurs_skip(s, pat, p, 1);
            }
        }
        lemma_replace_keeps_prefix(t, pat, rep, k - 1);
        let rt = replace_all_spec(t, pat, rep);
        assert forall|x: int| 0 <= x < k implies r[x] == s[x] by {
            if x > 0 {
                assert(rt.subrange(0, k - 1)[x - 1] == t.subrange(0, k - 1)[x - 1]);
            }
        }
        assert(r.subrange(0, k) =~= s.subrange(0, k));
    } else {
        assert(r.subrange(0, 0) =~= s.subrange(0, 0));
    }
}

/// Replacing a pattern keeps every occurrence of a text it can never overlap.
#[verifier::rlimit(50)]
#[verifier::spinoff_prover]
pub proof fn lemma_replace_keeps_other(s: Seq<char>, pat: Seq<char>, rep: Seq<char>, q: Seq<char>, i: int)
    requires
        never_overlap(q, pat),
        occurs_at(s, q, i),
    ensures
        contains_text(replace_all_spec(s, pat, rep), q),
    decreases s.len(),
{
    let r = replace_all_spec(s, pat, rep);
    if occurs_at(s, pat, 0) {
        if i < pat.len() {
            if i == 0 {
                assert(s[0] == q[0] && s[0] == pat[0]);
                assert(s[1] == q[1] && s[1] == pat[1]);
            } else {
                assert(s[i] == q[0] && s[i] == pat[i]);
            }
        }
        let t = s.skip(pat.len() as int);
        let rt = replace_all_spec(t, pat, rep);
        assert(r == rep + rt);
        assert(t.subrange(i - pat.len(), i - pat.len() + q.len()) =~= s.subrange(i, i + q.len()));
        lemma_replace_keeps_other(t, pat, rep, q, i - pat.len());
        let j = choose|j: int| occurs_at(rt, q, j);
        assert(r.subrange(rep.len() + j, rep.len() + j + q.len()) =~= rt.subrange(j, j + q.len()));
        assert(occurs_at(r, q, rep.len() + j));
    } else if i == 0 {
        assert forall|p: int| 0 <= p < q.len() implies !occurs_at(s, pat, p) by {
            if p > 0 && occurs_at(s, pat, p) {
                assert(s[p] == pat[0] && s[p] == q[p]);
            }
        }
        lemma_replace_keeps_prefix(s, pat, rep, q.len() as int);
        assert(r.subrange(0, q.len() as int) =~= q);
        assert(occurs_at(r, q, 0));
    } else {
        let t = s.skip(1);
        let rt = replace_all_spec(t, pat, rep);
        assert(r == seq![s[0]] + rt);
        assert(t.subrange(i - 1, i - 1 + q.len()) =~= s.subrange(i, i + q.len()));
        lemma_replace_keeps_other(t, pat, rep, q, i - 1);
        let j = choose|j: int| occurs_at(rt, q, j);
        assert(r.subrange(j + 1, j + 1 + q.len()) =~= rt.subrange(j, j + q.len()));
        assert(occurs_at(r, q, j + 1));
    }
}

/// Replaces each non-overlapping occurrence of `pat` in `s`, scanning left to right.
pub fn replace_all(s: &[char], pat: &[char], rep: &[char]) -> (r: Vec<char>)
    requires
        pat@.len() > 0,
    ensures
        r@ == replace_all_spec(s@, pat@, rep@),
{
    let n = s.len();
    let m = pat.len();
    let mut out: Vec<char> = Vec::new();
    let mut i: usize = 0;
    assert(s@.skip(0) =~= s@);
    while i < n
        invariant
            n == s@.len(),
            m == pat@.len(),
            m > 0,
            i <= n,
            replace_all_spec(s@, pat@, rep@) == out@ + replace_all_spec(s@.skip(i as int), pat@, rep@),
        decreases n - i,
    {
        let ghost rest = s@.skip(i as int);
        if occurs_at_exec(s, pat, i) {
            proof {
                assert(rest.subrange(0, m as int) =~= s@.subrange(i as int, i + m));
                assert(occurs_at(rest, pat@, 0));
                assert(rest.skip(m as int) =~= s@.skip(i + m));
            }
            let mut k: usize = 0;
            let ghost out0 = out@;
            while k < rep.len()
                invariant
                    k <= rep@.len(),
                    out@ == out0 + rep@.subrange(0, k as int),
                decreases rep@.len() - k,
            {
                out.push(rep[k]);
                k = k + 1;
            }
            proof {
                assert(rep@.subrange(0, rep@.len() as int) =~= rep@);
                assert(out0 + (rep@ + replace_all_spec(s@.skip(i + m), pat@, rep@)) =~= out@
                    + replace_all_spec(s@.skip(i + m), pat@, rep@));
            }
            i = i + m;
        } else {
            proof {
                if occurs_at(rest, pat@, 0) {
                    assert(rest.subrange(0, m as int) =~= s@.subrange(i as int, i + m));
                }
                assert(rest.skip(1) =~= s@.skip(i + 1));
                assert(out@ + (seq![s@[i as int]] + replace_all_spec(s@.skip(i + 1), pat@, rep@))
                    =~= out@.push(s@[i as int]) + replace_all_spec(s@.skip(i + 1), pat@, rep@));
            }
            out.push(s[i]);
            i = i + 1;
        }
    }
    proof {
        assert(s@.skip(n as int) =~= Seq::<char>::empty());
        assert(out@ + Seq::<char>::empty() =~= out@);
    }
    out
}

/// The decimal digit character for `d < 10`.
pub open spec fn digit_char(d: nat) -> char {
    ((48 + d) as u32) as char
}

/// Decimal rendering of a natural number, without sign or leading zeros.
pub open spec fn decimal_spec(n: nat) -> Seq<char>
    decreases n,
{
    if n < 10 {
        seq![digit_char(n)]
    } else {
        decimal_spec(n / 10).push(digit_char(n % 10))
    }
}

/// Decimal renderings are non-empty and made of the digits 0 to 9.
pub proof fn lemma_decimal_digits(n: nat)
    ensures
        decimal_spec(n).len() > 0,
        forall|k: int| 0 <= k < decimal_spec(n).len() ==> '0' <= #[trigger] decimal_spec(n)[k] <= '9',
    decreases n,
{
    if n >= 10 {
        lemma_decimal_digits(n / 10);
    }
}

/// Decimal digits of `n` (`u64::to_string`).
pub fn decimal_chars(n: u64) -> (r: Vec<char>)
    ensures
        r@ == decimal_spec(n as nat),
    decreases n,
{
    let d: u8 = (n % 10) as u8;
    let c: char = (48u8 + d) as char;
    if n < 10 {
        let mut v: Vec<char> = Vec::new();
        v.push(c);
        v
    } else {
        let mut v = decimal_chars(n / 10);
        v.push(c);
        v
    }
}

} // verus!
