//! Small verified text utilities: splitting into lines, trimming
//! whitespace, splitting into whitespace-delimited fields, and prefix
//! tests.  The diagnostic-report parser and the command-line splitter
//! are built on these.

use vstd::prelude::*;

verus! {

/// The whitespace characters recognized here: ASCII blank, tab,
/// carriage return and line feed.
pub open spec fn is_space(c: char) -> bool {
    c == ' ' || c == '\t' || c == '\r' || c == '\n'
}

fn char_is_space(c: char) -> (r: bool)
    ensures
        r == is_space(c),
{
    c == ' ' || c == '\t' || c == '\r' || c == '\n'
}

/// How many characters at the front of `s` satisfy `p`.
pub open spec fn count_while(s: Seq<char>, p: spec_fn(char) -> bool) -> int
    decreases s.len(),
{
    if s.len() == 0 || !p(s[0]) {
        0
    } else {
        1 + count_while(s.drop_first(), p)
    }
}

/// The front count lies within the sequence, every position below it
/// satisfies the predicate, and it is positive when the first
/// character qualifies.
pub proof fn lemma_count_while_positions(s: Seq<char>, p: spec_fn(char) -> bool)
    ensures
        0 <= count_while(s, p) <= s.len(),
        forall|i: int| 0 <= i < count_while(s, p) ==> p(s[i]),
        s.len() > 0 && p(s[0]) ==> count_while(s, p) >= 1,
    decreases s.len(),
{
    if s.len() == 0 || !p(s[0]) {
    } else {
        lemma_count_while_positions(s.drop_first(), p);
        assert forall|i: int| 0 <= i < count_while(s, p) implies p(s[i]) by {
            if i > 0 {
                assert(p(s.drop_first()[i - 1]));
            }
        }
    }
}

/// `count_while` is pinned down by any witness position: if the first
/// `k` characters satisfy `p` and position `k` (if any) does not, the
/// count is `k`.
pub proof fn lemma_count_while(s: Seq<char>, p: spec_fn(char) -> bool, k: int)
    requires
        0 <= k <= s.len(),
        forall|i: int| 0 <= i < k ==> p(s[i]),
        k == s.len() || !p(s[k]),
    ensures
        count_while(s, p) == k,
    decreases k,
{
    if k == 0 {
    } else {
        assert(p(s[0]));
        lemma_count_while(s.drop_first(), p, k - 1);
    }
}

/// How many characters at the back of `s` satisfy `p`.
pub open spec fn count_while_back(s: Seq<char>, p: spec_fn(char) -> bool) -> int
    decreases s.len(),
{
    if s.len() == 0 || !p(s.last()) {
        0
    } else {
        1 + count_while_back(s.drop_last(), p)
    }
}

/// The back count is pinned down by any witness position, counted
/// from the end.
pub proof fn lemma_count_while_back(s: Seq<char>, p: spec_fn(char) -> bool, k: int)
    requires
        0 <= k <= s.len(),
        forall|i: int| s.len() - k <= i < s.len() ==> p(s[i]),
        k == s.len() || !p(s[s.len() - k - 1]),
    ensures
        count_while_back(s, p) == k,
    decreases k,
{
    if k == 0 {
    } else {
        assert(p(s.last()));
        lemma_count_while_back(s.drop_last(), p, k - 1);
    }
}

/// `s` without leading and trailing whitespace.
pub open spec fn spec_trim(s: Seq<char>) -> Seq<char> {
    let rest = s.skip(count_while(s, |c: char| is_space(c)));
    rest.take(rest.len() - count_while_back(rest, |c: char| is_space(c)))
}

/// Copy of `s` without leading and trailing whitespace.
pub fn trim_str(s: &str) -> (r: String)
    ensures
        r@ == spec_trim(s@),
{
    let n = s.unicode_len();
    let mut lo: usize = 0;
    while lo < n && char_is_space(s.get_char(lo))
        invariant
            lo <= n,
            n == s@.len(),
            forall|i: int| 0 <= i < lo ==> is_space(s@[i]),
        decreases n - lo,
    {
        lo = lo + 1;
    }
    let mut hi: usize = n;
    while hi > lo && char_is_space(s.get_char(hi - 1))
        invariant
            lo <= hi <= n,
            n == s@.len(),
            forall|i: int| 0 <= i < lo ==> is_space(s@[i]),
            forall|i: int| hi <= i < n ==> is_space(s@[i]),
        decreases hi,
    {
        hi = hi - 1;
    }
    proof {
        let p = |c: char| is_space(c);
        lemma_count_while(s@, p, lo as int);
        let rest = s@.skip(lo as int);
        lemma_count_while_back(rest, p, n - hi);
        assert(spec_trim(s@) =~= s@.subrange(lo as int, hi as int));
    }
    let piece = s.substring_char(lo, hi);
    piece.to_owned()
}

/// Trimming leaves a sequence without edge whitespace unchanged.
pub proof fn lemma_trim_identity(s: Seq<char>)
    requires
        forall|i: int| 0 <= i < s.len() ==> !is_space(#[trigger] s[i]),
    ensures
        spec_trim(s) == s,
{
    let p = |c: char| is_space(c);
    lemma_count_while(s, p, 0);
    assert(s.skip(0) =~= s);
    lemma_count_while_back(s, p, 0);
    assert(s.take(s.len() as int) =~= s);
}

/// Does `s` start with `prefix`?
pub open spec fn spec_starts_with(s: Seq<char>, prefix: Seq<char>) -> bool {
    prefix.len() <= s.len() && s.take(prefix.len() as int) == prefix
}

/// Prefix test by characters.
pub fn str_starts_with(s: &str, prefix: &str) -> (r: bool)
    ensures
        r == spec_starts_with(s@, prefix@),
{
    let n = s.unicode_len();
    let m = prefix.unicode_len();
    if m > n {
        return false;
    }
    let mut j: usize = 0;
    while j < m
        invariant
            j <= m <= n,
            n == s@.len(),
            m == prefix@.len(),
            forall|i: int| 0 <= i < j ==> s@[i] == prefix@[i],
        decreases m - j,
    {
        if s.get_char(j) != prefix.get_char(j) {
            return false;
        }
        j = j + 1;
    }
    proof {
        assert(s@.take(m as int) =~= prefix@);
    }
    true
}

/// Character-for-character equality of two string slices.
pub fn str_eq(a: &str, b: &str) -> (r: bool)
    ensures
        r == (a@ == b@),
{
    let n = a.unicode_len();
    let m = b.unicode_len();
    if n != m {
        return false;
    }
    let mut j: usize = 0;
    while j < n
        invariant
            j <= n,
            n == a@.len(),
            n == b@.len(),
            forall|i: int| 0 <= i < j ==> a@[i] == b@[i],
        decreases n - j,
    {
        if a.get_char(j) != b.get_char(j) {
            return false;
        }
        j = j + 1;
    }
    proof {
        assert(a@ =~= b@);
    }
    true
}

/// The lines of `s`: maximal runs of characters between line feeds.
/// A final line feed ends the last line without starting a new one.
pub open spec fn spec_lines(s: Seq<char>) -> Seq<Seq<char>>
    decreases s.len(),
    via spec_lines_decreases
{
    if s.len() == 0 {
        Seq::empty()
    } else {
        let k = count_while(s, |c: char| c != '\n');
        if k == s.len() {
            seq![s.take(k)]
        } else {
            seq![s.take(k)] + spec_lines(s.skip(k + 1))
        }
    }
}

#[via_fn]
proof fn spec_lines_decreases(s: Seq<char>) {
    lemma_count_while_positions(s, |c: char| c != '\n');
}

/// Split `s` into its lines.
pub fn split_lines(s: &str) -> (r: Vec<String>)
    ensures
        r.deep_view() == spec_lines(s@),
{
    let n = s.unicode_len();
    let mut r: Vec<String> = Vec::new();
    proof {
        assert(s@.skip(0) =~= s@);
        assert(r.deep_view() + spec_lines(s@) =~= spec_lines(s@));
    }
    let mut i: usize = 0;
    while i < n
        invariant
            i <= n,
            n == s@.len(),
            spec_lines(s@) == r.deep_view() + spec_lines(s@.skip(i as int)),
        decreases n - i,
    {
        let ghost prev = r.deep_view();
        let mut j: usize = i;
        while j < n && s.get_char(j) != '\n'
            invariant
                i <= j <= n,
                n == s@.len(),
                forall|t: int| i <= t < j ==> s@[t] != '\n',
            decreases n - j,
        {
            j = j + 1;
        }
        let line = s.substring_char(i, j).to_owned();
        r.push(line);
        let next: usize = if j < n {
            j + 1
        } else {
            j
        };
        proof {
            let tail = s@.skip(i as int);
            let piece = s@.subrange(i as int, j as int);
            lemma_count_while(tail, |c: char| c != '\n', j - i);
            assert(tail.take(j - i) =~= piece);
            assert(r.deep_view() =~= prev + seq![piece]);
            if j < n {
                assert(tail.skip(j - i + 1) =~= s@.skip(next as int));
                assert(spec_lines(tail) == seq![piece] + spec_lines(s@.skip(next as int)));
            } else {
                assert(s@.skip(next as int) =~= Seq::<char>::empty());
                assert(spec_lines(tail) =~= seq![piece] + spec_lines(s@.skip(next as int)));
            }
            assert(prev + (seq![piece] + spec_lines(s@.skip(next as int))) =~= (prev + seq![piece])
                + spec_lines(s@.skip(next as int)));
        }
        i = next;
    }
    proof {
        assert(s@.skip(n as int) =~= Seq::<char>::empty());
        assert(r.deep_view() + spec_lines(s@.skip(n as int)) =~= r.deep_view());
    }
    r
}

/// The whitespace-delimited fields of `s`, in order.
pub open spec fn spec_fields(s: Seq<char>) -> Seq<Seq<char>>
    decreases s.len(),
    via spec_fields_decreases
{
    if s.len() == 0 {
        Seq::empty()
    } else if is_space(s[0]) {
        spec_fields(s.drop_first())
    } else {
        let k = count_while(s, |c: char| !is_space(c));
        seq![s.take(k)] + spec_fields(s.skip(k))
    }
}

#[via_fn]
proof fn spec_fields_decreases(s: Seq<char>) {
    lemma_count_while_positions(s, |c: char| !is_space(c));
}

/// Split `s` into its whitespace-delimited fields.
pub fn split_fields(s: &str) -> (r: Vec<String>)
    ensures
        r.deep_view() == spec_fields(s@),
{
    let n = s.unicode_len();
    let mut r: Vec<String> = Vec::new();
    proof {
        assert(s@.skip(0) =~= s@);
        assert(r.deep_view() + spec_fields(s@) =~= spec_fields(s@));
    }
    let mut i: usize = 0;
    while i < n
        invariant
            i <= n,
            n == s@.len(),
            spec_fields(s@) == r.deep_view() + spec_fields(s@.skip(i as int)),
        decreases n - i,
    {
        if char_is_space(s.get_char(i)) {
            proof {
                assert(s@.skip(i as int).drop_first() =~= s@.skip(i + 1));
            }
            i = i + 1;
        } else {
            let ghost prev = r.deep_view();
            let mut j: usize = i + 1;
            while j < n && !char_is_space(s.get_char(j))
                invariant
                    i < j <= n,
                    n == s@.len(),
                    forall|t: int| i <= t < j ==> !is_space(s@[t]),
                decreases n - j,
            {
                j = j + 1;
            }
            let field = s.substring_char(i, j).to_owned();
            r.push(field);
            proof {
                let tail = s@.skip(i as int);
                let piece = s@.subrange(i as int, j as int);
                lemma_count_while(tail, |c: char| !is_space(c), j - i);
                assert(tail.take(j - i) =~= piece);
                assert(tail.skip(j - i) =~= s@.skip(j as int));
                assert(spec_fields(tail) == seq![piece] + spec_fields(s@.skip(j as int)));
                assert(r.deep_view() =~= prev + seq![piece]);
                assert(prev + (seq![piece] + spec_fields(s@.skip(j as int))) =~= (prev
                    + seq![piece]) + spec_fields(s@.skip(j as int)));
            }
            i = j;
        }
    }
    proof {
        assert(s@.skip(n as int) =~= Seq::<char>::empty());
        assert(r.deep_view() + spec_fields(s@.skip(n as int)) =~= r.deep_view());
    }
    r
}

} // verus!
