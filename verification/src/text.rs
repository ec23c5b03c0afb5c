//! Verified text primitives shared by the tool engine: substring search,
//! occurrence counting, leftmost non-overlapping replacement, line splitting
//! and decimal formatting.

use vstd::prelude::*;

verus! {

/// `pat` occurs in `s` at position `i`.
pub open spec fn occurs_at(s: Seq<char>, pat: Seq<char>, i: int) -> bool {
    0 <= i && i + pat.len() <= s.len() && s.subrange(i, i + pat.len() as int) == pat
}

/// `pat` occurs somewhere in `s`.
pub open spec fn contains_seq(s: Seq<char>, pat: Seq<char>) -> bool {
    exists|i: int| occurs_at(s, pat, i)
}

/// Number of occurrences of `pat` in `s` at positions `from` and later,
/// counted by a leftmost non-overlapping scan.
pub open spec fn spec_count_from(s: Seq<char>, pat: Seq<char>, from: int) -> nat
    decreases s.len() + 1 - from,
{
    if pat.len() == 0 || from < 0 || from + pat.len() > s.len() {
        0
    } else if occurs_at(s, pat, from) {
        1 + spec_count_from(s, pat, from + pat.len())
    } else {
        spec_count_from(s, pat, from + 1)
    }
}

/// Number of leftmost non-overlapping occurrences of `pat` in `s`.
/// An empty `pat` counts as occurring zero times.
pub open spec fn spec_count(s: Seq<char>, pat: Seq<char>) -> nat {
    spec_count_from(s, pat, 0)
}

/// `s` with every occurrence found by the leftmost non-overlapping scan from
/// position `from` onward replaced by `new`.
pub open spec fn spec_replace_from(s: Seq<char>, pat: Seq<char>, new: Seq<char>, from: int) -> Seq<
    char,
>
    decreases s.len() + 1 - from,
{
    if pat.len() == 0 || from < 0 || from > s.len() {
        Seq::empty()
    } else if from + pat.len() > s.len() {
        s.subrange(from, s.len() as int)
    } else if occurs_at(s, pat, from) {
        new + spec_replace_from(s, pat, new, from + pat.len())
    } else {
        seq![s[from]] + spec_replace_from(s, pat, new, from + 1)
    }
}

/// `s` with every leftmost non-overlapping occurrence of `pat` replaced by
/// `new`.
pub open spec fn spec_replace(s: Seq<char>, pat: Seq<char>, new: Seq<char>) -> Seq<char> {
    spec_replace_from(s, pat, new, 0)
}

/// Whether `pat` occurs in `s` at position `i`, decided by comparing
/// characters.
pub fn match_at(s: &str, pat: &str, i: usize) -> (b: bool)
    requires
        i + pat@.len() <= s@.len(),
        s@.len() <= usize::MAX,
    ensures
        b == occurs_at(s@, pat@, i as int),
{
    let plen = pat.unicode_len();
    let mut j: usize = 0;
    while j < plen
        invariant
            j <= plen,
            plen == pat@.len(),
            i + plen <= s@.len() <= usize::MAX,
            forall|k: int| 0 <= k < j ==> s@[i + k] == pat@[k],
        decreases plen - j,
    {
        if s.get_char(i + j) != pat.get_char(j) {
            assert(s@.subrange(i as int, i + plen as int)[j as int] != pat@[j as int]);
            return false;
        }
        j += 1;
    }
    assert(s@.subrange(i as int, i + plen as int) =~= pat@);
    true
}

/// Count the leftmost non-overlapping occurrences of `pat` in `s`.
pub fn count_occurrences(s: &str, pat: &str) -> (n: usize)
    requires
        pat@.len() >= 1,
    ensures
        n == spec_count(s@, pat@),
{
    let slen = s.unicode_len();
    let plen = pat.unicode_len();
    if plen > slen {
        return 0;
    }
    let mut n: usize = 0;
    let mut i: usize = 0;
    while i <= slen - plen
        invariant
            slen == s@.len(),
            plen == pat@.len(),
            1 <= plen <= slen,
            n + spec_count_from(s@, pat@, i as int) == spec_count(s@, pat@),
            n <= i <= slen,
        decreases slen - i,
    {
        if match_at(s, pat, i) {
            n += 1;
            i += plen;
        } else {
            i += 1;
        }
    }
    n
}

/// Replace every leftmost non-overlapping occurrence of `pat` in `s` by
/// `new`.
pub fn replace_all(s: &str, pat: &str, new: &str) -> (r: String)
    requires
        pat@.len() >= 1,
    ensures
        r@ == spec_replace(s@, pat@, new@),
{
    let slen = s.unicode_len();
    let plen = pat.unicode_len();
    let mut r = String::new();
    let mut i: usize = 0;
    if plen <= slen {
        while i <= slen - plen
            invariant
                slen == s@.len(),
                plen == pat@.len(),
                1 <= plen <= slen,
                i <= slen,
                r@ + spec_replace_from(s@, pat@, new@, i as int) == spec_replace(s@, pat@, new@),
            decreases slen - i,
        {
            if match_at(s, pat, i) {
                r.append(new);
                i += plen;
            } else {
                let c = s.substring_char(i, i + 1);
                proof {
                    assert(c@ =~= seq![s@[i as int]]);
                }
                r.append(c);
                i += 1;
            }
        }
    }
    let tail = s.substring_char(i, slen);
    r.append(tail);
    r
}

/// Find the least position `>= from` at which `pat` occurs in `s`.
pub fn find_from(s: &str, pat: &str, from: usize) -> (r: Option<usize>)
    requires
        pat@.len() >= 1,
    ensures
        match r {
            Some(i) => from <= i && occurs_at(s@, pat@, i as int) && forall|j: int|
                from <= j < i ==> !occurs_at(s@, pat@, j),
            None => forall|j: int| from <= j ==> !occurs_at(s@, pat@, j),
        },
{
    let slen = s.unicode_len();
    let plen = pat.unicode_len();
    if plen > slen || from > slen - plen {
        assert(forall|j: int| from <= j ==> !occurs_at(s@, pat@, j));
        return None;
    }
    let mut i: usize = from;
    while i <= slen - plen
        invariant
            slen == s@.len(),
            plen == pat@.len(),
            1 <= plen <= slen,
            from <= i <= slen,
            forall|j: int| from <= j < i ==> !occurs_at(s@, pat@, j),
        decreases slen - i,
    {
        if match_at(s, pat, i) {
            return Some(i);
        }
        i += 1;
    }
    assert(forall|j: int| i <= j ==> !occurs_at(s@, pat@, j));
    None
}

/// The least position `>= from` at which `pat` occurs in `s`, or `-1` if
/// there is none.
pub open spec fn spec_find_from(s: Seq<char>, pat: Seq<char>, from: int) -> int
    decreases s.len() + 1 - from,
{
    if pat.len() == 0 || from < 0 || from + pat.len() > s.len() {
        -1
    } else if occurs_at(s, pat, from) {
        from
    } else {
        spec_find_from(s, pat, from + 1)
    }
}

/// The least position at which `pat` occurs in `s`, or `-1`.
pub open spec fn spec_find(s: Seq<char>, pat: Seq<char>) -> int {
    spec_find_from(s, pat, 0)
}

/// What `spec_find_from` returns: the first occurrence at or after `from`,
/// with nothing before it.
pub proof fn lemma_find_from_props(s: Seq<char>, pat: Seq<char>, from: int)
    requires
        pat.len() >= 1,
        0 <= from,
    ensures
        spec_find_from(s, pat, from) == -1 || spec_find_from(s, pat, from) >= from,
        spec_find_from(s, pat, from) == -1 ==> forall|j: int|
            from <= j ==> !occurs_at(s, pat, j),
        spec_find_from(s, pat, from) >= 0 ==> from <= spec_find_from(s, pat, from) && occurs_at(
            s,
            pat,
            spec_find_from(s, pat, from),
        ) && forall|j: int| from <= j < spec_find_from(s, pat, from) ==> !occurs_at(s, pat, j),
    decreases s.len() + 1 - from,
{
    if from + pat.len() > s.len() {
        assert forall|j: int| from <= j implies !occurs_at(s, pat, j) by {}
    } else if occurs_at(s, pat, from) {
    } else {
        lemma_find_from_props(s, pat, from + 1);
    }
}

/// A scan that counts zero occurrences has passed no occurrence at all.
pub proof fn lemma_count_zero(s: Seq<char>, pat: Seq<char>, from: int)
    requires
        pat.len() >= 1,
        0 <= from,
    ensures
        spec_count_from(s, pat, from) == 0 <==> forall|j: int|
            from <= j ==> !occurs_at(s, pat, j),
    decreases s.len() + 1 - from,
{
    if from + pat.len() > s.len() {
        assert forall|j: int| from <= j implies !occurs_at(s, pat, j) by {}
    } else if occurs_at(s, pat, from) {
    } else {
        lemma_count_zero(s, pat, from + 1);
    }
}

/// Replacing where nothing occurs leaves the scanned suffix unchanged.
pub proof fn lemma_replace_none(s: Seq<char>, pat: Seq<char>, new: Seq<char>, from: int)
    requires
        pat.len() >= 1,
        0 <= from <= s.len(),
        spec_count_from(s, pat, from) == 0,
    ensures
        spec_replace_from(s, pat, new, from) == s.subrange(from, s.len() as int),
    decreases s.len() + 1 - from,
{
    if from + pat.len() > s.len() {
    } else if occurs_at(s, pat, from) {
        assert(spec_count_from(s, pat, from) >= 1);
    } else {
        lemma_replace_none(s, pat, new, from + 1);
        assert(seq![s[from]] + s.subrange(from + 1, s.len() as int) =~= s.subrange(
            from,
            s.len() as int,
        ));
    }
}

/// Splitting a replacement scan at the first occurrence `f` at or after
/// `from`: the text up to `f` is kept, `new` is inserted, and the scan goes
/// on after the occurrence.
pub proof fn lemma_replace_decompose(
    s: Seq<char>,
    pat: Seq<char>,
    new: Seq<char>,
    from: int,
    f: int,
)
    requires
        pat.len() >= 1,
        0 <= from <= f,
        occurs_at(s, pat, f),
        forall|j: int| from <= j < f ==> !occurs_at(s, pat, j),
    ensures
        spec_replace_from(s, pat, new, from) == s.subrange(from, f) + new + spec_replace_from(
            s,
            pat,
            new,
            f + pat.len(),
        ),
        spec_count_from(s, pat, from) == 1 + spec_count_from(s, pat, f + pat.len()),
    decreases f - from,
{
    if from == f {
        assert(s.subrange(from, f) =~= Seq::<char>::empty());
        assert(Seq::<char>::empty() + new =~= new);
    } else {
        lemma_replace_decompose(s, pat, new, from + 1, f);
        assert(seq![s[from]] + (s.subrange(from + 1, f) + new + spec_replace_from(
            s,
            pat,
            new,
            f + pat.len(),
        )) =~= s.subrange(from, f) + new + spec_replace_from(s, pat, new, f + pat.len()));
    }
}

/// Replacing the only occurrence of `pat` in `s` splices `new` between the
/// text before and after that occurrence.
pub proof fn lemma_replace_single(s: Seq<char>, pat: Seq<char>, new: Seq<char>)
    requires
        pat.len() >= 1,
        spec_count(s, pat) == 1,
    ensures
        0 <= spec_find(s, pat) && spec_find(s, pat) + pat.len() <= s.len(),
        occurs_at(s, pat, spec_find(s, pat)),
        spec_replace(s, pat, new) == s.subrange(0, spec_find(s, pat)) + new + s.subrange(
            spec_find(s, pat) + pat.len(),
            s.len() as int,
        ),
        forall|j: int|
            occurs_at(s, pat, j) ==> spec_find(s, pat) <= j < spec_find(s, pat) + pat.len(),
{
    let f = spec_find(s, pat);
    lemma_find_from_props(s, pat, 0);
    if f == -1 {
        lemma_count_zero(s, pat, 0);
        assert(false);
    }
    lemma_replace_decompose(s, pat, new, 0, f);
    lemma_count_zero(s, pat, f + pat.len() as int);
    lemma_replace_none(s, pat, new, f + pat.len() as int);
}

/// After replacing the only occurrence of `pat`, any occurrence of `pat`
/// that remains straddles the inserted text: it starts before the insertion
/// ends and ends after it starts. In particular, when no straddling
/// occurrence exists the result does not contain `pat` at all.
pub proof fn lemma_replace_single_straddle(s: Seq<char>, pat: Seq<char>, new: Seq<char>)
    requires
        pat.len() >= 1,
        spec_count(s, pat) == 1,
    ensures
        forall|j: int|
            occurs_at(spec_replace(s, pat, new), pat, j) ==> j < spec_find(s, pat) + new.len()
                && spec_find(s, pat) < j + pat.len(),
{
    let f = spec_find(s, pat);
    let slen = s.len() as int;
    let plen = pat.len() as int;
    let nlen = new.len() as int;
    lemma_replace_single(s, pat, new);
    let r = spec_replace(s, pat, new);
    assert(r.len() == f + nlen + (slen - f - plen));
    assert forall|j: int|
        occurs_at(r, pat, j) implies j < f + nlen && f < j + plen by {
        if j + plen <= f {
            assert(r.subrange(j, j + plen) =~= s.subrange(j, j + plen));
            assert(occurs_at(s, pat, j));
            assert(j != f);
        } else if j >= f + nlen {
            let k = j - nlen + plen;
            assert(r.subrange(j, j + plen) =~= s.subrange(k, k + plen));
            assert(occurs_at(s, pat, k));
            assert(k >= f + plen);
            assert(k != f);
        }
    }
}

/// The inserted text stands in the replacement result at the position of the
/// first occurrence.
pub proof fn lemma_replace_contains_new(s: Seq<char>, pat: Seq<char>, new: Seq<char>)
    requires
        pat.len() >= 1,
        spec_count(s, pat) >= 1,
    ensures
        occurs_at(spec_replace(s, pat, new), new, spec_find(s, pat)),
        0 <= spec_find(s, pat),
{
    let f = spec_find(s, pat);
    lemma_find_from_props(s, pat, 0);
    if f == -1 {
        lemma_count_zero(s, pat, 0);
        assert(false);
    }
    lemma_replace_decompose(s, pat, new, 0, f);
    let r = spec_replace(s, pat, new);
    assert(r.subrange(f, f + new.len() as int) =~= new);
}

/// `s` split at every newline character: one segment per stretch between
/// newlines, including empty ones, so the result always has at least one
/// segment.
pub open spec fn spec_split_nl(s: Seq<char>) -> Seq<Seq<char>>
    decreases s.len(),
{
    if s.len() == 0 {
        seq![Seq::<char>::empty()]
    } else if s[0] == '\n' {
        seq![Seq::<char>::empty()] + spec_split_nl(s.skip(1))
    } else {
        let rest = spec_split_nl(s.skip(1));
        seq![seq![s[0]] + rest[0]] + rest.skip(1)
    }
}

/// The lines of `s`: split at newlines, with a single trailing newline
/// yielding no extra empty line, and an empty text yielding no lines.
pub open spec fn spec_lines(s: Seq<char>) -> Seq<Seq<char>> {
    if s.len() == 0 {
        Seq::empty()
    } else if s[s.len() - 1] == '\n' {
        spec_split_nl(s.subrange(0, s.len() - 1))
    } else {
        spec_split_nl(s)
    }
}

/// A text without newlines is a single segment.
proof fn lemma_split_nl_whole(s: Seq<char>)
    requires
        forall|j: int| 0 <= j < s.len() ==> s[j] != '\n',
    ensures
        spec_split_nl(s) == seq![s],
    decreases s.len(),
{
    if s.len() == 0 {
        assert(seq![Seq::<char>::empty()] =~~= seq![s]);
    } else {
        lemma_split_nl_whole(s.skip(1));
        assert(seq![s[0]] + s.skip(1) =~= s);
        assert(seq![seq![s[0]] + s.skip(1)] + seq![s.skip(1)].skip(1) =~~= seq![s]);
    }
}

/// Splitting at the first newline: the text before it is the first segment.
proof fn lemma_split_nl_first(s: Seq<char>, f: int)
    requires
        0 <= f < s.len(),
        s[f] == '\n',
        forall|j: int| 0 <= j < f ==> s[j] != '\n',
    ensures
        spec_split_nl(s) == seq![s.subrange(0, f)] + spec_split_nl(s.skip(f + 1)),
    decreases f,
{
    if f == 0 {
        assert(s.subrange(0, 0) =~= Seq::<char>::empty());
        assert(seq![Seq::<char>::empty()] + spec_split_nl(s.skip(1)) =~~= seq![s.subrange(0, 0)]
            + spec_split_nl(s.skip(1)));
    } else {
        let t = s.skip(1);
        assert(t[f - 1] == '\n');
        assert(forall|j: int| 0 <= j < f - 1 ==> t[j] != '\n');
        lemma_split_nl_first(t, f - 1);
        let rest = spec_split_nl(t);
        assert(rest[0] == t.subrange(0, f - 1));
        assert(seq![s[0]] + t.subrange(0, f - 1) =~= s.subrange(0, f));
        assert(t.skip(f) =~= s.skip(f + 1));
        assert(rest.skip(1) =~~= spec_split_nl(s.skip(f + 1)));
        assert(seq![seq![s[0]] + rest[0]] + rest.skip(1) =~~= seq![s.subrange(0, f)]
            + spec_split_nl(s.skip(f + 1)));
    }
}

/// Split `s` into its lines.
pub fn split_lines(s: &str) -> (r: Vec<String>)
    ensures
        r.deep_view() == spec_lines(s@),
{
    let mut r: Vec<String> = Vec::new();
    let n = s.unicode_len();
    if n == 0 {
        assert(r.deep_view() =~~= spec_lines(s@));
        return r;
    }
    let limit: usize = if s.get_char(n - 1) == '\n' {
        n - 1
    } else {
        n
    };
    let ghost t = s@.subrange(0, limit as int);
    let mut start: usize = 0;
    let mut i: usize = 0;
    proof {
        assert(t.skip(0) =~= t);
        assert(r.deep_view() =~~= Seq::<Seq<char>>::empty());
        assert(r.deep_view() + spec_split_nl(t) =~~= spec_split_nl(t));
    }
    while i < limit
        invariant
            limit <= n == s@.len(),
            t == s@.subrange(0, limit as int),
            start <= i <= limit,
            forall|j: int| start <= j < i ==> t[j] != '\n',
            spec_split_nl(t) =~~= r.deep_view() + spec_split_nl(t.skip(start as int)),
        decreases limit - i,
    {
        if s.get_char(i) == '\n' {
            let piece = s.substring_char(start, i);
            proof {
                let u = t.skip(start as int);
                assert(u[i - start] == '\n');
                assert(forall|j: int| 0 <= j < i - start ==> u[j] != '\n');
                lemma_split_nl_first(u, i - start);
                assert(u.subrange(0, i - start) =~= piece@);
                assert(u.skip(i - start + 1) =~= t.skip(i + 1));
            }
            r.push(piece.to_owned());
            proof {
                assert(spec_split_nl(t) =~~= r.deep_view() + spec_split_nl(t.skip(i + 1)));
            }
            start = i + 1;
        }
        i += 1;
    }
    let piece = s.substring_char(start, limit);
    proof {
        let u = t.skip(start as int);
        assert(forall|j: int| 0 <= j < u.len() ==> u[j] != '\n');
        lemma_split_nl_whole(u);
        assert(u =~= piece@);
    }
    r.push(piece.to_owned());
    proof {
        assert(spec_split_nl(t) =~~= r.deep_view());
        if limit == n {
            assert(t =~= s@);
        } else {
            assert(s@[n - 1] == '\n');
        }
    }
    r
}

/// The decimal digit character for `d`.
pub open spec fn spec_digit(d: int) -> char {
    if d == 0 {
        '0'
    } else if d == 1 {
        '1'
    } else if d == 2 {
        '2'
    } else if d == 3 {
        '3'
    } else if d == 4 {
        '4'
    } else if d == 5 {
        '5'
    } else if d == 6 {
        '6'
    } else if d == 7 {
        '7'
    } else if d == 8 {
        '8'
    } else {
        '9'
    }
}

/// The decimal digits of `n`, most significant first.
pub open spec fn spec_u64_str(n: int) -> Seq<char>
    decreases n,
{
    if n < 10 {
        seq![spec_digit(n)]
    } else {
        spec_u64_str(n / 10) + seq![spec_digit(n % 10)]
    }
}

/// The decimal digit of `d` as a one-character text.
fn digit_str(d: u64) -> (r: &'static str)
    requires
        d < 10,
    ensures
        r@ == seq![spec_digit(d as int)],
{
    proof {
        reveal_strlit("0");
        reveal_strlit("1");
        reveal_strlit("2");
        reveal_strlit("3");
        reveal_strlit("4");
        reveal_strlit("5");
        reveal_strlit("6");
        reveal_strlit("7");
        reveal_strlit("8");
        reveal_strlit("9");
    }
    let r = match d {
        0 => "0",
        1 => "1",
        2 => "2",
        3 => "3",
        4 => "4",
        5 => "5",
        6 => "6",
        7 => "7",
        8 => "8",
        _ => "9",
    };
    proof {
        assert(r@ =~= seq![spec_digit(d as int)]);
    }
    r
}

/// Format `n` in decimal.
pub fn fmt_u64(n: u64) -> (r: String)
    ensures
        r@ == spec_u64_str(n as int),
    decreases n,
{
    if n < 10 {
        digit_str(n).to_owned()
    } else {
        let mut r = fmt_u64(n / 10);
        r.append(digit_str(n % 10));
        r
    }
}

/// Format `n` in decimal, with a sign when negative.
pub fn fmt_i64(n: i64) -> (r: String)
    ensures
        n >= 0 ==> r@ == spec_u64_str(n as int),
        n < 0 ==> r@ == seq!['-'] + spec_u64_str(-(n as int)),
{
    if n >= 0 {
        fmt_u64(n as u64)
    } else {
        let mut r = String::new();
        proof {
            reveal_strlit("-");
        }
        r.append("-");
        let mag: u64 = if n == i64::MIN {
            9223372036854775808u64
        } else {
            (-n) as u64
        };
        r.append(fmt_u64(mag).as_str());
        proof {
            assert(seq!['-'] =~= "-"@);
        }
        r
    }
}

/// Compare two texts character by character.
pub fn str_eq(a: &str, b: &str) -> (r: bool)
    ensures
        r == (a@ == b@),
{
    let alen = a.unicode_len();
    let blen = b.unicode_len();
    if alen != blen {
        return false;
    }
    let mut i: usize = 0;
    while i < alen
        invariant
            alen == a@.len() == b@.len(),
            i <= alen,
            forall|k: int| 0 <= k < i ==> a@[k] == b@[k],
        decreases alen - i,
    {
        if a.get_char(i) != b.get_char(i) {
            return false;
        }
        i += 1;
    }
    assert(a@ =~= b@);
    true
}

/// `pat` occurs somewhere in `s`.
pub fn contains_str(s: &str, pat: &str) -> (b: bool)
    requires
        pat@.len() >= 1,
    ensures
        b == contains_seq(s@, pat@),
{
    let r = find_from(s, pat, 0);
    match r {
        Some(i) => {
            assert(occurs_at(s@, pat@, i as int));
            true
        },
        None => {
            assert(forall|j: int| !occurs_at(s@, pat@, j)) by {
                assert(forall|j: int| j < 0 ==> !occurs_at(s@, pat@, j));
            }
            false
        },
    }
}

} // verus!
