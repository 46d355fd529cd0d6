//! Verified text helpers: ASCII case folding, case-insensitive substring
//! search and removal, whitespace trimming, splitting and joining. The
//! ingestion fallback and the command handling are built on these.

use vstd::prelude::*;
use vstd::string::*;

verus! {

/// Case folding for the ASCII letters: 'A'..'Z' map to their lower-case
/// counterparts, every other character is unchanged.
pub open spec fn fold_char(c: char) -> char {
    match c {
        'A' => 'a',
        'B' => 'b',
        'C' => 'c',
        'D' => 'd',
        'E' => 'e',
        'F' => 'f',
        'G' => 'g',
        'H' => 'h',
        'I' => 'i',
        'J' => 'j',
        'K' => 'k',
        'L' => 'l',
        'M' => 'm',
        'N' => 'n',
        'O' => 'o',
        'P' => 'p',
        'Q' => 'q',
        'R' => 'r',
        'S' => 's',
        'T' => 't',
        'U' => 'u',
        'V' => 'v',
        'W' => 'w',
        'X' => 'x',
        'Y' => 'y',
        'Z' => 'z',
        _ => c,
    }
}

/// Executable ASCII case folding.
pub fn fold_char_x(c: char) -> (r: char)
    ensures
        r == fold_char(c),
{
    match c {
        'A' => 'a',
        'B' => 'b',
        'C' => 'c',
        'D' => 'd',
        'E' => 'e',
        'F' => 'f',
        'G' => 'g',
        'H' => 'h',
        'I' => 'i',
        'J' => 'j',
        'K' => 'k',
        'L' => 'l',
        'M' => 'm',
        'N' => 'n',
        'O' => 'o',
        'P' => 'p',
        'Q' => 'q',
        'R' => 'r',
        'S' => 's',
        'T' => 't',
        'U' => 'u',
        'V' => 'v',
        'W' => 'w',
        'X' => 'x',
        'Y' => 'y',
        'Z' => 'z',
        _ => c,
    }
}

/// ASCII whitespace.
pub open spec fn is_space_char(c: char) -> bool {
    c == ' ' || c == '\t' || c == '\n' || c == '\r' || c == '\x0b' || c == '\x0c'
}

/// Executable whitespace test.
pub fn is_space(c: char) -> (r: bool)
    ensures
        r == is_space_char(c),
{
    c == ' ' || c == '\t' || c == '\n' || c == '\r' || c == '\x0b' || c == '\x0c'
}

/// The needle `k` occurs, up to ASCII case, at position `i` of `s`.
pub open spec fn matches_at_ci(s: Seq<char>, k: Seq<char>, i: int) -> bool {
    &&& 0 <= i
    &&& i + k.len() <= s.len()
    &&& forall|j: int| 0 <= j < k.len() ==> fold_char(s[i + j]) == fold_char(k[j])
}

/// The needle `k` occurs somewhere in `s`, up to ASCII case.
pub open spec fn contains_ci(s: Seq<char>, k: Seq<char>) -> bool {
    exists|i: int| matches_at_ci(s, k, i)
}

/// Executable test of `matches_at_ci`.
pub fn match_at_ci(s: &str, k: &str, i: usize) -> (r: bool)
    requires
        i + k@.len() <= s@.len(),
    ensures
        r == matches_at_ci(s@, k@, i as int),
{
    let sn = s.unicode_len();
    let n = k.unicode_len();
    let mut j: usize = 0;
    while j < n
        invariant
            sn == s@.len(),
            n == k@.len(),
            i + n <= sn,
            0 <= j <= n,
            forall|m: int| 0 <= m < j ==> fold_char(s@[i + m]) == fold_char(k@[m]),
        decreases n - j,
    {
        let cs = s.get_char(i + j);
        let ck = k.get_char(j);
        if fold_char_x(cs) != fold_char_x(ck) {
            return false;
        }
        j = j + 1;
    }
    true
}

/// Executable test of `contains_ci`.
pub fn text_contains_ci(s: &str, k: &str) -> (r: bool)
    ensures
        r == contains_ci(s@, k@),
{
    let n = s.unicode_len();
    let m = k.unicode_len();
    if m > n {
        assert(forall|i: int| !matches_at_ci(s@, k@, i));
        return false;
    }
    let mut i: usize = 0;
    while i <= n - m
        invariant
            n == s@.len(),
            m == k@.len(),
            m <= n,
            0 <= i <= n - m + 1,
            forall|p: int| 0 <= p < i ==> !matches_at_ci(s@, k@, p),
        decreases n - m + 1 - i,
    {
        if match_at_ci(s, k, i) {
            return true;
        }
        i = i + 1;
    }
    assert(forall|p: int| matches_at_ci(s@, k@, p) ==> 0 <= p <= n - m);
    false
}

/// Single left-to-right pass that removes the non-overlapping occurrences of
/// `k` in `s`, matched up to ASCII case. The scan resumes after each removal,
/// so a removal never creates a new match out of its surroundings.
pub open spec fn remove_ci(s: Seq<char>, k: Seq<char>) -> Seq<char>
    decreases s.len(),
{
    if s.len() == 0 {
        s
    } else if k.len() > 0 && matches_at_ci(s, k, 0) {
        remove_ci(s.skip(k.len() as int), k)
    } else {
        seq![s[0]] + remove_ci(s.skip(1), k)
    }
}

/// One unfolding of `remove_ci` at an arbitrary scan position.
proof fn lemma_remove_ci_step(s: Seq<char>, k: Seq<char>, i: int)
    requires
        k.len() > 0,
        0 <= i < s.len(),
    ensures
        matches_at_ci(s, k, i) ==> remove_ci(s.skip(i), k) == remove_ci(
            s.skip(i + k.len()),
            k,
        ),
        !matches_at_ci(s, k, i) ==> remove_ci(s.skip(i), k) == seq![s[i]] + remove_ci(
            s.skip(i + 1),
            k,
        ),
{
    let t = s.skip(i);
    assert(t.len() == s.len() - i);
    assert(forall|j: int| 0 <= j < t.len() ==> t[j] == s[i + j]);
    if matches_at_ci(s, k, i) {
        assert(matches_at_ci(t, k, 0));
        assert(t.skip(k.len() as int) =~= s.skip(i + k.len()));
    } else {
        assert(!matches_at_ci(t, k, 0)) by {
            if matches_at_ci(t, k, 0) {
                assert(forall|j: int|
                    0 <= j < k.len() ==> fold_char(s[i + j]) == fold_char(k[j]));
                assert(matches_at_ci(s, k, i));
            }
        }
        assert(t[0] == s[i]);
        assert(t.skip(1) =~= s.skip(i + 1));
    }
}

/// Remove every occurrence of `k` in `s` (found up to ASCII case) in a single
/// left-to-right pass, keeping the untouched characters in their original
/// case.
pub fn remove_all_ci(s: &str, k: &str) -> (r: String)
    requires
        k@.len() > 0,
    ensures
        r@ == remove_ci(s@, k@),
{
    let n = s.unicode_len();
    let m = k.unicode_len();
    let mut out = String::new();
    let mut i: usize = 0;
    proof {
        assert(s@.skip(0) =~= s@);
        assert(out@ + remove_ci(s@, k@) =~= remove_ci(s@, k@));
    }
    while i < n
        invariant
            n == s@.len(),
            m == k@.len(),
            m > 0,
            0 <= i <= n,
            out@ + remove_ci(s@.skip(i as int), k@) == remove_ci(s@, k@),
        decreases n - i,
    {
        let step_matches = if m <= n && i <= n - m {
            match_at_ci(s, k, i)
        } else {
            proof {
                assert(!matches_at_ci(s@, k@, i as int));
            }
            false
        };
        proof {
            lemma_remove_ci_step(s@, k@, i as int);
        }
        if step_matches {
            i = i + m;
        } else {
            let piece = s.substring_char(i, i + 1);
            proof {
                assert(piece@ =~= seq![s@[i as int]]);
            }
            out.append(piece);
            i = i + 1;
        }
    }
    proof {
        assert(s@.skip(n as int) =~= Seq::<char>::empty());
        assert(out@ + Seq::<char>::empty() =~= out@);
    }
    out
}

/// `s` without its leading whitespace.
pub open spec fn trim_start_text(s: Seq<char>) -> Seq<char>
    decreases s.len(),
{
    if s.len() > 0 && is_space_char(s[0]) {
        trim_start_text(s.skip(1))
    } else {
        s
    }
}

/// `s` without its trailing whitespace.
pub open spec fn trim_end_text(s: Seq<char>) -> Seq<char>
    decreases s.len(),
{
    if s.len() > 0 && is_space_char(s[s.len() - 1]) {
        trim_end_text(s.take(s.len() - 1))
    } else {
        s
    }
}

/// `s` without leading and trailing whitespace.
pub open spec fn trim_text(s: Seq<char>) -> Seq<char> {
    trim_end_text(trim_start_text(s))
}

/// Dropping leading whitespace is the same as skipping up to the first
/// non-whitespace character.
proof fn lemma_trim_start_skip(s: Seq<char>, a: int)
    requires
        0 <= a <= s.len(),
        forall|i: int| 0 <= i < a ==> is_space_char(s[i]),
        a < s.len() ==> !is_space_char(s[a]),
    ensures
        trim_start_text(s) == s.skip(a),
    decreases a,
{
    if a == 0 {
        assert(s.skip(0) =~= s);
    } else {
        assert(is_space_char(s[0]));
        let t = s.skip(1);
        assert(forall|i: int| 0 <= i < a - 1 ==> t[i] == s[i + 1]);
        lemma_trim_start_skip(t, a - 1);
        assert(t.skip(a - 1) =~= s.skip(a));
    }
}

/// Dropping trailing whitespace is the same as taking up to the last
/// non-whitespace character.
proof fn lemma_trim_end_take(s: Seq<char>, b: int)
    requires
        0 <= b <= s.len(),
        forall|i: int| b <= i < s.len() ==> is_space_char(s[i]),
        b > 0 ==> !is_space_char(s[b - 1]),
    ensures
        trim_end_text(s) == s.take(b),
    decreases s.len() - b,
{
    if b == s.len() {
        assert(s.take(b) =~= s);
    } else {
        assert(is_space_char(s[s.len() - 1]));
        let t = s.take(s.len() - 1);
        lemma_trim_end_take(t, b);
        assert(t.take(b) =~= s.take(b));
    }
}

/// Strip leading and trailing whitespace from `s`.
pub fn trim_str(s: &str) -> (r: String)
    ensures
        r@ == trim_text(s@),
{
    let n = s.unicode_len();
    let mut a: usize = 0;
    while a < n && is_space(s.get_char(a))
        invariant
            n == s@.len(),
            0 <= a <= n,
            forall|i: int| 0 <= i < a ==> is_space_char(s@[i]),
        decreases n - a,
    {
        a = a + 1;
    }
    let mut b: usize = n;
    while b > a && is_space(s.get_char(b - 1))
        invariant
            n == s@.len(),
            0 <= a <= b <= n,
            forall|i: int| 0 <= i < a ==> is_space_char(s@[i]),
            forall|i: int| b <= i < n ==> is_space_char(s@[i]),
        decreases b,
    {
        b = b - 1;
    }
    let r = String::from_str(s.substring_char(a, b));
    proof {
        lemma_trim_start_skip(s@, a as int);
        let t = s@.skip(a as int);
        assert(forall|i: int| 0 <= i < t.len() ==> t[i] == s@[a + i]);
        if b == a {
            lemma_trim_end_take(t, 0);
        } else {
            assert(!is_space_char(s@[b - 1]));
            lemma_trim_end_take(t, b - a);
        }
        assert(t.take(b - a) =~= s@.subrange(a as int, b as int));
    }
    r
}

/// Length of the maximal run of non-whitespace characters at the front of
/// `s`.
pub open spec fn word_len(s: Seq<char>) -> int
    decreases s.len(),
{
    if s.len() == 0 || is_space_char(s[0]) {
        0
    } else {
        1 + word_len(s.skip(1))
    }
}

/// `word_len` lies between 0 and the length of `s`, everything before it is
/// non-whitespace, and it stops at whitespace or at the end.
pub proof fn lemma_word_len(s: Seq<char>)
    ensures
        0 <= word_len(s) <= s.len(),
        forall|i: int| 0 <= i < word_len(s) ==> !is_space_char(s[i]),
        word_len(s) < s.len() ==> is_space_char(s[word_len(s)]),
    decreases s.len(),
{
    if s.len() == 0 || is_space_char(s[0]) {
    } else {
        let t = s.skip(1);
        lemma_word_len(t);
        assert(forall|i: int| 0 <= i < t.len() ==> t[i] == s[i + 1]);
        assert forall|i: int| 0 <= i < word_len(s) implies !is_space_char(s[i]) by {
            if i >= 1 {
                assert(!is_space_char(t[i - 1]));
            }
        }
    }
}

/// The whitespace-separated words of `s`, in order, without the whitespace.
pub open spec fn split_ws_text(s: Seq<char>) -> Seq<Seq<char>>
    decreases s.len(),
    via split_ws_text_decreases
{
    if s.len() == 0 {
        Seq::empty()
    } else if is_space_char(s[0]) {
        split_ws_text(s.skip(1))
    } else {
        seq![s.take(word_len(s))] + split_ws_text(s.skip(word_len(s)))
    }
}

#[via_fn]
proof fn split_ws_text_decreases(s: Seq<char>) {
    if s.len() > 0 && !is_space_char(s[0]) {
        lemma_word_len(s);
    }
}

/// The views of the strings in `v`.
pub open spec fn views_of(v: Seq<String>) -> Seq<Seq<char>> {
    v.map_values(|x: String| x@)
}

/// Unfold `split_ws_text` at an arbitrary scan position.
proof fn lemma_split_ws_step(s: Seq<char>, i: int)
    requires
        0 <= i < s.len(),
    ensures
        is_space_char(s[i]) ==> split_ws_text(s.skip(i)) == split_ws_text(s.skip(i + 1)),
        !is_space_char(s[i]) ==> split_ws_text(s.skip(i)) == seq![
            s.subrange(i, i + word_len(s.skip(i))),
        ] + split_ws_text(s.skip(i + word_len(s.skip(i)))),
{
    let t = s.skip(i);
    assert(t.len() == s.len() - i);
    assert(forall|j: int| 0 <= j < t.len() ==> t[j] == s[i + j]);
    if is_space_char(s[i]) {
        assert(t.skip(1) =~= s.skip(i + 1));
    } else {
        let w = word_len(t);
        lemma_word_len(t);
        assert(t.take(w) =~= s.subrange(i, i + w));
        assert(t.skip(w) =~= s.skip(i + w));
    }
}

/// Split `s` at whitespace into its words.
pub fn split_ws(s: &str) -> (r: Vec<String>)
    ensures
        views_of(r@) == split_ws_text(s@),
{
    let n = s.unicode_len();
    let mut out: Vec<String> = Vec::new();
    let mut i: usize = 0;
    proof {
        assert(s@.skip(0) =~= s@);
        assert(views_of(out@) =~= Seq::<Seq<char>>::empty());
        assert(views_of(out@) + split_ws_text(s@) =~= split_ws_text(s@));
    }
    while i < n
        invariant
            n == s@.len(),
            0 <= i <= n,
            views_of(out@) + split_ws_text(s@.skip(i as int)) == split_ws_text(s@),
        decreases n - i,
    {
        proof {
            lemma_split_ws_step(s@, i as int);
        }
        if is_space(s.get_char(i)) {
            i = i + 1;
        } else {
            let ghost t = s@.skip(i as int);
            let mut j: usize = i + 1;
            while j < n && !is_space(s.get_char(j))
                invariant
                    n == s@.len(),
                    0 <= i < j <= n,
                    forall|p: int| i <= p < j ==> !is_space_char(s@[p]),
                decreases n - j,
            {
                j = j + 1;
            }
            proof {
                lemma_word_len(t);
                assert(forall|p: int| 0 <= p < t.len() ==> t[p] == s@[i + p]);
                lemma_word_len_exact(t, j - i);
            }
            let word = String::from_str(s.substring_char(i, j));
            out.push(word);
            proof {
                assert(views_of(out@) =~= views_of(out@.drop_last()) + seq![
                    s@.subrange(i as int, j as int),
                ]);
                assert(views_of(out@) + split_ws_text(s@.skip(j as int)) =~= split_ws_text(
                    s@,
                ));
            }
            i = j;
        }
    }
    proof {
        assert(s@.skip(n as int) =~= Seq::<char>::empty());
        assert(views_of(out@) + Seq::<Seq<char>>::empty() =~= views_of(out@));
    }
    out
}

/// A sequence whose first `w` characters are non-whitespace and which then
/// stops or hits whitespace has word length exactly `w`.
proof fn lemma_word_len_exact(t: Seq<char>, w: int)
    requires
        0 <= w <= t.len(),
        forall|p: int| 0 <= p < w ==> !is_space_char(t[p]),
        w < t.len() ==> is_space_char(t[w]),
    ensures
        word_len(t) == w,
    decreases w,
{
    if w == 0 {
    } else {
        let u = t.skip(1);
        assert(forall|p: int| 0 <= p < u.len() ==> u[p] == t[p + 1]);
        lemma_word_len_exact(u, w - 1);
    }
}

/// Character-for-character equality of two string slices.
pub fn str_eq(a: &str, b: &str) -> (r: bool)
    ensures
        r == (a@ == b@),
{
    String::from_str(a) == String::from_str(b)
}

/// `s` begins with `p`, compared exactly (case matters).
pub open spec fn starts_with_text(s: Seq<char>, p: Seq<char>) -> bool {
    p.len() <= s.len() && s.take(p.len() as int) == p
}

/// Executable test of `starts_with_text`.
pub fn starts_with_str(s: &str, p: &str) -> (r: bool)
    ensures
        r == starts_with_text(s@, p@),
{
    let n = s.unicode_len();
    let m = p.unicode_len();
    if m > n {
        return false;
    }
    let mut j: usize = 0;
    while j < m
        invariant
            n == s@.len(),
            m == p@.len(),
            m <= n,
            0 <= j <= m,
            forall|i: int| 0 <= i < j ==> s@[i] == p@[i],
        decreases m - j,
    {
        if s.get_char(j) != p.get_char(j) {
            proof {
                assert(s@.take(m as int)[j as int] == s@[j as int]);
            }
            return false;
        }
        j = j + 1;
    }
    proof {
        assert(s@.take(m as int) =~= p@);
    }
    true
}

/// `s` ends with `p`, compared exactly (case matters).
pub open spec fn ends_with_text(s: Seq<char>, p: Seq<char>) -> bool {
    p.len() <= s.len() && s.skip(s.len() - p.len()) == p
}

/// Executable test of `ends_with_text`.
pub fn ends_with_str(s: &str, p: &str) -> (r: bool)
    ensures
        r == ends_with_text(s@, p@),
{
    let n = s.unicode_len();
    let m = p.unicode_len();
    if m > n {
        return false;
    }
    let mut j: usize = 0;
    while j < m
        invariant
            n == s@.len(),
            m == p@.len(),
            m <= n,
            0 <= j <= m,
            forall|i: int| 0 <= i < j ==> s@[n - m + i] == p@[i],
        decreases m - j,
    {
        if s.get_char(n - m + j) != p.get_char(j) {
            proof {
                assert(s@.skip(n - m)[j as int] == s@[n - m + j]);
            }
            return false;
        }
        j = j + 1;
    }
    proof {
        assert(s@.skip(n - m) =~= p@);
    }
    true
}

/// `s` with every successive copy of the prefix `p` removed from its front.
pub open spec fn strip_prefix_all(s: Seq<char>, p: Seq<char>) -> Seq<char>
    decreases s.len(),
{
    if p.len() > 0 && starts_with_text(s, p) {
        strip_prefix_all(s.skip(p.len() as int), p)
    } else {
        s
    }
}

/// `s` with every successive copy of the suffix `p` removed from its end.
pub open spec fn strip_suffix_all(s: Seq<char>, p: Seq<char>) -> Seq<char>
    decreases s.len(),
{
    if p.len() > 0 && ends_with_text(s, p) {
        strip_suffix_all(s.take(s.len() - p.len()), p)
    } else {
        s
    }
}

/// Remove every successive copy of the prefix `p` from the front of `s`.
pub fn strip_prefix_all_str(s: &str, p: &str) -> (r: String)
    requires
        p@.len() > 0,
    ensures
        r@ == strip_prefix_all(s@, p@),
{
    let mut cur = String::from_str(s);
    while starts_with_str(cur.as_str(), p)
        invariant
            p@.len() > 0,
            strip_prefix_all(cur@, p@) == strip_prefix_all(s@, p@),
        decreases cur@.len(),
    {
        let n = cur.as_str().unicode_len();
        let m = p.unicode_len();
        let rest = String::from_str(cur.as_str().substring_char(m, n));
        proof {
            assert(rest@ =~= cur@.skip(m as int));
        }
        cur = rest;
    }
    cur
}

/// Remove every successive copy of the suffix `p` from the end of `s`.
pub fn strip_suffix_all_str(s: &str, p: &str) -> (r: String)
    requires
        p@.len() > 0,
    ensures
        r@ == strip_suffix_all(s@, p@),
{
    let mut cur = String::from_str(s);
    while ends_with_str(cur.as_str(), p)
        invariant
            p@.len() > 0,
            strip_suffix_all(cur@, p@) == strip_suffix_all(s@, p@),
        decreases cur@.len(),
    {
        let n = cur.as_str().unicode_len();
        let m = p.unicode_len();
        let rest = String::from_str(cur.as_str().substring_char(0, n - m));
        proof {
            assert(rest@ =~= cur@.take(cur@.len() - p@.len()));
        }
        cur = rest;
    }
    cur
}

/// The words joined back with single spaces.
pub open spec fn join_spaces(parts: Seq<Seq<char>>) -> Seq<char>
    decreases parts.len(),
{
    if parts.len() == 0 {
        Seq::empty()
    } else if parts.len() == 1 {
        parts[0]
    } else {
        parts[0] + seq![' '] + join_spaces(parts.skip(1))
    }
}

/// Join `parts` with single spaces between them.
pub fn join_with_spaces(parts: &Vec<String>) -> (r: String)
    ensures
        r@ == join_spaces(views_of(parts@)),
{
    let mut out = String::new();
    let n = parts.len();
    if n == 0 {
        return out;
    }
    let mut i: usize = 0;
    proof {
        reveal_strlit(" ");
        assert(views_of(parts@).skip(0) =~= views_of(parts@));
        assert(out@ + join_spaces(views_of(parts@)) =~= join_spaces(views_of(parts@)));
    }
    while i < n
        invariant
            n == parts@.len(),
            n > 0,
            0 <= i <= n,
            out@ + join_spaces(views_of(parts@).skip(i as int)) == join_spaces(
                views_of(parts@),
            ),
            i > 0 && i < n ==> out@.len() > 0 && out@[out@.len() - 1] == ' ',
            i == 0 ==> out@ =~= Seq::<char>::empty(),
        decreases n - i,
    {
        out.append(parts[i].as_str());
        if i + 1 < n {
            out.append(" ");
        }
        proof {
            let vs = views_of(parts@);
            assert(vs[i as int] == parts@[i as int]@);
            assert(vs.skip(i as int)[0] == vs[i as int]);
            if i + 1 < n {
                assert(vs.skip(i as int).len() > 1);
                assert(vs.skip(i as int).skip(1) =~= vs.skip(i + 1));
                reveal_strlit(" ");
                assert(" "@ =~= seq![' ']);
            } else {
                assert(vs.skip(i as int).len() == 1);
                assert(vs.skip(i + 1) =~= Seq::<Seq<char>>::empty());
            }
        }
        i = i + 1;
    }
    proof {
        let vs = views_of(parts@);
        assert(vs.skip(n as int) =~= Seq::<Seq<char>>::empty());
        assert(out@ + Seq::<char>::empty() =~= out@);
    }
    out
}

} // verus!
