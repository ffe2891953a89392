use vstd::prelude::*;
use vstd::string::StrSliceExecFns;
use vstd::string::StringExecFns;

verus! {

/// True when `s` ends with `suffix`.
pub open spec fn ends_with_spec(s: Seq<char>, suffix: Seq<char>) -> bool {
    s.len() >= suffix.len() && s.subrange(s.len() - suffix.len(), s.len() as int) == suffix
}

/// Index of the last occurrence of `c` in `s`, or -1 when `c` does not occur.
pub open spec fn last_index_of(s: Seq<char>, c: char) -> int
    decreases s.len(),
{
    if s.len() == 0 {
        -1
    } else if s[s.len() - 1] == c {
        s.len() - 1
    } else {
        last_index_of(s.drop_last(), c)
    }
}

/// Index of the first occurrence of `c` in `s`, or -1 when `c` does not occur.
pub open spec fn first_index_of(s: Seq<char>, c: char) -> int
    decreases s.len(),
{
    if s.len() == 0 {
        -1
    } else if s[0] == c {
        0
    } else {
        let r = first_index_of(s.subrange(1, s.len() as int), c);
        if r == -1 {
            -1
        } else {
            r + 1
        }
    }
}

/// `s` with every trailing occurrence of `c` removed.
pub open spec fn strip_trailing(s: Seq<char>, c: char) -> Seq<char>
    decreases s.len(),
{
    if s.len() > 0 && s[s.len() - 1] == c {
        strip_trailing(s.drop_last(), c)
    } else {
        s
    }
}

/// `s` with every occurrence of `from` replaced by `to`.
pub open spec fn replace_char_spec(s: Seq<char>, from: char, to: char) -> Seq<char> {
    s.map(|_i: int, c: char| if c == from { to } else { c })
}

/// `last_index_of` points at the last occurrence: the character there is `c`
/// and no later character is.
pub proof fn lemma_last_index_of(s: Seq<char>, c: char)
    ensures
        -1 <= last_index_of(s, c) < s.len(),
        last_index_of(s, c) >= 0 ==> s[last_index_of(s, c)] == c,
        forall|j: int| last_index_of(s, c) < j < s.len() ==> s[j] != c,
    decreases s.len(),
{
    if s.len() > 0 && s[s.len() - 1] != c {
        let dl = s.drop_last();
        lemma_last_index_of(dl, c);
        assert(forall|j: int| 0 <= j < s.len() - 1 ==> s[j] == dl[j]);
        assert forall|j: int| last_index_of(s, c) < j < s.len() implies s[j] != c by {
            if j < s.len() - 1 {
                assert(dl[j] != c);
            }
        }
    }
}

/// `first_index_of` points at the first occurrence: the character there is `c`
/// and no earlier character is.
pub proof fn lemma_first_index_of(s: Seq<char>, c: char)
    ensures
        -1 <= first_index_of(s, c) < s.len(),
        first_index_of(s, c) >= 0 ==> s[first_index_of(s, c)] == c,
        forall|j: int| 0 <= j < s.len() && j < first_index_of(s, c) ==> s[j] != c,
        first_index_of(s, c) == -1 ==> forall|j: int| 0 <= j < s.len() ==> s[j] != c,
    decreases s.len(),
{
    if s.len() > 0 && s[0] != c {
        let s1 = s.subrange(1, s.len() as int);
        lemma_first_index_of(s1, c);
        assert(forall|j: int| 1 <= j < s.len() ==> s[j] == s1[j - 1]);
        let r = first_index_of(s1, c);
        if r == -1 {
            assert forall|j: int| 0 <= j < s.len() implies s[j] != c by {
                if j >= 1 {
                    assert(s1[j - 1] != c);
                }
            }
        } else {
            assert(first_index_of(s, c) == r + 1);
            assert(s[r + 1] == s1[r]);
            assert forall|j: int| 0 <= j < s.len() && j < r + 1 implies s[j] != c by {
                if j >= 1 {
                    assert(s1[j - 1] != c);
                }
            }
        }
    }
}

/// `strip_trailing` yields the prefix that ends at the last character that is
/// not `c`; all removed characters are `c`.
pub proof fn lemma_strip_trailing(s: Seq<char>, c: char)
    ensures
        strip_trailing(s, c).len() <= s.len(),
        strip_trailing(s, c) == s.subrange(0, strip_trailing(s, c).len() as int),
        strip_trailing(s, c).len() > 0 ==> strip_trailing(s, c).last() != c,
        forall|j: int| strip_trailing(s, c).len() <= j < s.len() ==> s[j] == c,
    decreases s.len(),
{
    let t = strip_trailing(s, c);
    if s.len() > 0 && s[s.len() - 1] == c {
        let dl = s.drop_last();
        lemma_strip_trailing(dl, c);
        assert(forall|j: int| 0 <= j < s.len() - 1 ==> s[j] == dl[j]);
        assert(t == dl.subrange(0, t.len() as int));
        assert(s.subrange(0, t.len() as int) =~= dl.subrange(0, t.len() as int));
        assert forall|j: int| t.len() <= j < s.len() implies s[j] == c by {
            if j < s.len() - 1 {
                assert(dl[j] == c);
            }
        }
    } else {
        assert(s.subrange(0, s.len() as int) =~= s);
    }
}

/// True when `s` ends with `suffix`; decided character by character.
pub fn str_ends_with(s: &str, suffix: &str) -> (r: bool)
    ensures
        r == ends_with_spec(s@, suffix@),
{
    let n = s.unicode_len();
    let m = suffix.unicode_len();
    if m > n {
        return false;
    }
    let mut i: usize = 0;
    while i < m
        invariant
            m <= n,
            n == s@.len(),
            m == suffix@.len(),
            i <= m,
            forall|j: int| 0 <= j < i ==> s@[n - m + j] == suffix@[j],
        decreases m - i,
    {
        if s.get_char(n - m + i) != suffix.get_char(i) {
            proof {
                assert(s@.subrange(n - m, n as int)[i as int] == s@[n - m + i]);
            }
            return false;
        }
        i += 1;
    }
    proof {
        assert(s@.subrange(n - m, n as int) =~= suffix@);
    }
    true
}

/// True when `a` and `b` hold the same characters.
pub fn str_eq(a: &str, b: &str) -> (r: bool)
    ensures
        r == (a@ == b@),
{
    let n = a.unicode_len();
    if n != b.unicode_len() {
        proof {
            assert(a@ != b@);
        }
        return false;
    }
    let mut i: usize = 0;
    while i < n
        invariant
            n == a@.len(),
            n == b@.len(),
            i <= n,
            forall|j: int| 0 <= j < i ==> a@[j] == b@[j],
        decreases n - i,
    {
        if a.get_char(i) != b.get_char(i) {
            return false;
        }
        i += 1;
    }
    proof {
        assert(a@ =~= b@);
    }
    true
}

/// Index of the last occurrence of `c` in `s`, scanned from the end.
pub fn rfind_char(s: &str, c: char) -> (r: Option<usize>)
    ensures
        match r {
            Some(i) => i as int == last_index_of(s@, c),
            None => last_index_of(s@, c) == -1,
        },
{
    let n = s.unicode_len();
    let mut i: usize = n;
    while i > 0
        invariant
            n == s@.len(),
            i <= n,
            forall|j: int| i <= j < n ==> s@[j] != c,
        decreases i,
    {
        i -= 1;
        if s.get_char(i) == c {
            proof {
                lemma_last_index_of(s@, c);
                let l = last_index_of(s@, c);
                if l < i as int {
                    assert(s@[i as int] != c);
                }
                if l > i as int {
                    assert(s@[l] != c);
                }
            }
            return Some(i);
        }
    }
    proof {
        lemma_last_index_of(s@, c);
        let l = last_index_of(s@, c);
        if l >= 0 {
            assert(s@[l] != c);
        }
    }
    None
}

/// Index of the first occurrence of `c` in `s`, scanned from the start.
pub fn ffind_char(s: &str, c: char) -> (r: Option<usize>)
    ensures
        match r {
            Some(i) => i as int == first_index_of(s@, c),
            None => first_index_of(s@, c) == -1,
        },
{
    let n = s.unicode_len();
    let mut i: usize = 0;
    while i < n
        invariant
            n == s@.len(),
            i <= n,
            forall|j: int| 0 <= j < i ==> s@[j] != c,
        decreases n - i,
    {
        if s.get_char(i) == c {
            proof {
                lemma_first_index_of(s@, c);
                let f = first_index_of(s@, c);
                if f == -1 || f > i as int {
                    assert(s@[i as int] != c);
                }
                if 0 <= f < i as int {
                    assert(s@[f] != c);
                }
            }
            return Some(i);
        }
        i += 1;
    }
    proof {
        lemma_first_index_of(s@, c);
        let f = first_index_of(s@, c);
        if f >= 0 {
            assert(s@[f] != c);
        }
    }
    None
}

/// The length of `s` once trailing `c` characters are dropped.
pub fn strip_trailing_end(s: &str, c: char) -> (e: usize)
    ensures
        e <= s@.len(),
        s@.subrange(0, e as int) == strip_trailing(s@, c),
{
    let n = s.unicode_len();
    let mut e: usize = n;
    while e > 0
        invariant
            n == s@.len(),
            e <= n,
            forall|j: int| e <= j < n ==> s@[j] == c,
        decreases e,
    {
        if s.get_char(e - 1) != c {
            proof {
                lemma_strip_trailing(s@, c);
                let t = strip_trailing(s@, c);
                if t.len() > e as int {
                    assert(t[t.len() - 1] == s@.subrange(0, t.len() as int)[t.len() - 1]);
                    assert(s@[t.len() - 1] == c);
                    assert(false);
                }
                if t.len() < e as int {
                    assert(s@[e - 1] == c);
                    assert(false);
                }
                assert(s@.subrange(0, e as int) =~= t);
            }
            return e;
        }
        e -= 1;
    }
    proof {
        lemma_strip_trailing(s@, c);
        let t = strip_trailing(s@, c);
        if t.len() > 0 {
            assert(t[t.len() - 1] == s@.subrange(0, t.len() as int)[t.len() - 1]);
            assert(s@[t.len() - 1] == c);
            assert(false);
        }
        assert(s@.subrange(0, 0) =~= t);
    }
    0
}

/// `s` with every occurrence of `from` replaced by an underscore.
pub fn replace_char_with_underscore(s: &str, from: char) -> (r: String)
    ensures
        r@ == replace_char_spec(s@, from, '_'),
{
    proof {
        reveal_strlit("_");
    }
    let n = s.unicode_len();
    let mut out = String::new();
    let mut i: usize = 0;
    while i < n
        invariant
            n == s@.len(),
            i <= n,
            out@ =~= replace_char_spec(s@, from, '_').subrange(0, i as int),
            "_"@ =~= seq!['_'],
        decreases n - i,
    {
        if s.get_char(i) == from {
            out.append("_");
        } else {
            let piece = s.substring_char(i, i + 1);
            out.append(piece);
        }
        proof {
            assert(replace_char_spec(s@, from, '_').subrange(0, i + 1) =~= replace_char_spec(
                s@,
                from,
                '_',
            ).subrange(0, i as int).push(if s@[i as int] == from {
                '_'
            } else {
                s@[i as int]
            }));
        }
        i += 1;
    }
    proof {
        assert(replace_char_spec(s@, from, '_').subrange(0, n as int) =~= replace_char_spec(
            s@,
            from,
            '_',
        ));
    }
    out
}

/// Where `c` does not occur, `last_index_of` is -1.
pub proof fn lemma_last_index_of_absent(s: Seq<char>, c: char)
    requires
        forall|j: int| 0 <= j < s.len() ==> s[j] != c,
    ensures
        last_index_of(s, c) == -1,
    decreases s.len(),
{
    if s.len() > 0 {
        let dl = s.drop_last();
        assert(forall|j: int| 0 <= j < dl.len() ==> dl[j] == s[j]);
        lemma_last_index_of_absent(dl, c);
    }
}

/// Where `c` occurs at `k` and nowhere later, `last_index_of` is `k`.
pub proof fn lemma_last_index_of_at(s: Seq<char>, c: char, k: int)
    requires
        0 <= k < s.len(),
        s[k] == c,
        forall|j: int| k < j < s.len() ==> s[j] != c,
    ensures
        last_index_of(s, c) == k,
    decreases s.len(),
{
    if k < s.len() - 1 {
        let dl = s.drop_last();
        assert(forall|j: int| 0 <= j < dl.len() ==> dl[j] == s[j]);
        lemma_last_index_of_at(dl, c, k);
    }
}

/// `last_index_of` over a concatenation: the last occurrence in `b` when
/// there is one, shifted; the last occurrence in `a` otherwise.
pub proof fn lemma_last_index_of_concat(a: Seq<char>, b: Seq<char>, c: char)
    ensures
        last_index_of(a + b, c) == if last_index_of(b, c) >= 0 {
            a.len() + last_index_of(b, c)
        } else {
            last_index_of(a, c)
        },
    decreases b.len(),
{
    lemma_last_index_of(b, c);
    if b.len() == 0 {
        assert(a + b =~= a);
    } else {
        let ab = a + b;
        assert(ab[ab.len() - 1] == b[b.len() - 1]);
        if b[b.len() - 1] == c {
            assert(last_index_of(b, c) == b.len() - 1);
        } else {
            assert(ab.drop_last() =~= a + b.drop_last());
            lemma_last_index_of_concat(a, b.drop_last(), c);
        }
    }
}

/// True when `sep` occurs in `s` at position `i`.
pub open spec fn match_at(s: Seq<char>, sep: Seq<char>, i: int) -> bool {
    0 <= i && i + sep.len() <= s.len() && s.subrange(i, i + sep.len()) == sep
}

/// Index of the leftmost occurrence of `sep` in `s`, or -1 when none.
pub open spec fn find_sep(s: Seq<char>, sep: Seq<char>) -> int
    decreases s.len(),
{
    if sep.len() == 0 || s.len() < sep.len() {
        -1
    } else if s.subrange(0, sep.len() as int) == sep {
        0
    } else {
        let r = find_sep(s.subrange(1, s.len() as int), sep);
        if r == -1 {
            -1
        } else {
            r + 1
        }
    }
}

/// The pieces of `s` between the non-overlapping, leftmost-first occurrences
/// of `sep`; a single piece when `sep` does not occur.
pub open spec fn split_spec(s: Seq<char>, sep: Seq<char>) -> Seq<Seq<char>>
    decreases s.len(),
{
    if sep.len() == 0 {
        seq![s]
    } else {
        let f = find_sep(s, sep);
        if 0 <= f && f + sep.len() <= s.len() {
            seq![s.subrange(0, f)] + split_spec(s.subrange(f + sep.len(), s.len() as int), sep)
        } else {
            seq![s]
        }
    }
}

/// `find_sep` points at the leftmost occurrence of `sep`, and at none when
/// it returns -1.
pub proof fn lemma_find_sep(s: Seq<char>, sep: Seq<char>)
    requires
        sep.len() >= 1,
    ensures
        -1 <= find_sep(s, sep),
        find_sep(s, sep) == -1 ==> forall|i: int| !match_at(s, sep, i),
        find_sep(s, sep) >= 0 ==> match_at(s, sep, find_sep(s, sep)),
        forall|i: int| 0 <= i < find_sep(s, sep) ==> !match_at(s, sep, i),
    decreases s.len(),
{
    if s.len() < sep.len() {
        assert(forall|i: int| !match_at(s, sep, i));
    } else if s.subrange(0, sep.len() as int) == sep {
        assert(match_at(s, sep, 0));
    } else {
        let s1 = s.subrange(1, s.len() as int);
        lemma_find_sep(s1, sep);
        let r = find_sep(s1, sep);
        assert forall|i: int| 1 <= i implies match_at(s, sep, i) == match_at(s1, sep, i - 1) by {
            if i + sep.len() <= s.len() {
                assert(s.subrange(i, i + sep.len()) =~= s1.subrange(i - 1, i - 1 + sep.len()));
            }
        }
        assert(!match_at(s, sep, 0));
        if r == -1 {
            assert forall|i: int| !match_at(s, sep, i) by {
                if i >= 1 {
                    assert(!match_at(s1, sep, i - 1));
                }
            }
        } else {
            assert(match_at(s1, sep, r));
            assert(match_at(s, sep, r + 1));
            assert forall|i: int| 0 <= i < r + 1 implies !match_at(s, sep, i) by {
                if i >= 1 {
                    assert(!match_at(s1, sep, i - 1));
                }
            }
        }
    }
}

/// True when `sep` occurs in `s` at position `at`; decided character by
/// character.
fn is_match_at(s: &str, sep: &str, at: usize) -> (r: bool)
    requires
        at + sep@.len() <= s@.len(),
        s@.len() <= usize::MAX,
    ensures
        r == match_at(s@, sep@, at as int),
{
    let m = sep.unicode_len();
    let mut k: usize = 0;
    while k < m
        invariant
            at + m <= s@.len(),
            s@.len() <= usize::MAX,
            m == sep@.len(),
            k <= m,
            forall|j: int| 0 <= j < k ==> s@[at + j] == sep@[j],
        decreases m - k,
    {
        if s.get_char(at + k) != sep.get_char(k) {
            proof {
                assert(s@.subrange(at as int, at + m)[k as int] == s@[at + k]);
            }
            return false;
        }
        k += 1;
    }
    proof {
        assert(s@.subrange(at as int, at + m) =~= sep@);
    }
    true
}

/// Position of the first occurrence of `sep` in `s` at or after `from`.
fn find_sep_from(s: &str, sep: &str, from: usize) -> (r: Option<usize>)
    requires
        sep@.len() >= 1,
        from <= s@.len(),
    ensures
        match r {
            Some(i) => from <= i && match_at(s@, sep@, i as int) && forall|j: int|
                from <= j < i ==> !match_at(s@, sep@, j),
            None => forall|j: int| from <= j ==> !match_at(s@, sep@, j),
        },
{
    let n = s.unicode_len();
    let m = sep.unicode_len();
    if m > n || from > n - m {
        return None;
    }
    let mut i: usize = from;
    while i <= n - m
        invariant
            m >= 1,
            m <= n,
            n == s@.len(),
            m == sep@.len(),
            from <= i,
            i <= n - m + 1,
            forall|j: int| from <= j < i ==> !match_at(s@, sep@, j),
        decreases n - i,
    {
        if is_match_at(s, sep, i) {
            return Some(i);
        }
        i += 1;
    }
    None
}

/// Splits a string slice (`&str`) by another string
/// slice and get a vector back.
pub fn split_and_vectorize<'a>(string_to_split: &'a str, splitter: &str) -> (r: Vec<&'a str>)
    requires
        splitter@.len() >= 1,
    ensures
        r.deep_view() == split_spec(string_to_split@, splitter@),
{
    let n = string_to_split.unicode_len();
    let m = splitter.unicode_len();
    let mut parts: Vec<&'a str> = Vec::new();
    let mut start: usize = 0;
    proof {
        assert(string_to_split@.subrange(0, n as int) =~= string_to_split@);
        assert(parts.deep_view() + split_spec(string_to_split@, splitter@) =~= split_spec(
            string_to_split@,
            splitter@,
        ));
    }
    loop
        invariant
            m >= 1,
            m == splitter@.len(),
            n == string_to_split@.len(),
            start <= n,
            parts.deep_view() + split_spec(string_to_split@.subrange(start as int, n as int), splitter@)
                =~= split_spec(string_to_split@, splitter@),
        decreases n - start,
    {
        let ghost rem = string_to_split@.subrange(start as int, n as int);
        match find_sep_from(string_to_split, splitter, start) {
            Some(i) => {
                let piece = string_to_split.substring_char(start, i);
                proof {
                    lemma_find_sep(rem, splitter@);
                    let k = i - start;
                    assert forall|j: int| 0 <= j && j + splitter@.len() <= rem.len() implies
                        match_at(rem, splitter@, j) == match_at(string_to_split@, splitter@, start + j) by {
                        assert(rem.subrange(j, j + splitter@.len()) =~= string_to_split@.subrange(
                            start + j,
                            start + j + splitter@.len(),
                        ));
                    }
                    assert(match_at(rem, splitter@, k));
                    assert forall|j: int| 0 <= j < k implies !match_at(rem, splitter@, j) by {
                        assert(!match_at(string_to_split@, splitter@, start + j));
                    }
                    let f = find_sep(rem, splitter@);
                    if f == -1 {
                        assert(!match_at(rem, splitter@, k));
                        assert(false);
                    }
                    if 0 <= f < k {
                        assert(match_at(rem, splitter@, f));
                        assert(false);
                    }
                    if f > k {
                        assert(!match_at(rem, splitter@, k));
                        assert(false);
                    }
                    assert(find_sep(rem, splitter@) == k);
                    assert(rem.subrange(0, k) =~= string_to_split@.subrange(start as int, i as int));
                    assert(rem.subrange(k + splitter@.len(), rem.len() as int)
                        =~= string_to_split@.subrange(i + m, n as int));
                    assert(split_spec(rem, splitter@) == seq![piece@] + split_spec(
                        string_to_split@.subrange(i + m, n as int),
                        splitter@,
                    ));
                }
                parts.push(piece);
                proof {
                    assert(parts.deep_view() =~= parts.deep_view().subrange(
                        0,
                        parts.deep_view().len() - 1,
                    ).push(piece@));
                    assert(parts.deep_view() + split_spec(
                        string_to_split@.subrange(i + m, n as int),
                        splitter@,
                    ) =~= split_spec(string_to_split@, splitter@));
                }
                start = i + m;
            },
            None => {
                let piece = string_to_split.substring_char(start, n);
                proof {
                    lemma_find_sep(rem, splitter@);
                    if find_sep(rem, splitter@) >= 0 {
                        let f = find_sep(rem, splitter@);
                        assert(match_at(rem, splitter@, f));
                        assert(rem.subrange(f, f + splitter@.len()) =~= string_to_split@.subrange(
                            start + f,
                            start + f + splitter@.len(),
                        ));
                        assert(match_at(string_to_split@, splitter@, start + f));
                        assert(false);
                    }
                    assert(split_spec(rem, splitter@) == seq![rem]);
                    assert(piece@ == rem);
                }
                parts.push(piece);
                proof {
                    assert(parts.deep_view() =~= parts.deep_view().subrange(
                        0,
                        parts.deep_view().len() - 1,
                    ).push(rem));
                    assert(parts.deep_view() =~= split_spec(string_to_split@, splitter@));
                }
                return parts;
            },
        }
    }
}

} // verus!
