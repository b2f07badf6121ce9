use vstd::prelude::*;

verus! {

/// `s` with every occurrence of `c` removed.
pub open spec fn strip_char(s: Seq<char>, c: char) -> Seq<char>
    decreases s.len(),
{
    if s.len() == 0 {
        Seq::empty()
    } else {
        let rest = strip_char(s.drop_last(), c);
        if s.last() == c {
            rest
        } else {
            rest.push(s.last())
        }
    }
}

/// Length of `s` once every trailing `c` is cut off.
pub open spec fn trimmed_len(s: Seq<char>, c: char) -> nat
    decreases s.len(),
{
    if s.len() > 0 && s.last() == c {
        trimmed_len(s.drop_last(), c)
    } else {
        s.len()
    }
}

/// `s` with every trailing `c` cut off.
pub open spec fn trim_end_char(s: Seq<char>, c: char) -> Seq<char> {
    s.take(trimmed_len(s, c) as int)
}

/// Index of the last `c` in `s`, or -1 when `s` holds none.
pub open spec fn last_index_of(s: Seq<char>, c: char) -> int
    decreases s.len(),
{
    if s.len() == 0 {
        -1
    } else if s.last() == c {
        s.len() - 1
    } else {
        last_index_of(s.drop_last(), c)
    }
}

/// The part of `s` after its last `c`; all of `s` when it holds none.
pub open spec fn after_last(s: Seq<char>, c: char) -> Seq<char> {
    s.subrange(last_index_of(s, c) + 1, s.len() as int)
}

/// Whether `pattern` occurs in `s` at position `i`.
pub open spec fn occurs_at(s: Seq<char>, pattern: Seq<char>, i: int) -> bool {
    0 <= i && i + pattern.len() <= s.len() && s.subrange(i, i + pattern.len()) == pattern
}

/// Whether `pattern` occurs anywhere in `s`.
pub open spec fn contains_seq(s: Seq<char>, pattern: Seq<char>) -> bool {
    exists|i: int| occurs_at(s, pattern, i)
}

/// The last index of `c` lies within `s` (or is -1), holds `c`, and no `c`
/// follows it.
pub proof fn lemma_last_index_of_bounds(s: Seq<char>, c: char)
    ensures
        -1 <= last_index_of(s, c) < s.len(),
        last_index_of(s, c) >= 0 ==> s[last_index_of(s, c)] == c,
        forall|j: int| last_index_of(s, c) < j < s.len() ==> s[j] != c,
    decreases s.len(),
{
    if s.len() > 0 && s.last() != c {
        lemma_last_index_of_bounds(s.drop_last(), c);
        assert forall|j: int| last_index_of(s, c) < j < s.len() implies s[j] != c by {
            if j < s.len() - 1 {
                assert(s.drop_last()[j] == s[j]);
            }
        }
    }
}

proof fn lemma_trimmed_len_bounds(s: Seq<char>, c: char)
    ensures
        trimmed_len(s, c) <= s.len(),
        forall|j: int| trimmed_len(s, c) <= j < s.len() ==> s[j] == c,
        trimmed_len(s, c) > 0 ==> s[trimmed_len(s, c) - 1] != c,
    decreases s.len(),
{
    if s.len() > 0 && s.last() == c {
        lemma_trimmed_len_bounds(s.drop_last(), c);
        assert forall|j: int| trimmed_len(s, c) <= j < s.len() implies s[j] == c by {
            if j < s.len() - 1 {
                assert(s.drop_last()[j] == s[j]);
            }
        }
        if trimmed_len(s, c) > 0 {
            assert(s.drop_last()[trimmed_len(s, c) - 1] == s[trimmed_len(s, c) - 1]);
        }
    }
}

/// Copies `s` leaving out every `c`.
pub fn remove_char(s: &str, c: char) -> (res: String)
    ensures
        res@ == strip_char(s@, c),
{
    let n = s.unicode_len();
    let mut res = String::new();
    let mut i: usize = 0;
    while i < n
        invariant
            n == s@.len(),
            i <= n,
            res@ == strip_char(s@.take(i as int), c),
        decreases n - i,
    {
        let ch = s.get_char(i);
        proof {
            assert(s@.take(i + 1).drop_last() == s@.take(i as int));
            assert(s@.take(i + 1).last() == ch);
        }
        if ch != c {
            let piece = s.substring_char(i, i + 1);
            proof {
                assert(piece@ == seq![ch]);
            }
            res.append(piece);
        }
        i = i + 1;
    }
    proof {
        assert(s@.take(n as int) == s@);
    }
    res
}

/// Copies `s` without its trailing run of `c`.
pub fn trim_end(s: &str, c: char) -> (res: String)
    ensures
        res@ == trim_end_char(s@, c),
{
    let n = s.unicode_len();
    let mut end: usize = n;
    proof {
        lemma_trimmed_len_bounds(s@, c);
        assert(s@.take(n as int) == s@);
    }
    while end > 0 && s.get_char(end - 1) == c
        invariant
            n == s@.len(),
            end <= n,
            trimmed_len(s@.take(end as int), c) == trimmed_len(s@, c),
        decreases end,
    {
        proof {
            assert(s@.take(end as int).drop_last() == s@.take(end - 1));
        }
        end = end - 1;
    }
    proof {
        assert(s@.take(n as int) == s@);
        if end > 0 {
            assert(s@.take(end as int).last() != c);
        }
        assert(trimmed_len(s@.take(end as int), c) == end);
    }
    s.substring_char(0, end).to_owned()
}

/// Index of the last `c` in `s`, if any.
pub fn find_last(s: &str, c: char) -> (idx: Option<usize>)
    ensures
        match idx {
            Some(i) => i == last_index_of(s@, c),
            None => last_index_of(s@, c) == -1,
        },
{
    let n = s.unicode_len();
    let mut end: usize = n;
    proof {
        assert(s@.take(n as int) == s@);
    }
    while end > 0 && s.get_char(end - 1) != c
        invariant
            n == s@.len(),
            end <= n,
            last_index_of(s@.take(end as int), c) == last_index_of(s@, c),
        decreases end,
    {
        proof {
            assert(s@.take(end as int).drop_last() == s@.take(end - 1));
        }
        end = end - 1;
    }
    if end == 0 {
        proof {
            assert(s@.take(0) == Seq::<char>::empty());
        }
        None
    } else {
        Some(end - 1)
    }
}

/// The part of `s` after its last `c`; all of `s` when it holds none.
pub fn text_after_last(s: &str, c: char) -> (res: String)
    ensures
        res@ == after_last(s@, c),
{
    proof {
        lemma_last_index_of_bounds(s@, c);
    }
    let n = s.unicode_len();
    match find_last(s, c) {
        Some(i) => s.substring_char(i + 1, n).to_owned(),
        None => s.substring_char(0, n).to_owned(),
    }
}

/// Whether `pattern` occurs in `s`.
pub fn contains_text(s: &str, pattern: &str) -> (found: bool)
    ensures
        found == contains_seq(s@, pattern@),
{
    let n = s.unicode_len();
    let m = pattern.unicode_len();
    if m > n {
        proof {
            assert forall|i: int| !occurs_at(s@, pattern@, i) by {}
        }
        return false;
    }
    let mut i: usize = 0;
    while i <= n - m
        invariant
            n == s@.len(),
            m == pattern@.len(),
            m <= n,
            i <= n - m + 1,
            forall|k: int| 0 <= k < i ==> !occurs_at(s@, pattern@, k),
        decreases n - i,
    {
        let mut j: usize = 0;
        while j < m && s.get_char(i + j) == pattern.get_char(j)
            invariant
                n == s@.len(),
                m == pattern@.len(),
                i + m <= n,
                j <= m,
                forall|k: int| 0 <= k < j ==> s@[i + k] == pattern@[k],
            decreases m - j,
        {
            j = j + 1;
        }
        if j == m {
            proof {
                assert(s@.subrange(i as int, i + m) =~= pattern@);
                assert(occurs_at(s@, pattern@, i as int));
            }
            return true;
        }
        proof {
            assert(s@[i + j] != pattern@[j as int]);
            assert(s@.subrange(i as int, i + m)[j as int] != pattern@[j as int]);
        }
        i = i + 1;
    }
    proof {
        assert forall|k: int| !occurs_at(s@, pattern@, k) by {
            if 0 <= k && k + m <= n {
                assert(k < i);
            }
        }
    }
    false
}

} // verus!
