//! Character-level utilities shared by every section decoder: equality,
//! searching, splitting and trimming of text, each tied to a
//! specification-level function over `Seq<char>`.

use vstd::prelude::*;

verus! {

/// The whitespace characters that line trimming removes.
pub open spec fn is_ws(c: char) -> bool {
    c == ' ' || c == '\t' || c == '\r' || c == '\n'
}

/// Index of the first occurrence of `c` in `s`, if any.
pub open spec fn spec_find_char(s: Seq<char>, c: char) -> Option<int>
    decreases s.len(),
{
    if s.len() == 0 {
        None
    } else if s[0] == c {
        Some(0int)
    } else {
        match spec_find_char(s.skip(1), c) {
            None => None,
            Some(i) => Some(i + 1),
        }
    }
}

/// `spec_find_char` returns exactly the first occurrence.
pub proof fn lemma_find_char(s: Seq<char>, c: char)
    ensures
        match spec_find_char(s, c) {
            Some(i) => 0 <= i < s.len() && s[i] == c && (forall|j: int| 0 <= j < i ==> s[j] != c),
            None => forall|j: int| 0 <= j < s.len() ==> s[j] != c,
        },
    decreases s.len(),
{
    if s.len() > 0 && s[0] != c {
        lemma_find_char(s.skip(1), c);
        assert(forall|j: int| 1 <= j < s.len() ==> s[j] == s.skip(1)[j - 1]);
    }
}

/// Any index with the first-occurrence property is the one `spec_find_char` returns.
pub proof fn lemma_find_char_unique(s: Seq<char>, c: char, i: int)
    requires
        0 <= i <= s.len(),
        forall|j: int| 0 <= j < i ==> s[j] != c,
        i < s.len() ==> s[i] == c,
    ensures
        spec_find_char(s, c) == if i == s.len() {
            None::<int>
        } else {
            Some(i)
        },
    decreases s.len(),
{
    if s.len() > 0 && s[0] != c {
        lemma_find_char_unique(s.skip(1), c, i - 1);
    }
}

/// The pieces of `s` between occurrences of the separator `c`; always at
/// least one piece, and one more piece per separator.
pub open spec fn spec_split(s: Seq<char>, c: char) -> Seq<Seq<char>>
    decreases s.len(),
{
    if s.len() == 0 {
        seq![Seq::<char>::empty()]
    } else if s[0] == c {
        seq![Seq::<char>::empty()] + spec_split(s.skip(1), c)
    } else {
        let rest = spec_split(s.skip(1), c);
        seq![seq![s[0]] + rest[0]] + rest.skip(1)
    }
}

pub proof fn lemma_split_len(s: Seq<char>, c: char)
    ensures
        spec_split(s, c).len() >= 1,
    decreases s.len(),
{
    if s.len() > 0 {
        lemma_split_len(s.skip(1), c);
    }
}

/// Splitting reads up to the first separator and recurses past it.
pub proof fn lemma_split_at_first(s: Seq<char>, c: char, i: int)
    requires
        0 <= i <= s.len(),
        forall|j: int| 0 <= j < i ==> s[j] != c,
        i < s.len() ==> s[i] == c,
    ensures
        spec_split(s, c) == if i == s.len() {
            seq![s]
        } else {
            seq![s.take(i)] + spec_split(s.skip(i + 1), c)
        },
    decreases i,
{
    lemma_split_len(s, c);
    if i == 0 {
        if s.len() == 0 {
            assert(s =~= Seq::<char>::empty());
            assert(spec_split(s, c) =~= seq![s]);
        } else {
            assert(s.take(0) =~= Seq::<char>::empty());
            assert(s.skip(1) =~= s.skip(i + 1));
        }
    } else {
        // s[0] != c, so the definition prepends s[0] to the first piece.
        let rest = spec_split(s.skip(1), c);
        lemma_split_len(s.skip(1), c);
        lemma_split_at_first(s.skip(1), c, i - 1);
        if i == s.len() {
            assert(rest == seq![s.skip(1)]);
            assert(seq![s[0]] + s.skip(1) =~= s);
            assert(seq![seq![s[0]] + rest[0]] + rest.skip(1) =~= seq![s]);
        } else {
            assert(rest == seq![s.skip(1).take(i - 1)] + spec_split(s.skip(1).skip(i), c));
            assert(s.skip(1).skip(i) =~= s.skip(i + 1));
            assert(seq![s[0]] + s.skip(1).take(i - 1) =~= s.take(i));
            assert(rest.skip(1) =~= spec_split(s.skip(i + 1), c));
            assert(seq![seq![s[0]] + rest[0]] + rest.skip(1) =~= seq![s.take(i)] + spec_split(
                s.skip(i + 1),
                c,
            ));
        }
    }
}

/// True iff the views of `a` and `b` are the same character sequence.
pub fn str_eq(a: &str, b: &str) -> (r: bool)
    ensures
        r == (a@ == b@),
{
    let na = a.unicode_len();
    let nb = b.unicode_len();
    if na != nb {
        assert(a@ != b@);
        return false;
    }
    let mut i: usize = 0;
    while i < na
        invariant
            na == a@.len() == b@.len(),
            0 <= i <= na,
            forall|j: int| 0 <= j < i ==> a@[j] == b@[j],
        decreases na - i,
    {
        if a.get_char(i) != b.get_char(i) {
            return false;
        }
        i += 1;
    }
    proof {
        assert(a@ =~= b@);
    }
    true
}

/// Index of the first occurrence of `c` in `s`, scanning left to right.
pub fn find_char(s: &str, c: char) -> (r: Option<usize>)
    ensures
        r == match spec_find_char(s@, c) {
            None => None::<usize>,
            Some(i) => Some(i as usize),
        },
{
    let n = s.unicode_len();
    let mut i: usize = 0;
    while i < n
        invariant
            n == s@.len(),
            0 <= i <= n,
            forall|j: int| 0 <= j < i ==> s@[j] != c,
        decreases n - i,
    {
        if s.get_char(i) == c {
            proof {
                lemma_find_char_unique(s@, c, i as int);
            }
            return Some(i);
        }
        i += 1;
    }
    proof {
        lemma_find_char_unique(s@, c, n as int);
    }
    None
}

/// Splits `s` at every occurrence of `sep`.
pub fn split_str<'a>(s: &'a str, sep: char) -> (res: Vec<&'a str>)
    ensures
        res.deep_view() == spec_split(s@, sep),
{
    let n = s.unicode_len();
    let mut res: Vec<&str> = Vec::new();
    let mut start: usize = 0;
    let mut i: usize = 0;
    proof {
        assert(s@.skip(0) =~= s@);
        assert(res.deep_view() =~= Seq::<Seq<char>>::empty());
        assert(res.deep_view() + spec_split(s@, sep) =~= spec_split(s@, sep));
    }
    while i < n
        invariant
            n == s@.len(),
            0 <= start <= i <= n,
            forall|j: int| start <= j < i ==> s@[j] != sep,
            spec_split(s@, sep) == res.deep_view() + spec_split(s@.skip(start as int), sep),
        decreases n - i,
    {
        if s.get_char(i) == sep {
            let piece = s.substring_char(start, i);
            proof {
                let t = s@.skip(start as int);
                assert(forall|j: int|
                    0 <= j < i - start ==> t[j] == s@[j + start] && s@[j + start] != sep);
                lemma_split_at_first(t, sep, i - start);
                assert(t.take(i - start) =~= s@.subrange(start as int, i as int));
                assert(t.skip(i - start + 1) =~= s@.skip(i + 1));
                assert(res.deep_view().push(piece@) =~= res.deep_view() + seq![piece@]);
                assert(res.deep_view() + (seq![piece@] + spec_split(s@.skip(i + 1), sep))
                    =~= (res.deep_view() + seq![piece@]) + spec_split(s@.skip(i + 1), sep));
            }
            res.push(piece);
            start = i + 1;
        }
        i += 1;
    }
    let piece = s.substring_char(start, n);
    proof {
        let t = s@.skip(start as int);
        assert(forall|j: int| 0 <= j < t.len() ==> t[j] == s@[j + start] && s@[j + start] != sep);
        lemma_split_at_first(t, sep, t.len() as int);
        assert(t =~= s@.subrange(start as int, n as int));
        assert(res.deep_view().push(piece@) =~= res.deep_view() + seq![piece@]);
    }
    res.push(piece);
    res
}

/// Removes leading whitespace.
pub open spec fn spec_trim_start(s: Seq<char>) -> Seq<char>
    decreases s.len(),
{
    if s.len() > 0 && is_ws(s[0]) {
        spec_trim_start(s.skip(1))
    } else {
        s
    }
}

/// Removes trailing whitespace.
pub open spec fn spec_trim_end(s: Seq<char>) -> Seq<char>
    decreases s.len(),
{
    if s.len() > 0 && is_ws(s.last()) {
        spec_trim_end(s.drop_last())
    } else {
        s
    }
}

/// Removes whitespace from both ends.
pub open spec fn spec_trim(s: Seq<char>) -> Seq<char> {
    spec_trim_end(spec_trim_start(s))
}

proof fn lemma_trim_start_skip(s: Seq<char>, a: int)
    requires
        0 <= a <= s.len(),
        forall|j: int| 0 <= j < a ==> is_ws(s[j]),
        a < s.len() ==> !is_ws(s[a]),
    ensures
        spec_trim_start(s) == s.skip(a),
    decreases a,
{
    if a == 0 {
        assert(s.skip(0) =~= s);
    } else {
        lemma_trim_start_skip(s.skip(1), a - 1);
        assert(s.skip(1).skip(a - 1) =~= s.skip(a));
    }
}

proof fn lemma_trim_end_take(s: Seq<char>, b: int)
    requires
        0 <= b <= s.len(),
        forall|j: int| b <= j < s.len() ==> is_ws(s[j]),
        b > 0 ==> !is_ws(s[b - 1]),
    ensures
        spec_trim_end(s) == s.take(b),
    decreases s.len() - b,
{
    if b == s.len() {
        assert(s.take(b) =~= s);
    } else {
        lemma_trim_end_take(s.drop_last(), b);
        assert(s.drop_last().take(b) =~= s.take(b));
    }
}

/// Whether `c` is whitespace, decided executably.
pub fn is_ws_char(c: char) -> (r: bool)
    ensures
        r == is_ws(c),
{
    c == ' ' || c == '\t' || c == '\r' || c == '\n'
}

/// Returns `s` with whitespace removed from both ends.
pub fn trim_str<'a>(s: &'a str) -> (res: &'a str)
    ensures
        res@ == spec_trim(s@),
{
    let n = s.unicode_len();
    let mut a: usize = 0;
    while a < n && is_ws_char(s.get_char(a))
        invariant
            n == s@.len(),
            0 <= a <= n,
            forall|j: int| 0 <= j < a ==> is_ws(s@[j]),
        decreases n - a,
    {
        a += 1;
    }
    let mut b: usize = n;
    while b > a && is_ws_char(s.get_char(b - 1))
        invariant
            n == s@.len(),
            0 <= a <= b <= n,
            forall|j: int| 0 <= j < a ==> is_ws(s@[j]),
            a < n ==> !is_ws(s@[a as int]),
            forall|j: int| b <= j < n ==> is_ws(s@[j]),
        decreases b,
    {
        b -= 1;
    }
    let res = s.substring_char(a, b);
    proof {
        lemma_trim_start_skip(s@, a as int);
        let t = s@.skip(a as int);
        assert(forall|j: int| b - a <= j < t.len() ==> t[j] == s@[j + a] && is_ws(s@[j + a]));
        if b > a {
            assert(t[b - a - 1] == s@[b - 1]);
        }
        lemma_trim_end_take(t, b - a);
        assert(t.take(b - a) =~= s@.subrange(a as int, b as int));
    }
    res
}

/// True iff `c` occurs in `s`.
pub fn contains_char(s: &str, c: char) -> (r: bool)
    ensures
        r == s@.contains(c),
{
    match find_char(s, c) {
        Some(i) => {
            proof {
                lemma_find_char(s@, c);
            }
            true
        },
        None => {
            proof {
                lemma_find_char(s@, c);
            }
            false
        },
    }
}

/// `pat` occurs in `s` starting at position `i`.
pub open spec fn spec_match_at(s: Seq<char>, pat: Seq<char>, i: int) -> bool {
    0 <= i && i + pat.len() <= s.len() && s.subrange(i, i + pat.len()) == pat
}

/// `pat` occurs somewhere in `s`.
pub open spec fn spec_contains_str(s: Seq<char>, pat: Seq<char>) -> bool {
    exists|i: int| spec_match_at(s, pat, i)
}

/// True iff the character sequence of `pat` occurs inside `s`.
pub fn contains_str(s: &str, pat: &str) -> (r: bool)
    ensures
        r == spec_contains_str(s@, pat@),
{
    let n = s.unicode_len();
    let m = pat.unicode_len();
    if m > n {
        assert(!spec_contains_str(s@, pat@));
        return false;
    }
    let mut i: usize = 0;
    while i <= n - m
        invariant
            n == s@.len(),
            m == pat@.len(),
            m <= n,
            0 <= i <= n - m + 1,
            forall|k: int| 0 <= k < i ==> !spec_match_at(s@, pat@, k),
        decreases n - i,
    {
        let mut j: usize = 0;
        let mut all: bool = true;
        while j < m
            invariant
                n == s@.len(),
                m == pat@.len(),
                0 <= i <= n - m,
                0 <= j <= m,
                all <==> (forall|k: int| 0 <= k < j ==> s@[i + k] == pat@[k]),
            decreases m - j,
        {
            if s.get_char(i + j) != pat.get_char(j) {
                assert(s@[i + j] != pat@[j as int]);
                all = false;
                j = m;
            } else {
                assert(s@[i + j] == pat@[j as int]);
                j += 1;
            }
        }
        if all {
            proof {
                assert(s@.subrange(i as int, i + pat@.len()) =~= pat@);
                assert(spec_match_at(s@, pat@, i as int));
            }
            return true;
        }
        proof {
            if spec_match_at(s@, pat@, i as int) {
                assert(forall|k: int|
                    0 <= k < m ==> #[trigger] s@.subrange(i as int, i + pat@.len())[k] == s@[i
                        + k]);
                assert(false);
            }
        }
        i += 1;
    }
    proof {
        if spec_contains_str(s@, pat@) {
            let k = choose|k: int| spec_match_at(s@, pat@, k);
            assert(!spec_match_at(s@, pat@, k));
        }
    }
    false
}

} // verus!

verus! {

/// Trimming leaves a string without whitespace at its ends unchanged.
pub proof fn lemma_trim_id(s: Seq<char>)
    requires
        s.len() > 0 ==> !is_ws(s[0]) && !is_ws(s.last()),
    ensures
        spec_trim(s) == s,
{
    lemma_trim_start_skip_pub(s, 0);
    assert(s.skip(0) =~= s);
    lemma_trim_end_take_pub(s, s.len() as int);
    assert(s.take(s.len() as int) =~= s);
}

pub proof fn lemma_trim_start_skip_pub(s: Seq<char>, a: int)
    requires
        0 <= a <= s.len(),
        forall|j: int| 0 <= j < a ==> is_ws(s[j]),
        a < s.len() ==> !is_ws(s[a]),
    ensures
        spec_trim_start(s) == s.skip(a),
    decreases a,
{
    if a == 0 {
        assert(s.skip(0) =~= s);
    } else {
        lemma_trim_start_skip_pub(s.skip(1), a - 1);
        assert(s.skip(1).skip(a - 1) =~= s.skip(a));
    }
}

pub proof fn lemma_trim_end_take_pub(s: Seq<char>, b: int)
    requires
        0 <= b <= s.len(),
        forall|j: int| b <= j < s.len() ==> is_ws(s[j]),
        b > 0 ==> !is_ws(s[b - 1]),
    ensures
        spec_trim_end(s) == s.take(b),
    decreases s.len() - b,
{
    if b == s.len() {
        assert(s.take(b) =~= s);
    } else {
        lemma_trim_end_take_pub(s.drop_last(), b);
        assert(s.drop_last().take(b) =~= s.take(b));
    }
}

/// `s` starts with the characters of `pat`.
pub open spec fn spec_starts_with(s: Seq<char>, pat: Seq<char>) -> bool {
    s.len() >= pat.len() && s.take(pat.len() as int) == pat
}

/// True iff `s` starts with `pat`.
pub fn starts_with(s: &str, pat: &str) -> (r: bool)
    ensures
        r == spec_starts_with(s@, pat@),
{
    let n = s.unicode_len();
    let m = pat.unicode_len();
    if m > n {
        return false;
    }
    let mut j: usize = 0;
    while j < m
        invariant
            n == s@.len(),
            m == pat@.len(),
            m <= n,
            0 <= j <= m,
            forall|k: int| 0 <= k < j ==> s@[k] == pat@[k],
        decreases m - j,
    {
        if s.get_char(j) != pat.get_char(j) {
            assert(s@.take(m as int)[j as int] != pat@[j as int]);
            return false;
        }
        j += 1;
    }
    proof {
        assert(s@.take(m as int) =~= pat@);
    }
    true
}

} // verus!

verus! {

/// The pieces joined with `sep` between them.
pub open spec fn spec_join(parts: Seq<Seq<char>>, sep: char) -> Seq<char>
    decreases parts.len(),
{
    if parts.len() == 0 {
        Seq::<char>::empty()
    } else if parts.len() == 1 {
        parts[0]
    } else {
        parts[0] + seq![sep] + spec_join(parts.skip(1), sep)
    }
}

/// Splitting a join of separator-free pieces recovers the pieces.
pub proof fn lemma_split_join(parts: Seq<Seq<char>>, sep: char)
    requires
        parts.len() >= 1,
        forall|i: int, j: int|
            0 <= i < parts.len() && 0 <= j < parts[i].len() ==> #[trigger] parts[i][j] != sep,
    ensures
        spec_split(spec_join(parts, sep), sep) == parts,
    decreases parts.len(),
{
    let s = spec_join(parts, sep);
    if parts.len() == 1 {
        lemma_split_at_first(s, sep, s.len() as int);
        assert(spec_split(s, sep) =~= parts);
    } else {
        let head = parts[0];
        let rest = spec_join(parts.skip(1), sep);
        assert(s == head + seq![sep] + rest);
        assert(forall|j: int| 0 <= j < head.len() ==> s[j] == head[j] && #[trigger] head[j] != sep);
        assert(s[head.len() as int] == sep);
        lemma_split_at_first(s, sep, head.len() as int);
        assert(s.take(head.len() as int) =~= head);
        assert(s.skip(head.len() as int + 1) =~= rest);
        assert(forall|i: int, j: int|
            0 <= i < parts.skip(1).len() && 0 <= j < parts.skip(1)[i].len()
                ==> #[trigger] parts.skip(1)[i][j] == parts[i + 1][j]);
        lemma_split_join(parts.skip(1), sep);
        assert(seq![head] + parts.skip(1) =~= parts);
    }
}

/// The split pieces, each trimmed: how CSV-like section lines are tokenized.
pub open spec fn spec_split_trim(s: Seq<char>, sep: char) -> Seq<Seq<char>> {
    spec_split(s, sep).map(|i: int, p: Seq<char>| spec_trim(p))
}

/// Splits `s` at `sep` and trims each piece.
pub fn split_trim<'a>(s: &'a str, sep: char) -> (res: Vec<&'a str>)
    ensures
        res.deep_view() == spec_split_trim(s@, sep),
        res.len() >= 1,
{
    let raw = split_str(s, sep);
    let mut res: Vec<&str> = Vec::new();
    let mut i: usize = 0;
    while i < raw.len()
        invariant
            raw.deep_view() == spec_split(s@, sep),
            0 <= i <= raw.len(),
            res.len() == i,
            forall|k: int| 0 <= k < i ==> res.deep_view()[k] == spec_trim(raw.deep_view()[k]),
        decreases raw.len() - i,
    {
        let piece = trim_str(raw[i]);
        assert(piece@ == spec_trim(raw.deep_view()[i as int]));
        let ghost prev = res.deep_view();
        res.push(piece);
        proof {
            assert(res.deep_view() =~= prev.push(piece@));
        }
        i += 1;
    }
    proof {
        lemma_split_len(s@, sep);
        assert(res.deep_view() =~= spec_split_trim(s@, sep));
    }
    res
}

/// Trimming each piece of a join of already-trimmed pieces changes nothing.
pub proof fn lemma_split_trim_join(parts: Seq<Seq<char>>, sep: char)
    requires
        parts.len() >= 1,
        forall|i: int, j: int|
            0 <= i < parts.len() && 0 <= j < parts[i].len() ==> #[trigger] parts[i][j] != sep,
        forall|i: int|
            0 <= i < parts.len() ==> (#[trigger] parts[i].len() > 0 ==> !is_ws(parts[i][0])
                && !is_ws(parts[i].last())),
    ensures
        spec_split_trim(spec_join(parts, sep), sep) == parts,
{
    lemma_split_join(parts, sep);
    assert forall|i: int| 0 <= i < parts.len() implies #[trigger] spec_trim(parts[i])
        == parts[i] by {
        lemma_trim_id(parts[i]);
    }
    assert(spec_split_trim(spec_join(parts, sep), sep) =~= parts);
}

} // verus!

verus! {

/// Appending one more piece extends the join by a separator and the piece.
pub proof fn lemma_join_push(parts: Seq<Seq<char>>, p: Seq<char>, sep: char)
    requires
        parts.len() >= 1,
    ensures
        spec_join(parts.push(p), sep) == spec_join(parts, sep) + seq![sep] + p,
    decreases parts.len(),
{
    if parts.len() == 1 {
        let w = parts.push(p);
        assert(w.len() == 2);
        assert(w[0] == parts[0]);
        assert(w.skip(1) =~= seq![p]);
        assert(spec_join(w, sep) == w[0] + seq![sep] + spec_join(w.skip(1), sep));
    } else {
        lemma_join_push(parts.skip(1), p, sep);
        let w = parts.push(p);
        assert(w.skip(1) =~= parts.skip(1).push(p));
        assert(spec_join(w, sep) == w[0] + seq![sep] + spec_join(w.skip(1), sep));
        assert(w[0] == parts[0]);
        assert(parts[0] + seq![sep] + (spec_join(parts.skip(1), sep) + seq![sep] + p) =~= (parts[0]
            + seq![sep] + spec_join(parts.skip(1), sep)) + seq![sep] + p);
    }
}

} // verus!

verus! {

/// Splitting peels one separator-free piece off the front.
pub proof fn lemma_split_head(a: Seq<char>, rest: Seq<char>, sep: char)
    requires
        forall|j: int| 0 <= j < a.len() ==> #[trigger] a[j] != sep,
    ensures
        spec_split(a + seq![sep] + rest, sep) == seq![a] + spec_split(rest, sep),
{
    let s = a + seq![sep] + rest;
    assert(forall|j: int| 0 <= j < a.len() ==> s[j] == a[j]);
    assert(s[a.len() as int] == sep);
    lemma_split_at_first(s, sep, a.len() as int);
    assert(s.take(a.len() as int) =~= a);
    assert(s.skip(a.len() as int + 1) =~= rest);
}

} // verus!

verus! {

/// A character class closed over joining: if the separator and every piece
/// avoid a character and whitespace, so does the join.
pub proof fn lemma_join_all(parts: Seq<Seq<char>>, sep: char, bad: char)
    requires
        sep != bad,
        !is_ws(sep),
        forall|i: int, j: int|
            0 <= i < parts.len() && 0 <= j < parts[i].len() ==> #[trigger] parts[i][j] != bad
                && !is_ws(parts[i][j]),
    ensures
        forall|j: int|
            0 <= j < spec_join(parts, sep).len() ==> #[trigger] spec_join(parts, sep)[j] != bad
                && !is_ws(spec_join(parts, sep)[j]),
    decreases parts.len(),
{
    if parts.len() <= 1 {
    } else {
        assert(forall|i: int, j: int|
            0 <= i < parts.skip(1).len() && 0 <= j < parts.skip(1)[i].len()
                ==> #[trigger] parts.skip(1)[i][j] == parts[i + 1][j]);
        lemma_join_all(parts.skip(1), sep, bad);
        let s = spec_join(parts, sep);
        let rest = spec_join(parts.skip(1), sep);
        assert(s == parts[0] + seq![sep] + rest);
        assert forall|j: int| 0 <= j < s.len() implies #[trigger] s[j] != bad && !is_ws(s[j]) by {
            if j < parts[0].len() {
                assert(s[j] == parts[0][j]);
            } else if j == parts[0].len() {
                assert(s[j] == sep);
            } else {
                assert(s[j] == rest[j - parts[0].len() - 1]);
            }
        }
    }
}

} // verus!

verus! {

/// The join of at least one piece is as long as its first piece plus its
/// separators; in particular a join of non-empty token lists is non-empty
/// when its first piece is.
pub proof fn lemma_split_len_ge(parts: Seq<Seq<char>>, sep: char)
    requires
        parts.len() >= 1,
    ensures
        spec_join(parts, sep).len() >= parts[0].len(),
        parts.len() >= 2 ==> spec_join(parts, sep).len() > parts[0].len(),
{
    if parts.len() >= 2 {
        assert(spec_join(parts, sep) == parts[0] + seq![sep] + spec_join(parts.skip(1), sep));
    }
}

} // verus!

verus! {

/// Concatenation of character sequences is associative.
pub proof fn lemma_concat_assoc(a: Seq<char>, b: Seq<char>, c: Seq<char>)
    ensures
        (a + b) + c == a + (b + c),
{
    assert((a + b) + c =~= a + (b + c));
}

} // verus!

verus! {

/// No piece of a split contains the separator.
pub proof fn lemma_split_no_sep(s: Seq<char>, c: char)
    ensures
        forall|i: int, j: int|
            0 <= i < spec_split(s, c).len() && 0 <= j < spec_split(s, c)[i].len()
                ==> #[trigger] spec_split(s, c)[i][j] != c,
    decreases s.len(),
{
    if s.len() == 0 {
    } else if s[0] == c {
        lemma_split_no_sep(s.skip(1), c);
        let w = spec_split(s, c);
        let rest = spec_split(s.skip(1), c);
        assert forall|i: int, j: int|
            0 <= i < w.len() && 0 <= j < w[i].len() implies #[trigger] w[i][j] != c by {
            if i > 0 {
                assert(w[i] == rest[i - 1]);
            }
        }
    } else {
        lemma_split_no_sep(s.skip(1), c);
        let w = spec_split(s, c);
        let rest = spec_split(s.skip(1), c);
        lemma_split_len(s.skip(1), c);
        assert forall|i: int, j: int|
            0 <= i < w.len() && 0 <= j < w[i].len() implies #[trigger] w[i][j] != c by {
            if i == 0 {
                if j == 0 {
                    assert(w[0][0] == s[0]);
                } else {
                    assert(w[0][j] == rest[0][j - 1]);
                }
            } else {
                assert(w[i] == rest[i]);
            }
        }
    }
}

/// Trimming never adds characters: the trimmed string's characters all
/// stand in the original.
pub proof fn lemma_trim_chars(s: Seq<char>)
    ensures
        forall|j: int|
            0 <= j < spec_trim(s).len() ==> exists|k: int|
                0 <= k < s.len() && #[trigger] spec_trim(s)[j] == s[k],
{
    lemma_trim_start_suffix(s);
    let a = choose|a: int| 0 <= a <= s.len() && spec_trim_start(s) == s.skip(a);
    let t = s.skip(a);
    lemma_trim_end_prefix(t);
    let b = choose|b: int| 0 <= b <= t.len() && spec_trim_end(t) == t.take(b);
    assert forall|j: int| 0 <= j < spec_trim(s).len() implies exists|k: int|
        0 <= k < s.len() && #[trigger] spec_trim(s)[j] == s[k] by {
        assert(spec_trim(s)[j] == t.take(b)[j]);
        assert(t.take(b)[j] == t[j]);
        assert(t[j] == s[a + j]);
        assert(0 <= a + j < s.len() && spec_trim(s)[j] == s[a + j]);
    }
}

proof fn lemma_trim_start_suffix(s: Seq<char>)
    ensures
        exists|a: int| 0 <= a <= s.len() && spec_trim_start(s) == s.skip(a),
    decreases s.len(),
{
    if s.len() > 0 && is_ws(s[0]) {
        lemma_trim_start_suffix(s.skip(1));
        let a1 = choose|a1: int|
            0 <= a1 <= s.skip(1).len() && spec_trim_start(s.skip(1)) == s.skip(1).skip(a1);
        assert(s.skip(1).skip(a1) =~= s.skip(a1 + 1));
        assert(0 <= a1 + 1 <= s.len() && spec_trim_start(s) == s.skip(a1 + 1));
    } else {
        assert(s.skip(0) =~= s);
        assert(0 <= 0 <= s.len() && spec_trim_start(s) == s.skip(0));
    }
}

proof fn lemma_trim_end_prefix(s: Seq<char>)
    ensures
        exists|b: int| 0 <= b <= s.len() && spec_trim_end(s) == s.take(b),
    decreases s.len(),
{
    if s.len() > 0 && is_ws(s.last()) {
        lemma_trim_end_prefix(s.drop_last());
        let b1 = choose|b1: int|
            0 <= b1 <= s.drop_last().len() && spec_trim_end(s.drop_last()) == s.drop_last().take(
                b1,
            );
        assert(s.drop_last().take(b1) =~= s.take(b1));
        assert(0 <= b1 <= s.len() && spec_trim_end(s) == s.take(b1));
    } else {
        assert(s.take(s.len() as int) =~= s);
        assert(0 <= s.len() && spec_trim_end(s) == s.take(s.len() as int));
    }
}

/// No trimmed piece of a split contains the separator.
pub proof fn lemma_split_trim_no_sep(s: Seq<char>, c: char)
    ensures
        forall|i: int, j: int|
            0 <= i < spec_split_trim(s, c).len() && 0 <= j < spec_split_trim(s, c)[i].len()
                ==> #[trigger] spec_split_trim(s, c)[i][j] != c,
{
    lemma_split_no_sep(s, c);
    assert forall|i: int, j: int|
        0 <= i < spec_split_trim(s, c).len() && 0 <= j < spec_split_trim(s, c)[i].len()
        implies #[trigger] spec_split_trim(s, c)[i][j] != c by {
        let piece = spec_split(s, c)[i];
        assert(spec_split_trim(s, c)[i] == spec_trim(piece));
        lemma_trim_chars(piece);
        let k = choose|k: int| 0 <= k < piece.len() && spec_trim(piece)[j] == piece[k];
        assert(piece[k] != c);
    }
}

} // verus!
