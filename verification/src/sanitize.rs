//! The sanitizer: physical lines become logical lines by cutting each line
//! at the first `//`, trimming whitespace, and dropping what remains empty.

use crate::text::spec_split;
use crate::text::spec_trim;
use crate::text::split_str;
use crate::text::trim_str;
use vstd::prelude::*;

verus! {

/// Index of the first `//` in `s`, if any.
pub open spec fn spec_find_comment(s: Seq<char>) -> Option<int>
    decreases s.len(),
{
    if s.len() < 2 {
        None
    } else if s[0] == '/' && s[1] == '/' {
        Some(0int)
    } else {
        match spec_find_comment(s.skip(1)) {
            None => None,
            Some(i) => Some(i + 1),
        }
    }
}

/// Any position with the first-comment property is the one
/// `spec_find_comment` returns.
pub proof fn lemma_find_comment_unique(s: Seq<char>, i: int)
    requires
        0 <= i <= s.len(),
        forall|j: int| 0 <= j < i && j + 1 < s.len() ==> !(#[trigger] s[j] == '/' && s[j + 1] == '/'),
        i + 1 < s.len() ==> s[i] == '/' && s[i + 1] == '/',
        i < s.len() ==> i + 1 < s.len(),
    ensures
        spec_find_comment(s) == if i == s.len() {
            None::<int>
        } else {
            Some(i)
        },
    decreases s.len(),
{
    if s.len() >= 2 && !(s[0] == '/' && s[1] == '/') {
        // The recursion shifts every index down by one.
        assert(forall|j: int| 1 <= j < s.len() ==> s[j] == s.skip(1)[j - 1]);
        lemma_find_comment_unique(s.skip(1), if i == s.len() {
            i - 1
        } else {
            i - 1
        });
    }
}

/// The line with everything from the first `//` removed.
pub open spec fn spec_cut_comment(s: Seq<char>) -> Seq<char> {
    match spec_find_comment(s) {
        None => s,
        Some(i) => s.take(i),
    }
}

/// One logical line: the comment cut away and the rest trimmed.
pub open spec fn spec_clean_line(s: Seq<char>) -> Seq<char> {
    spec_trim(spec_cut_comment(s))
}

/// The non-empty logical lines among the given physical lines.
pub open spec fn spec_clean_lines(parts: Seq<Seq<char>>) -> Seq<Seq<char>>
    decreases parts.len(),
{
    if parts.len() == 0 {
        Seq::<Seq<char>>::empty()
    } else {
        let l = spec_clean_line(parts[0]);
        let rest = spec_clean_lines(parts.skip(1));
        if l.len() == 0 {
            rest
        } else {
            seq![l] + rest
        }
    }
}

/// The sanitizer as a whole: the logical lines of a raw document.
pub open spec fn spec_sanitize(text: Seq<char>) -> Seq<Seq<char>> {
    spec_clean_lines(spec_split(text, '\n'))
}

/// Returns the line up to the first `//`.
fn cut_comment<'a>(s: &'a str) -> (res: &'a str)
    ensures
        res@ == spec_cut_comment(s@),
{
    let n = s.unicode_len();
    if n < 1 {
        proof {
            lemma_find_comment_unique(s@, s@.len() as int);
        }
        return s;
    }
    let mut i: usize = 0;
    while i < n - 1
        invariant
            1 <= n == s@.len(),
            0 <= i <= n,
            forall|j: int|
                0 <= j < i && j + 1 < s@.len() ==> !(#[trigger] s@[j] == '/' && s@[j + 1] == '/'),
        decreases n - i,
    {
        if s.get_char(i) == '/' && s.get_char(i + 1) == '/' {
            proof {
                lemma_find_comment_unique(s@, i as int);
            }
            return s.substring_char(0, i);
        }
        i += 1;
    }
    proof {
        lemma_find_comment_unique(s@, s@.len() as int);
        assert(s@.take(s@.len() as int) =~= s@);
    }
    s
}

/// Splits a raw document into its non-empty logical lines.
pub fn sanitize_lines<'a>(text: &'a str) -> (res: Vec<&'a str>)
    ensures
        res.deep_view() == spec_sanitize(text@),
{
    let parts = split_str(text, '\n');
    let ghost pv = parts.deep_view();
    let mut res: Vec<&str> = Vec::new();
    let mut i: usize = 0;
    proof {
        assert(pv.skip(0) =~= pv);
        assert(res.deep_view() + spec_clean_lines(pv) =~= spec_clean_lines(pv));
    }
    while i < parts.len()
        invariant
            0 <= i <= parts.len(),
            pv == parts.deep_view(),
            spec_clean_lines(pv) == res.deep_view() + spec_clean_lines(pv.skip(i as int)),
        decreases parts.len() - i,
    {
        proof {
            assert(pv.skip(i as int)[0] == pv[i as int]);
            assert(pv.skip(i as int).skip(1) =~= pv.skip(i + 1));
            assert(pv[i as int] == parts[i as int]@);
        }
        let line = trim_str(cut_comment(parts[i]));
        assert(line@ == spec_clean_line(pv[i as int]));
        if line.unicode_len() > 0 {
            let ghost prev = res.deep_view();
            res.push(line);
            proof {
                assert(res.deep_view() =~= prev.push(line@));
                assert(prev + (seq![line@] + spec_clean_lines(pv.skip(i + 1))) =~= res.deep_view()
                    + spec_clean_lines(pv.skip(i + 1)));
            }
        }
        i += 1;
    }
    proof {
        assert(spec_clean_lines(pv.skip(parts.len() as int)) =~= Seq::<Seq<char>>::empty());
        assert(res.deep_view() + Seq::<Seq<char>>::empty() =~= res.deep_view());
    }
    res
}

/// The logical lines re-joined, one per line with a trailing newline each.
pub open spec fn spec_join_nl(ls: Seq<Seq<char>>) -> Seq<char>
    decreases ls.len(),
{
    if ls.len() == 0 {
        Seq::<char>::empty()
    } else {
        ls[0] + seq!['\n'] + spec_join_nl(ls.skip(1))
    }
}

proof fn lemma_join_nl_push(ls: Seq<Seq<char>>, l: Seq<char>)
    ensures
        spec_join_nl(ls.push(l)) == spec_join_nl(ls) + l + seq!['\n'],
    decreases ls.len(),
{
    if ls.len() == 0 {
        assert(ls.push(l)[0] == l);
        assert(ls.push(l).skip(1) =~= Seq::<Seq<char>>::empty());
        assert(spec_join_nl(Seq::<Seq<char>>::empty()) == Seq::<char>::empty());
        assert(spec_join_nl(ls.push(l)) == ls.push(l)[0] + seq!['\n'] + spec_join_nl(
            ls.push(l).skip(1),
        ));
        assert(spec_join_nl(ls.push(l)) =~= l + seq!['\n']);
        assert(spec_join_nl(ls) + l + seq!['\n'] =~= l + seq!['\n']);
    } else {
        lemma_join_nl_push(ls.skip(1), l);
        assert(ls.push(l).skip(1) =~= ls.skip(1).push(l));
        assert(ls.push(l)[0] == ls[0]);
        assert(ls[0] + seq!['\n'] + (spec_join_nl(ls.skip(1)) + l + seq!['\n']) =~= (ls[0]
            + seq!['\n'] + spec_join_nl(ls.skip(1))) + l + seq!['\n']);
    }
}

/// Strips comments and blank lines from a raw document, yielding one text
/// with each logical line followed by a newline.
pub fn sanitize(input: &str) -> (res: String)
    ensures
        res@ == spec_join_nl(spec_sanitize(input@)),
{
    let lines = sanitize_lines(input);
    let ghost lv = lines.deep_view();
    let mut out = String::new();
    let mut i: usize = 0;
    proof {
        assert(lv.take(0) =~= Seq::<Seq<char>>::empty());
        assert(out@ =~= spec_join_nl(lv.take(0)));
    }
    while i < lines.len()
        invariant
            0 <= i <= lines.len(),
            lv == lines.deep_view(),
            out@ == spec_join_nl(lv.take(i as int)),
        decreases lines.len() - i,
    {
        assert(lv[i as int] == lines[i as int]@);
        out.append(lines[i]);
        out.append("\n");
        proof {
            reveal_strlit("\n");
            assert("\n"@ =~= seq!['\n']);
            lemma_join_nl_push(lv.take(i as int), lv[i as int]);
            assert(lv.take(i as int).push(lv[i as int]) =~= lv.take(i + 1));
            assert(out@ =~= spec_join_nl(lv.take(i as int)) + lv[i as int] + seq!['\n']);
        }
        i += 1;
    }
    proof {
        assert(lv.take(lines.len() as int) =~= lv);
    }
    out
}

} // verus!
