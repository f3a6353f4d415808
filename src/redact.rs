use vstd::prelude::*;

verus! {

/// `s` with every occurrence of `pat` removed, scanning left to right; matches do not
/// overlap, and an empty pattern removes nothing.
pub open spec fn remove_all(s: Seq<char>, pat: Seq<char>) -> Seq<char>
    decreases s.len(),
{
    if pat.len() == 0 || s.len() < pat.len() {
        s
    } else if s.subrange(0, pat.len() as int) == pat {
        remove_all(s.subrange(pat.len() as int, s.len() as int), pat)
    } else {
        seq![s[0]] + remove_all(s.subrange(1, s.len() as int), pat)
    }
}

/// `s` after removing, in order, every occurrence of each pattern of `pats`.
pub open spec fn redacted(s: Seq<char>, pats: Seq<Seq<char>>) -> Seq<char>
    decreases pats.len(),
{
    if pats.len() == 0 {
        s
    } else {
        redacted(remove_all(s, pats[0]), pats.subrange(1, pats.len() as int))
    }
}

/// Whether `pat` occurs in `s` starting at character `at`.
fn occurs_at(s: &str, pat: &str, at: usize, n: usize, m: usize) -> (r: bool)
    requires
        n == s@.len(),
        m == pat@.len(),
        at + m <= n,
    ensures
        r == (s@.subrange(at as int, at + m) == pat@),
{
    let mut j: usize = 0;
    while j < m
        invariant
            n == s@.len(),
            m == pat@.len(),
            at + m <= n,
            j <= m,
            forall|i: int| 0 <= i < j ==> s@[at + i] == pat@[i],
        decreases m - j,
    {
        if s.get_char(at + j) != pat.get_char(j) {
            proof {
                assert(s@.subrange(at as int, at + m)[j as int] != pat@[j as int]);
            }
            return false;
        }
        j = j + 1;
    }
    proof {
        assert(s@.subrange(at as int, at + m) =~= pat@);
    }
    true
}

/// Removing from the suffix starting at `i` peels one character or one match.
proof fn lemma_remove_step(s: Seq<char>, pat: Seq<char>, i: int)
    requires
        pat.len() > 0,
        0 <= i < s.len(),
    ensures
        s.len() - i >= pat.len() && s.subrange(i, i + pat.len()) == pat ==> remove_all(
            s.subrange(i, s.len() as int),
            pat,
        ) == remove_all(s.subrange(i + pat.len(), s.len() as int), pat),
        !(s.len() - i >= pat.len() && s.subrange(i, i + pat.len()) == pat) ==> remove_all(
            s.subrange(i, s.len() as int),
            pat,
        ) == seq![s[i]] + remove_all(s.subrange(i + 1, s.len() as int), pat),
{
    let t = s.subrange(i, s.len() as int);
    if t.len() >= pat.len() {
        assert(t.subrange(0, pat.len() as int) =~= s.subrange(i, i + pat.len()));
        assert(t.subrange(pat.len() as int, t.len() as int) =~= s.subrange(
            i + pat.len(),
            s.len() as int,
        ));
    } else {
        let u = s.subrange(i + 1, s.len() as int);
        assert(u.len() < pat.len());
        assert(t =~= seq![s[i]] + u);
    }
    assert(t.subrange(1, t.len() as int) =~= s.subrange(i + 1, s.len() as int));
}

/// Removes every occurrence of `pat` from `s`, as `str::replace(s, pat, "")` does.
pub fn remove_all_occurrences(s: &str, pat: &str) -> (r: String)
    ensures
        r@ == remove_all(s@, pat@),
{
    let n = s.unicode_len();
    let m = pat.unicode_len();
    if m == 0 {
        return String::from_str(s);
    }
    let mut out = String::new();
    let mut i: usize = 0;
    proof {
        assert(s@.subrange(0, n as int) =~= s@);
        assert(out@ + remove_all(s@, pat@) =~= remove_all(s@, pat@));
    }
    while i < n
        invariant
            n == s@.len(),
            m == pat@.len(),
            m > 0,
            i <= n,
            out@ + remove_all(s@.subrange(i as int, n as int), pat@) == remove_all(s@, pat@),
        decreases n - i,
    {
        proof {
            lemma_remove_step(s@, pat@, i as int);
        }
        if m <= n - i && occurs_at(s, pat, i, n, m) {
            i = i + m;
        } else {
            let piece = s.substring_char(i, i + 1);
            proof {
                assert(piece@ =~= seq![s@[i as int]]);
                assert(out@ + piece@ + remove_all(s@.subrange(i + 1, n as int), pat@) =~= out@ + (
                seq![s@[i as int]] + remove_all(s@.subrange(i + 1, n as int), pat@)));
            }
            out.append(piece);
            i = i + 1;
        }
    }
    proof {
        assert(s@.subrange(n as int, n as int) =~= Seq::<char>::empty());
        assert(out@ + Seq::<char>::empty() =~= out@);
    }
    out
}

/// Removes from `text`, in the order given, every occurrence of each pattern of `pats`.
pub fn redact(text: &str, pats: &Vec<String>) -> (r: String)
    ensures
        r@ == redacted(text@, pats@.map_values(|p: String| p@)),
{
    let ghost views = pats@.map_values(|p: String| p@);
    let mut out = String::from_str(text);
    let mut i: usize = 0;
    proof {
        assert(views.subrange(0, views.len() as int) =~= views);
    }
    while i < pats.len()
        invariant
            views == pats@.map_values(|p: String| p@),
            i <= pats@.len(),
            redacted(out@, views.subrange(i as int, views.len() as int)) == redacted(text@, views),
        decreases pats@.len() - i,
    {
        let next = remove_all_occurrences(out.as_str(), pats[i].as_str());
        proof {
            let rest = views.subrange(i as int, views.len() as int);
            assert(rest[0] == pats@[i as int]@);
            assert(rest.subrange(1, rest.len() as int) =~= views.subrange(
                i + 1,
                views.len() as int,
            ));
        }
        out = next;
        i = i + 1;
    }
    proof {
        assert(views.subrange(i as int, views.len() as int) =~= Seq::<Seq<char>>::empty());
    }
    out
}

} // verus!
