use vstd::prelude::*;

verus! {

/// Splitting a character sequence on every occurrence of a delimiter,
/// exactly as `str::split` does: `n` delimiters yield `n + 1` segments,
/// so the empty sequence yields one empty segment.
pub open spec fn split_char(s: Seq<char>, d: char) -> Seq<Seq<char>>
    decreases s.len(),
{
    if s.len() == 0 {
        seq![Seq::<char>::empty()]
    } else if s[0] == d {
        seq![Seq::<char>::empty()] + split_char(s.skip(1), d)
    } else {
        let rest = split_char(s.skip(1), d);
        seq![seq![s[0]] + rest[0]] + rest.skip(1)
    }
}

/// Removal of every occurrence of the literal `.git`, scanning left to
/// right without rescanning, as `str::replace(".git", "")` does.
pub open spec fn strip_git(s: Seq<char>) -> Seq<char>
    decreases s.len(),
{
    if s.len() < 4 {
        s
    } else if s[0] == '.' && s[1] == 'g' && s[2] == 'i' && s[3] == 't' {
        strip_git(s.skip(4))
    } else {
        seq![s[0]] + strip_git(s.skip(1))
    }
}

pub proof fn lemma_split_len_pos(s: Seq<char>, d: char)
    ensures
        split_char(s, d).len() >= 1,
    decreases s.len(),
{
    if s.len() == 0 {
    } else if s[0] == d {
        lemma_split_len_pos(s.skip(1), d);
    } else {
        lemma_split_len_pos(s.skip(1), d);
    }
}

/// A sequence without the delimiter splits into the single segment that
/// is the sequence itself.
pub proof fn lemma_split_no_delim(s: Seq<char>, d: char)
    requires
        forall|i: int| 0 <= i < s.len() ==> s[i] != d,
    ensures
        split_char(s, d) == seq![s],
    decreases s.len(),
{
    if s.len() == 0 {
        assert(s =~= Seq::<char>::empty());
        assert(split_char(s, d) =~~= seq![s]);
    } else {
        assert(forall|i: int| 0 <= i < s.skip(1).len() ==> s.skip(1)[i] != d);
        lemma_split_no_delim(s.skip(1), d);
        assert(seq![s[0]] + s.skip(1) =~= s);
        assert(split_char(s, d) =~~= seq![s]);
    }
}

/// Splitting at the first delimiter: everything before it is segment 0,
/// and the remaining segments are the split of everything after it.
pub proof fn lemma_split_at_first(s: Seq<char>, d: char, k: int)
    requires
        0 <= k < s.len(),
        s[k] == d,
        forall|i: int| 0 <= i < k ==> s[i] != d,
    ensures
        split_char(s, d) == seq![s.take(k)] + split_char(s.skip(k + 1), d),
    decreases k,
{
    if k == 0 {
        assert(s.take(0) =~= Seq::<char>::empty());
        assert(split_char(s, d) =~~= seq![s.take(0)] + split_char(s.skip(1), d));
    } else {
        let t = s.skip(1);
        assert(t[k - 1] == d);
        assert(forall|i: int| 0 <= i < k - 1 ==> t[i] != d);
        lemma_split_at_first(t, d, k - 1);
        lemma_split_len_pos(t.skip(k), d);
        assert(t.skip(k) =~= s.skip(k + 1));
        assert(t.take(k - 1) =~= s.subrange(1, k));
        assert((seq![t.take(k - 1)] + split_char(t.skip(k), d))[0] == t.take(k - 1));
        assert((seq![t.take(k - 1)] + split_char(t.skip(k), d)).skip(1) =~= split_char(
            s.skip(k + 1),
            d,
        ));
        assert(seq![s[0]] + s.subrange(1, k) =~= s.take(k));
        assert(split_char(s, d) =~~= seq![s.take(k)] + split_char(s.skip(k + 1), d));
    }
}

/// The prefix every reconstructed URL starts with.
pub open spec fn github_base() -> Seq<char> {
    "https://github.com/"@
}

/// What parsing a remote URL yields: split on `:` and take segment 1;
/// drop every `.git` from it; split that on `/`, whose segments 0 and 1
/// are the user and the repository; the reconstructed URL is the GitHub
/// prefix followed by the whole cleaned segment, whatever host the
/// original URL named. `None` when either split yields fewer than two
/// segments.
pub open spec fn parse_url_spec(u: Seq<char>) -> Option<(Seq<char>, Seq<char>, Seq<char>)> {
    let cparts = split_char(u, ':');
    if cparts.len() < 2 {
        None
    } else {
        let cleaned = strip_git(cparts[1]);
        let sparts = split_char(cleaned, '/');
        if sparts.len() < 2 {
            None
        } else {
            Some((github_base() + cleaned, sparts[0], sparts[1]))
        }
    }
}

/// The index of the first occurrence of `d` in `s` at or after `from`,
/// or `None` when no occurrence remains.
pub fn find_from(s: &str, from: usize, d: char) -> (r: Option<usize>)
    requires
        from <= s@.len(),
    ensures
        match r {
            Some(k) => from <= k < s@.len() && s@[k as int] == d && (forall|i: int|
                from <= i < k ==> s@[i] != d),
            None => forall|i: int| from <= i < s@.len() ==> s@[i] != d,
        },
{
    let n = s.unicode_len();
    let mut j = from;
    while j < n
        invariant
            from <= j <= n,
            n == s@.len(),
            forall|i: int| from <= i < j ==> s@[i] != d,
        decreases n - j,
    {
        if s.get_char(j) == d {
            return Some(j);
        }
        j += 1;
    }
    None
}

/// Copies `s` while dropping every occurrence of `.git`, so that the
/// result is exactly `strip_git` of the input.
pub fn remove_git_str(s: &str) -> (r: String)
    ensures
        r@ == strip_git(s@),
{
    let n = s.unicode_len();
    let mut out = String::new();
    let mut j: usize = 0;
    proof {
        assert(s@.skip(0) =~= s@);
        assert(out@ + strip_git(s@) =~= strip_git(s@));
    }
    while j < n
        invariant
            0 <= j <= n,
            n == s@.len(),
            out@ + strip_git(s@.skip(j as int)) == strip_git(s@),
        decreases n - j,
    {
        let ghost pre = s@.skip(j as int);
        if n - j >= 4 && s.get_char(j) == '.' && s.get_char(j + 1) == 'g' && s.get_char(j + 2)
            == 'i' && s.get_char(j + 3) == 't' {
            proof {
                assert(pre.len() >= 4);
                assert(pre[0] == '.' && pre[1] == 'g' && pre[2] == 'i' && pre[3] == 't');
                assert(pre.skip(4) =~= s@.skip(j + 4));
                assert(strip_git(pre) == strip_git(s@.skip(j + 4)));
            }
            j += 4;
        } else {
            let piece = s.substring_char(j, j + 1);
            proof {
                assert(piece@ =~= seq![s@[j as int]]);
                if pre.len() < 4 {
                    assert(strip_git(pre) == pre);
                    assert(strip_git(s@.skip(j + 1)) == s@.skip(j + 1)) by {
                        assert(s@.skip(j + 1).len() < 4);
                    }
                    assert(pre =~= seq![s@[j as int]] + s@.skip(j + 1));
                } else {
                    assert(pre[0] == s@[j as int]);
                    assert(!(pre[0] == '.' && pre[1] == 'g' && pre[2] == 'i' && pre[3] == 't'));
                    assert(pre.skip(1) =~= s@.skip(j + 1));
                    assert(strip_git(pre) == seq![s@[j as int]] + strip_git(s@.skip(j + 1)));
                }
                assert((out@ + piece@) + strip_git(s@.skip(j + 1)) =~= out@ + (seq![s@[j as int]]
                    + strip_git(s@.skip(j + 1))));
            }
            out.append(piece);
            j += 1;
        }
    }
    proof {
        assert(s@.skip(n as int) =~= Seq::<char>::empty());
        assert(strip_git(Seq::<char>::empty()) == Seq::<char>::empty());
        assert(out@ + Seq::<char>::empty() =~= out@);
    }
    out
}

} // verus!
