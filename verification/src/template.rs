//! The query placeholder, template rendering and space-splitting of rendered
//! argument strings, together with their specification-level definitions.

use vstd::prelude::*;

verus! {

/// The placeholder token that every argument template must contain; each of
/// its occurrences is replaced by the query when a command is rendered.
pub open spec fn placeholder() -> Seq<char> {
    seq!['$', 'q', 'u', 'e', 'r', 'y']
}

/// True when the placeholder occurs in `s` starting at index `i`.
pub open spec fn occurs_at(s: Seq<char>, i: int) -> bool {
    0 <= i && i + 6 <= s.len() && s.subrange(i, i + 6) == placeholder()
}

/// True when `s` contains the placeholder anywhere.
pub open spec fn contains_placeholder(s: Seq<char>) -> bool {
    exists|i: int| occurs_at(s, i)
}

/// `s` with every (leftmost-first, non-overlapping) occurrence of the
/// placeholder replaced by `q`, exactly as `str::replace` substitutes.
pub open spec fn replace_placeholder(s: Seq<char>, q: Seq<char>) -> Seq<char>
    decreases s.len(),
{
    if occurs_at(s, 0) {
        q + replace_placeholder(s.subrange(6, s.len() as int), q)
    } else if s.len() == 0 {
        Seq::<char>::empty()
    } else {
        seq![s[0]] + replace_placeholder(s.subrange(1, s.len() as int), q)
    }
}

/// `s` split on every single space character, empty segments kept, exactly as
/// `str::split(' ')` tokenizes; the result always has at least one segment.
pub open spec fn split_spaces(s: Seq<char>) -> Seq<Seq<char>>
    decreases s.len(),
{
    if s.len() == 0 {
        seq![Seq::<char>::empty()]
    } else if s[0] == ' ' {
        seq![Seq::<char>::empty()] + split_spaces(s.subrange(1, s.len() as int))
    } else {
        let rest = split_spaces(s.subrange(1, s.len() as int));
        seq![seq![s[0]] + rest[0]] + rest.subrange(1, rest.len() as int)
    }
}

/// String equality, decided character by character.
pub fn str_eq(a: &str, b: &str) -> (r: bool)
    ensures
        r == (a@ == b@),
{
    let an = a.unicode_len();
    let bn = b.unicode_len();
    if an != bn {
        return false;
    }
    let mut i: usize = 0;
    while i < an
        invariant
            i <= an,
            an == a@.len(),
            an == b@.len(),
            forall|j: int| 0 <= j < i ==> a@[j] == b@[j],
        decreases an - i,
    {
        if a.get_char(i) != b.get_char(i) {
            return false;
        }
        i += 1;
    }
    proof {
        assert(a@ =~= b@);
    }
    true
}

/// Decides whether the placeholder occurs at index `i` of `s`.
fn placeholder_at(s: &str, i: usize) -> (r: bool)
    requires
        i + 6 <= s@.len(),
        s@.len() <= usize::MAX,
    ensures
        r == occurs_at(s@, i as int),
{
    let r = s.get_char(i) == '$' && s.get_char(i + 1) == 'q' && s.get_char(i + 2) == 'u'
        && s.get_char(i + 3) == 'e' && s.get_char(i + 4) == 'r' && s.get_char(i + 5) == 'y';
    proof {
        if r {
            assert(s@.subrange(i as int, i + 6) =~= placeholder());
        } else {
            assert(s@.subrange(i as int, i + 6) != placeholder()) by {
                if s@.subrange(i as int, i + 6) == placeholder() {
                    assert(s@[i as int] == placeholder()[0]);
                    assert(s@[i + 1] == placeholder()[1]);
                    assert(s@[i + 2] == placeholder()[2]);
                    assert(s@[i + 3] == placeholder()[3]);
                    assert(s@[i + 4] == placeholder()[4]);
                    assert(s@[i + 5] == placeholder()[5]);
                }
            }
        }
    }
    r
}

/// Decides whether `s` contains the placeholder.
pub fn has_placeholder(s: &str) -> (r: bool)
    ensures
        r == contains_placeholder(s@),
{
    let n = s.unicode_len();
    if n < 6 {
        proof {
            assert(forall|i: int| !occurs_at(s@, i));
        }
        return false;
    }
    let mut i: usize = 0;
    while i <= n - 6
        invariant
            n == s@.len(),
            n >= 6,
            i <= n - 5,
            forall|j: int| 0 <= j < i ==> !occurs_at(s@, j),
        decreases n - i,
    {
        if placeholder_at(s, i) {
            return true;
        }
        i += 1;
    }
    proof {
        assert(forall|j: int| i <= j ==> !occurs_at(s@, j));
    }
    false
}

/// Unfolds `replace_placeholder` of a suffix of `s` by one step, at an
/// occurrence of the placeholder or at a single kept character.
proof fn lemma_replace_step(s: Seq<char>, q: Seq<char>, i: int)
    requires
        0 <= i <= s.len(),
    ensures
        occurs_at(s, i) ==> replace_placeholder(s.subrange(i, s.len() as int), q) == q
            + replace_placeholder(s.subrange(i + 6, s.len() as int), q),
        !occurs_at(s, i) && i < s.len() ==> replace_placeholder(s.subrange(i, s.len() as int), q)
            == seq![s[i]] + replace_placeholder(s.subrange(i + 1, s.len() as int), q),
{
    let t = s.subrange(i, s.len() as int);
    if occurs_at(s, i) {
        assert(t.subrange(0, 6) =~= s.subrange(i, i + 6));
        assert(occurs_at(t, 0));
        assert(t.subrange(6, t.len() as int) =~= s.subrange(i + 6, s.len() as int));
    } else if i < s.len() {
        assert(!occurs_at(t, 0)) by {
            if occurs_at(t, 0) {
                assert(s.subrange(i, i + 6) =~= t.subrange(0, 6));
            }
        }
        assert(t.subrange(1, t.len() as int) =~= s.subrange(i + 1, s.len() as int));
        assert(seq![t[0]] =~= seq![s[i]]);
    }
}

/// Rendering changes nothing on a template without the placeholder: for any
/// query, the rendered string is the template itself.
pub proof fn lemma_replace_without_placeholder(s: Seq<char>, q: Seq<char>)
    requires
        !contains_placeholder(s),
    ensures
        replace_placeholder(s, q) == s,
    decreases s.len(),
{
    assert(!occurs_at(s, 0));
    if s.len() == 0 {
        assert(replace_placeholder(s, q) =~= s);
    } else {
        let t = s.subrange(1, s.len() as int);
        assert(!contains_placeholder(t)) by {
            if contains_placeholder(t) {
                let i = choose|i: int| occurs_at(t, i);
                assert(s.subrange(i + 1, i + 7) =~= t.subrange(i, i + 6));
                assert(occurs_at(s, i + 1));
            }
        }
        lemma_replace_without_placeholder(t, q);
        assert(seq![s[0]] + t =~= s);
    }
}

/// Renders a template: every occurrence of the placeholder in `args` is
/// replaced by `query`, verbatim and without escaping.
pub fn render(args: &str, query: &str) -> (r: String)
    ensures
        r@ == replace_placeholder(args@, query@),
{
    let n = args.unicode_len();
    let mut out = String::new();
    let mut i: usize = 0;
    proof {
        assert(args@.subrange(0, n as int) =~= args@);
        assert(out@ + replace_placeholder(args@, query@) =~= replace_placeholder(args@, query@));
    }
    while i < n
        invariant
            n == args@.len(),
            i <= n,
            out@ + replace_placeholder(args@.subrange(i as int, n as int), query@)
                == replace_placeholder(args@, query@),
        decreases n - i,
    {
        proof {
            lemma_replace_step(args@, query@, i as int);
        }
        if n - i >= 6 && placeholder_at(args, i) {
            out.append(query);
            i += 6;
        } else {
            let c = args.substring_char(i, i + 1);
            proof {
                assert(!occurs_at(args@, i as int));
                assert(c@ =~= seq![args@[i as int]]);
            }
            out.append(c);
            i += 1;
        }
    }
    proof {
        assert(args@.subrange(n as int, n as int) =~= Seq::<char>::empty());
        assert(out@ + Seq::<char>::empty() =~= out@);
    }
    out
}

/// Unfolds `split_spaces` of `s` up to its first space: when no space occurs
/// before index `k`, the split either is the single segment `s` (no space at
/// all) or starts with `s[..k]` followed by the split of what comes after the
/// space at `k`.
proof fn lemma_split_prefix(s: Seq<char>, k: int)
    requires
        0 <= k <= s.len(),
        forall|j: int| 0 <= j < k ==> s[j] != ' ',
    ensures
        k == s.len() ==> split_spaces(s) == seq![s],
        k < s.len() && s[k] == ' ' ==> split_spaces(s) == seq![s.subrange(0, k)] + split_spaces(
            s.subrange(k + 1, s.len() as int),
        ),
    decreases k,
{
    if k == 0 {
        if k == s.len() {
            assert(s =~= Seq::<char>::empty());
            assert(split_spaces(s) =~~= seq![s]);
        } else if s[0] == ' ' {
            assert(s.subrange(0, 0) =~= Seq::<char>::empty());
            assert(split_spaces(s) =~~= seq![s.subrange(0, 0)] + split_spaces(
                s.subrange(1, s.len() as int),
            ));
        }
    } else {
        let t = s.subrange(1, s.len() as int);
        lemma_split_prefix(t, k - 1);
        let rest = split_spaces(t);
        assert(rest.len() > 0) by {
            lemma_split_nonempty(t);
        }
        if k == s.len() {
            assert(split_spaces(t) == seq![t]);
            assert(seq![s[0]] + rest[0] =~= s);
            assert(rest.subrange(1, rest.len() as int) =~= Seq::<Seq<char>>::empty());
            assert(split_spaces(s) =~~= seq![s]);
        } else if s[k] == ' ' {
            assert(t[k - 1] == ' ');
            assert(t.subrange(k - 1 + 1, t.len() as int) =~= s.subrange(k + 1, s.len() as int));
            assert(split_spaces(t) == seq![t.subrange(0, k - 1)] + split_spaces(
                s.subrange(k + 1, s.len() as int),
            ));
            assert(seq![s[0]] + rest[0] =~= s.subrange(0, k));
            let tail = split_spaces(s.subrange(k + 1, s.len() as int));
            assert(rest.subrange(1, rest.len() as int) =~= tail);
            assert(split_spaces(s) =~~= seq![s.subrange(0, k)] + tail);
        }
    }
}

/// A split always yields at least one segment.
proof fn lemma_split_nonempty(s: Seq<char>)
    ensures
        split_spaces(s).len() > 0,
    decreases s.len(),
{
    if s.len() != 0 {
        lemma_split_nonempty(s.subrange(1, s.len() as int));
    }
}

/// Splits `s` on every single ASCII space into its list of segments; empty
/// segments are kept, so the result mirrors `str::split(' ')`.
pub fn split_on_spaces(s: &str) -> (r: Vec<String>)
    ensures
        r.deep_view() == split_spaces(s@),
{
    let n = s.unicode_len();
    let mut r: Vec<String> = Vec::new();
    let mut start: usize = 0;
    let mut i: usize = 0;
    proof {
        assert(s@.subrange(0, n as int) =~= s@);
        assert(r.deep_view() + split_spaces(s@) =~~= split_spaces(s@));
    }
    while i < n
        invariant
            n == s@.len(),
            start <= i <= n,
            forall|j: int| start <= j < i ==> s@[j] != ' ',
            split_spaces(s@) == r.deep_view() + split_spaces(
                s@.subrange(start as int, n as int),
            ),
        decreases n - i,
    {
        if s.get_char(i) == ' ' {
            let seg = s.substring_char(start, i).to_owned();
            proof {
                let sub = s@.subrange(start as int, n as int);
                lemma_split_prefix(sub, i - start);
                assert(sub.subrange(0, i - start) =~= s@.subrange(start as int, i as int));
                assert(sub.subrange(i - start + 1, sub.len() as int) =~= s@.subrange(
                    i + 1,
                    n as int,
                ));
            }
            let ghost dv = r.deep_view();
            r.push(seg);
            proof {
                assert(r.deep_view() =~~= dv + seq![seg@]);
                assert(split_spaces(s@) =~~= r.deep_view() + split_spaces(
                    s@.subrange(i + 1, n as int),
                ));
            }
            start = i + 1;
        }
        i += 1;
    }
    let seg = s.substring_char(start, n).to_owned();
    proof {
        let sub = s@.subrange(start as int, n as int);
        lemma_split_prefix(sub, n - start);
    }
    let ghost dv = r.deep_view();
    r.push(seg);
    proof {
        assert(r.deep_view() =~~= dv + seq![seg@]);
        assert(split_spaces(s@) =~~= r.deep_view());
    }
    r
}

} // verus!
