//! Character-level helpers on text: finding a delimiter, splitting, comparing.
use vstd::prelude::*;

verus! {

/// Index of the first character of `s` that is `a` or `b`; -1 where there is none.
pub open spec fn first_of(s: Seq<char>, a: char, b: char) -> int
    decreases s.len(),
{
    if s.len() == 0 {
        -1
    } else if s[0] == a || s[0] == b {
        0
    } else {
        let r = first_of(s.drop_first(), a, b);
        if r < 0 {
            -1
        } else {
            r + 1
        }
    }
}

/// The pieces of `s` between occurrences of `d`, in order; `d` itself is dropped.
/// Text without `d` (the empty text included) is a single piece.
pub open spec fn split_on(s: Seq<char>, d: char) -> Seq<Seq<char>>
    decreases s.len(),
{
    if s.len() == 0 {
        seq![Seq::empty()]
    } else {
        let p = split_on(s.drop_last(), d);
        if s.last() == d {
            p.push(Seq::empty())
        } else {
            p.update(p.len() - 1, p.last().push(s.last()))
        }
    }
}

/// A scan that has passed `i` characters, none of them `a` or `b`, has found the first one
/// where it stops on `a` or `b`, and knows there is none where it reached the end.
pub proof fn lemma_first_of(s: Seq<char>, a: char, b: char, i: int)
    requires
        0 <= i <= s.len(),
        forall|j: int| 0 <= j < i ==> s[j] != a && s[j] != b,
    ensures
        i < s.len() && (s[i] == a || s[i] == b) ==> first_of(s, a, b) == i,
        i == s.len() ==> first_of(s, a, b) == -1,
    decreases i,
{
    if i > 0 {
        let t = s.drop_first();
        assert forall|j: int| 0 <= j < i - 1 implies t[j] != a && t[j] != b by {
            assert(t[j] == s[j + 1]);
        }
        lemma_first_of(t, a, b, i - 1);
    }
}

/// What `first_of` finds: a position holding `a` or `b` with none of them before it.
pub proof fn lemma_first_of_range(s: Seq<char>, a: char, b: char)
    ensures
        -1 <= first_of(s, a, b) < s.len(),
        first_of(s, a, b) >= 0 ==> (s[first_of(s, a, b)] == a || s[first_of(s, a, b)] == b),
        forall|j: int|
            0 <= j < s.len() && (first_of(s, a, b) < 0 || j < first_of(s, a, b)) ==> s[j] != a
                && s[j] != b,
    decreases s.len(),
{
    if s.len() > 0 {
        let t = s.drop_first();
        lemma_first_of_range(t, a, b);
        assert forall|j: int|
            0 <= j < s.len() && (first_of(s, a, b) < 0 || j < first_of(s, a, b)) implies s[j] != a
            && s[j] != b by {
            if j > 0 {
                assert(s[j] == t[j - 1]);
            }
        }
    }
}

/// `split_on` always yields at least one piece.
pub proof fn lemma_split_on_nonempty(s: Seq<char>, d: char)
    ensures
        split_on(s, d).len() >= 1,
    decreases s.len(),
{
    if s.len() > 0 {
        lemma_split_on_nonempty(s.drop_last(), d);
    }
}

/// Finds the first character of `s` that is `a` or `b`.
pub fn find_first(s: &str, a: char, b: char) -> (r: Option<usize>)
    ensures
        match r {
            Some(i) => i < s@.len() && first_of(s@, a, b) == i as int,
            None => first_of(s@, a, b) == -1,
        },
{
    let n = s.unicode_len();
    let mut i: usize = 0;
    while i < n
        invariant
            n == s@.len(),
            i <= n,
            forall|j: int| 0 <= j < i ==> s@[j] != a && s@[j] != b,
        decreases n - i,
    {
        let c = s.get_char(i);
        if c == a || c == b {
            proof {
                lemma_first_of(s@, a, b, i as int);
            }
            return Some(i);
        }
        i = i + 1;
    }
    proof {
        lemma_first_of(s@, a, b, i as int);
    }
    None
}

/// Whether two texts hold the same characters.
pub fn same_text(x: &str, y: &str) -> (r: bool)
    ensures
        r == (x@ == y@),
{
    let n = x.unicode_len();
    if n != y.unicode_len() {
        return false;
    }
    let mut i: usize = 0;
    while i < n
        invariant
            n == x@.len(),
            n == y@.len(),
            i <= n,
            forall|j: int| 0 <= j < i ==> x@[j] == y@[j],
        decreases n - i,
    {
        if x.get_char(i) != y.get_char(i) {
            return false;
        }
        i = i + 1;
    }
    assert(x@ =~= y@);
    true
}

/// Splits `s` at every `d`, copying each piece.
pub fn split_text(s: &str, d: char) -> (r: Vec<String>)
    ensures
        r@.map_values(|p: String| p@) == split_on(s@, d),
{
    let n = s.unicode_len();
    let mut pieces: Vec<String> = Vec::new();
    let mut start: usize = 0;
    let mut i: usize = 0;
    assert(s@.take(0) =~= Seq::<char>::empty());
    assert(pieces@.map_values(|p: String| p@).push(s@.subrange(0, 0)) =~= seq![Seq::<char>::empty()]);
    while i < n
        invariant
            n == s@.len(),
            start <= i <= n,
            pieces@.map_values(|p: String| p@).push(s@.subrange(start as int, i as int))
                == split_on(s@.take(i as int), d),
        decreases n - i,
    {
        let c = s.get_char(i);
        let ghost before = pieces@.map_values(|p: String| p@);
        let ghost cur = s@.subrange(start as int, i as int);
        let ghost t = s@.take(i + 1);
        proof {
            assert(t.drop_last() =~= s@.take(i as int));
            assert(t.last() == c);
            lemma_split_on_nonempty(s@.take(i as int), d);
        }
        if c == d {
            let piece = s.substring_char(start, i).to_owned();
            pieces.push(piece);
            start = i + 1;
            assert(pieces@.map_values(|p: String| p@) =~= before.push(cur));
            assert(s@.subrange(start as int, i + 1) =~= Seq::<char>::empty());
            assert(split_on(t, d) == before.push(cur).push(Seq::<char>::empty()));
        } else {
            assert(s@.subrange(start as int, i + 1) =~= cur.push(c));
            assert(split_on(t, d) == before.push(cur).update(before.len() as int, cur.push(c)));
            assert(before.push(cur).update(before.len() as int, cur.push(c)) =~= before.push(cur.push(c)));
        }
        i = i + 1;
        assert(pieces@.map_values(|p: String| p@).push(s@.subrange(start as int, i as int))
            =~= split_on(s@.take(i as int), d));
    }
    pieces.push(s.substring_char(start, n).to_owned());
    assert(s@.take(n as int) =~= s@);
    assert(pieces@.map_values(|p: String| p@) =~= split_on(s@, d));
    pieces
}

} // verus!
