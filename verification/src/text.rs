//! Character-level text helpers with exact specifications: splitting a name
//! on a separator character, and breaking a parameter string into
//! whitespace-separated tokens.

use vstd::prelude::*;

verus! {

broadcast use vstd::seq::group_seq_axioms;

/// The pieces of `s` split on the separator `sep`: always at least one
/// piece, and one more piece than there are separator occurrences.
pub open spec fn split_on(s: Seq<char>, sep: char) -> Seq<Seq<char>>
    decreases s.len(),
{
    if s.len() == 0 {
        seq![Seq::<char>::empty()]
    } else if s[0] == sep {
        seq![Seq::<char>::empty()] + split_on(s.skip(1), sep)
    } else {
        let rest = split_on(s.skip(1), sep);
        seq![seq![s[0]] + rest[0]] + rest.skip(1)
    }
}

/// Splitting never yields an empty piece list.
pub proof fn lemma_split_on_nonempty(s: Seq<char>, sep: char)
    ensures
        split_on(s, sep).len() >= 1,
    decreases s.len(),
{
    if s.len() != 0 {
        lemma_split_on_nonempty(s.skip(1), sep);
    }
}

/// Splitting a separator-free string yields that string as its one piece.
pub proof fn lemma_split_on_no_sep(s: Seq<char>, sep: char)
    requires
        forall|j: int| 0 <= j < s.len() ==> s[j] != sep,
    ensures
        split_on(s, sep) =~~= seq![s],
    decreases s.len(),
{
    if s.len() != 0 {
        assert(s[0] != sep);
        lemma_split_on_no_sep(s.skip(1), sep);
        assert(seq![s[0]] + s.skip(1) =~= s);
    }
}

/// Splitting around the first separator: the prefix before it is the first
/// piece, and the remainder splits on its own.
pub proof fn lemma_split_on_first_sep(s: Seq<char>, sep: char, d: int)
    requires
        0 <= d < s.len(),
        s[d] == sep,
        forall|j: int| 0 <= j < d ==> s[j] != sep,
    ensures
        split_on(s, sep) =~~= seq![s.take(d)] + split_on(s.skip(d + 1), sep),
    decreases d,
{
    if d == 0 {
        assert(s.take(0) =~= Seq::<char>::empty());
        assert(s.skip(1) =~= s.skip(d + 1));
    } else {
        assert(s[0] != sep);
        lemma_split_on_first_sep(s.skip(1), sep, d - 1);
        assert(s.skip(1).skip(d) =~= s.skip(d + 1));
        lemma_split_on_nonempty(s.skip(1).skip(d), sep);
        assert(seq![s[0]] + s.skip(1).take(d - 1) =~= s.take(d));
    }
}

/// Splits `s` on the separator `sep` into its pieces, in order.
pub fn split_char(s: &str, sep: char) -> (r: Vec<String>)
    ensures
        r.deep_view() == split_on(s@, sep),
    decreases s@.len(),
{
    let n = s.unicode_len();
    let mut i: usize = 0;
    while i < n && s.get_char(i) != sep
        invariant
            0 <= i <= n,
            n == s@.len(),
            forall|j: int| 0 <= j < i ==> s@[j] != sep,
        decreases n - i,
    {
        i = i + 1;
    }
    if i == n {
        proof {
            lemma_split_on_no_sep(s@, sep);
        }
        let mut r: Vec<String> = Vec::new();
        r.push(s.to_owned());
        assert(r.deep_view() =~= seq![s@]);
        r
    } else {
        proof {
            lemma_split_on_first_sep(s@, sep, i as int);
        }
        let head = s.substring_char(0, i).to_owned();
        let rest = s.substring_char(i + 1, n);
        let mut tail = split_char(rest, sep);
        let ghost tail_view = tail.deep_view();
        let mut r: Vec<String> = Vec::new();
        r.push(head);
        r.append(&mut tail);
        proof {
            assert(r.deep_view() =~= seq![head@] + tail_view);
            assert(s@.subrange(0, i as int) == s@.take(i as int));
            assert(s@.subrange(i + 1 as int, s@.len() as int) =~= s@.skip(i + 1));
            assert(r.deep_view() =~= split_on(s@, sep));
        }
        r
    }
}

/// Whether `c` separates tokens in a parameter string.
pub open spec fn is_space_char(c: char) -> bool {
    c == ' ' || c == '\t' || c == '\n' || c == '\r'
}

/// The whitespace-separated tokens of `s`: maximal nonempty runs of
/// non-whitespace characters, in order.
pub open spec fn tokens(s: Seq<char>) -> Seq<Seq<char>>
    decreases s.len(),
{
    if s.len() == 0 {
        Seq::<Seq<char>>::empty()
    } else if is_space_char(s[0]) {
        tokens(s.skip(1))
    } else if s.len() > 1 && !is_space_char(s[1]) {
        let rest = tokens(s.skip(1));
        seq![seq![s[0]] + rest[0]] + rest.skip(1)
    } else {
        seq![seq![s[0]]] + tokens(s.skip(1))
    }
}

/// A run of non-whitespace characters followed by the rest tokenizes as that
/// run, then the rest's own tokens.
pub proof fn lemma_tokens_first_run(s: Seq<char>, d: int)
    requires
        0 < d <= s.len(),
        forall|j: int| 0 <= j < d ==> !is_space_char(s[j]),
        d < s.len() ==> is_space_char(s[d]),
    ensures
        tokens(s) =~~= seq![s.take(d)] + tokens(s.skip(d)),
    decreases d,
{
    if d == 1 {
        if s.len() > 1 {
            assert(is_space_char(s[1]));
        }
        assert(s.take(1) =~= seq![s[0]]);
        assert(s.skip(1) =~= s.skip(d));
    } else {
        assert(!is_space_char(s[1]));
        lemma_tokens_first_run(s.skip(1), d - 1);
        assert(s.skip(1).skip(d - 1) =~= s.skip(d));
        assert(tokens(s.skip(1)).len() >= 1) by {
            assert(tokens(s.skip(1)) =~~= seq![s.skip(1).take(d - 1)] + tokens(s.skip(1).skip(d - 1)));
        }
        assert(seq![s[0]] + s.skip(1).take(d - 1) =~= s.take(d));
    }
}

/// Whether `c` separates tokens in a parameter string.
fn is_space(c: char) -> (r: bool)
    ensures
        r == is_space_char(c),
{
    c == ' ' || c == '\t' || c == '\n' || c == '\r'
}

/// Breaks `s` into its whitespace-separated tokens, in order.
pub fn tokens_of(s: &str) -> (r: Vec<String>)
    ensures
        r.deep_view() == tokens(s@),
    decreases s@.len(),
{
    let n = s.unicode_len();
    if n == 0 {
        let r: Vec<String> = Vec::new();
        proof {
            assert(r.deep_view() =~= tokens(s@));
        }
        return r;
    }
    let c = s.get_char(0);
    if is_space(c) {
        let rest = s.substring_char(1, n);
        let r = tokens_of(rest);
        proof {
            assert(s@.subrange(1, s@.len() as int) =~= s@.skip(1));
        }
        return r;
    }
    let mut d: usize = 1;
    while d < n && !is_space(s.get_char(d))
        invariant
            1 <= d <= n,
            n == s@.len(),
            forall|j: int| 0 <= j < d ==> !is_space_char(s@[j]),
            !is_space_char(s@[0]),
        decreases n - d,
    {
        d = d + 1;
    }
    proof {
        lemma_tokens_first_run(s@, d as int);
    }
    let head = s.substring_char(0, d).to_owned();
    let rest = s.substring_char(d, n);
    let mut tail = tokens_of(rest);
    let ghost tail_view = tail.deep_view();
    let mut r: Vec<String> = Vec::new();
    r.push(head);
    r.append(&mut tail);
    proof {
        assert(r.deep_view() =~= seq![head@] + tail_view);
        assert(s@.subrange(0, d as int) == s@.take(d as int));
        assert(s@.subrange(d as int, s@.len() as int) =~= s@.skip(d as int));
        assert(r.deep_view() =~= tokens(s@));
    }
    r
}

} // verus!
