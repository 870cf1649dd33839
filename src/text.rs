//! Character classes and sequence-of-text helpers shared by the grammar,
//! the path splitter and the printers.

use vstd::prelude::*;

verus! {

pub open spec fn is_letter(c: char) -> bool {
    ('a' <= c && c <= 'z') || ('A' <= c && c <= 'Z')
}

pub open spec fn is_alnum(c: char) -> bool {
    is_letter(c) || ('0' <= c && c <= '9')
}

/// Whitespace of the grammar: blanks, tabs, newlines, `;` and `,`.
pub open spec fn is_sep(c: char) -> bool {
    c == ' ' || c == '\t' || c == '\n' || c == ';' || c == ','
}

pub fn letter(c: char) -> (r: bool)
    ensures
        r == is_letter(c),
{
    ('a' <= c && c <= 'z') || ('A' <= c && c <= 'Z')
}

pub fn alnum(c: char) -> (r: bool)
    ensures
        r == is_alnum(c),
{
    letter(c) || ('0' <= c && c <= '9')
}

pub fn sep(c: char) -> (r: bool)
    ensures
        r == is_sep(c),
{
    c == ' ' || c == '\t' || c == '\n' || c == ';' || c == ','
}

/// The pieces of `s` between occurrences of `d`, empty pieces included:
/// the first `n` characters give `split_prefix(s, d, n)`.
pub open spec fn split_prefix(s: Seq<char>, d: char, n: nat) -> Seq<Seq<char>>
    decreases n,
{
    if n == 0 {
        seq![Seq::<char>::empty()]
    } else {
        let prev = split_prefix(s, d, (n - 1) as nat);
        if s[n - 1] == d {
            prev.push(Seq::<char>::empty())
        } else {
            prev.update(prev.len() - 1, prev.last().push(s[n - 1]))
        }
    }
}

pub open spec fn split_on(s: Seq<char>, d: char) -> Seq<Seq<char>> {
    split_prefix(s, d, s.len())
}

pub proof fn lemma_split_prefix_nonempty(s: Seq<char>, d: char, n: nat)
    ensures
        split_prefix(s, d, n).len() >= 1,
    decreases n,
{
    if n > 0 {
        lemma_split_prefix_nonempty(s, d, (n - 1) as nat);
    }
}

/// The elements of `parts` written one after the other with `sep` between
/// two neighbours.
pub open spec fn joined(parts: Seq<Seq<char>>, sep: Seq<char>) -> Seq<char>
    decreases parts.len(),
{
    if parts.len() == 0 {
        Seq::<char>::empty()
    } else if parts.len() == 1 {
        parts[0]
    } else {
        joined(parts.drop_last(), sep) + sep + parts.last()
    }
}

/// Splits `s` at every `d`, keeping empty pieces, as `str::split` does.
pub fn split_char(s: &str, d: char) -> (r: Vec<String>)
    ensures
        r@.map_values(|x: String| x@) == split_on(s@, d),
{
    let n = s.unicode_len();
    let mut out: Vec<String> = Vec::new();
    let mut start: usize = 0;
    let mut i: usize = 0;
    while i < n
        invariant
            n == s@.len(),
            0 <= start <= i <= n,
            split_prefix(s@, d, i as nat).len() == out@.len() + 1,
            forall|k: int|
                0 <= k < out@.len() ==> #[trigger] out@[k]@ == split_prefix(s@, d, i as nat)[k],
            split_prefix(s@, d, i as nat).last() == s@.subrange(start as int, i as int),
        decreases n - i,
    {
        let c = s.get_char(i);
        proof {
            lemma_split_prefix_nonempty(s@, d, i as nat);
        }
        if c == d {
            let piece = String::from_str(s.substring_char(start, i));
            out.push(piece);
            start = i + 1;
        } else {
            proof {
                assert(s@.subrange(start as int, i + 1) =~= s@.subrange(start as int, i as int).push(c));
            }
        }
        i = i + 1;
    }
    let last = String::from_str(s.substring_char(start, n));
    out.push(last);
    proof {
        assert(out@.map_values(|x: String| x@) =~= split_on(s@, d));
    }
    out
}

} // verus!
