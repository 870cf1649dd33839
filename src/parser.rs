//! Grammar of bracketed identifier lists: `[a b Ac x0]`.
//!
//! Whitespace (blanks, tabs, newlines, `;` and `,`) separates identifiers;
//! identifiers follow `[A-Za-z][A-Za-z0-9]*` and are taken greedily.

use vstd::prelude::*;
use crate::text::{alnum, is_alnum, is_letter, is_sep, letter, sep};

verus! {

/// What the parser expected where it stopped.
#[derive(Clone, Copy, Debug, PartialEq, Eq, Structural)]
pub enum Expected {
    OpenBracket,
    Identifier,
    CloseBracket,
}

/// A grammar mismatch: the character offset where it happened and what was
/// expected there.
#[derive(Clone, Copy, Debug, PartialEq, Eq, Structural)]
pub struct ParseError {
    pub offset: usize,
    pub expected: Expected,
}

/// The character at `k` of a list body is acceptable where it stands.
pub open spec fn body_char_ok(b: Seq<char>, k: int) -> bool {
    &&& (is_alnum(b[k]) || is_sep(b[k]))
    &&& (k == 0 ==> is_letter(b[k]))
    &&& (k > 0 && is_sep(b[k - 1]) && !is_sep(b[k]) ==> is_letter(b[k]))
}

/// A list body: identifiers separated by whitespace, with none before the
/// first or after the last.
pub open spec fn body_ok(b: Seq<char>) -> bool {
    &&& forall|k: int| 0 <= k < b.len() ==> body_char_ok(b, k)
    &&& (b.len() > 0 ==> is_alnum(b.last()))
}

/// `j` is the first character of a list body that is out of place.
pub open spec fn first_bad(b: Seq<char>, j: int) -> bool {
    &&& 0 <= j < b.len()
    &&& !body_char_ok(b, j)
    &&& forall|k: int| 0 <= k < j ==> body_char_ok(b, k)
}

/// The text between the brackets of `s`.
pub open spec fn body_of(s: Seq<char>) -> Seq<char> {
    s.subrange(1, s.len() - 1)
}

/// `s` is a well-formed bracketed identifier list.
pub open spec fn list_ok(s: Seq<char>) -> bool {
    &&& s.len() >= 2
    &&& s[0] == '['
    &&& s.last() == ']'
    &&& body_ok(body_of(s))
}

/// The maximal runs of non-whitespace in the first `n` characters of `b`.
pub open spec fn words(b: Seq<char>, n: nat) -> Seq<Seq<char>>
    decreases n,
{
    if n == 0 {
        Seq::empty()
    } else {
        let prev = words(b, (n - 1) as nat);
        let c = b[n - 1];
        if is_sep(c) {
            prev
        } else if n >= 2 && !is_sep(b[n - 2]) {
            prev.update(prev.len() - 1, prev.last().push(c))
        } else {
            prev.push(seq![c])
        }
    }
}

pub open spec fn identifiers(s: Seq<char>) -> Seq<Seq<char>> {
    words(body_of(s), body_of(s).len())
}

/// Parses a bracketed identifier list and returns its identifiers in order.
pub fn parse_fn_program(s: &str) -> (r: Result<Vec<String>, ParseError>)
    ensures
        r is Ok <==> list_ok(s@),
        r matches Ok(v) ==> v@.map_values(|x: String| x@) == identifiers(s@),
        s@.len() == 0 || s@[0] != '[' ==> r == Err::<Vec<String>, ParseError>(
            ParseError { offset: 0, expected: Expected::OpenBracket },
        ),
        s@.len() >= 1 && s@[0] == '[' && (s@.len() < 2 || s@.last() != ']') ==> r == Err::<
            Vec<String>,
            ParseError,
        >(ParseError { offset: s@.len() as usize, expected: Expected::CloseBracket }),
        forall|j: int|
            #![trigger first_bad(body_of(s@), j)]
            s@.len() >= 2 && s@[0] == '[' && s@.last() == ']' && first_bad(body_of(s@), j) ==> r
                == Err::<Vec<String>, ParseError>(
                ParseError { offset: (j + 1) as usize, expected: Expected::Identifier },
            ),
        s@.len() >= 2 && s@[0] == '[' && s@.last() == ']' && (forall|k: int|
            0 <= k < body_of(s@).len() ==> body_char_ok(body_of(s@), k)) && body_of(s@).len() > 0
            && !is_alnum(body_of(s@).last()) ==> r == Err::<Vec<String>, ParseError>(
            ParseError { offset: (s@.len() - 1) as usize, expected: Expected::CloseBracket },
        ),
{
    let n = s.unicode_len();
    if n == 0 || s.get_char(0) != '[' {
        return Err(ParseError { offset: 0, expected: Expected::OpenBracket });
    }
    if n < 2 || s.get_char(n - 1) != ']' {
        return Err(ParseError { offset: n, expected: Expected::CloseBracket });
    }
    let b = s.substring_char(1, n - 1);
    let m = n - 2;
    assert(b@ == body_of(s@));
    let mut out: Vec<String> = Vec::new();
    let mut start: usize = 0;
    let mut j: usize = 0;
    while j < m
        invariant
            m == b@.len(),
            n == s@.len(),
            m + 2 == n,
            s@[0] == '[',
            s@.last() == ']',
            b@ == body_of(s@),
            0 <= start <= j <= m,
            forall|k: int| 0 <= k < j ==> body_char_ok(b@, k),
            j > 0 && !is_sep(b@[j - 1]) ==> {
                &&& words(b@, j as nat).len() == out@.len() + 1
                &&& words(b@, j as nat).last() == b@.subrange(start as int, j as int)
                &&& start < j
            },
            !(j > 0 && !is_sep(b@[j - 1])) ==> words(b@, j as nat).len() == out@.len(),
            forall|k: int| 0 <= k < out@.len() ==> #[trigger] out@[k]@ == words(b@, j as nat)[k],
        decreases m - j,
    {
        let c = b.get_char(j);
        let in_word = j > 0 && !sep(b.get_char(j - 1));
        if !(alnum(c) || sep(c)) || (j == 0 && !letter(c)) || (j > 0 && sep(b.get_char(j - 1))
            && !sep(c) && !letter(c)) {
            proof {
                assert(!body_char_ok(b@, j as int));
                assert(!body_ok(body_of(s@)));
            }
            return Err(ParseError { offset: j + 1, expected: Expected::Identifier });
        }
        if sep(c) {
            if in_word {
                let w = String::from_str(b.substring_char(start, j));
                out.push(w);
                proof {
                    assert(out@.map_values(|x: String| x@) =~= words(b@, (j + 1) as nat));
                }
            }
        } else if in_word {
            proof {
                assert(b@.subrange(start as int, j + 1) =~= b@.subrange(start as int, j as int).push(c));
            }
        } else {
            start = j;
            proof {
                assert(b@.subrange(start as int, j + 1) =~= seq![c]);
            }
        }
        j = j + 1;
    }
    if m > 0 && !alnum(b.get_char(m - 1)) {
        return Err(ParseError { offset: m + 1, expected: Expected::CloseBracket });
    }
    if m > 0 {
        let w = String::from_str(b.substring_char(start, m));
        out.push(w);
    }
    proof {
        assert(out@.map_values(|x: String| x@) =~= identifiers(s@));
    }
    Ok(out)
}

} // verus!
