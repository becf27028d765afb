//! Small verified text utilities over character vectors: literal-to-vector
//! conversion, prefix tests, the `" = "` separator of history lines, and
//! whitespace trimming.

use vstd::prelude::*;
use vstd::string::{StrSliceExecFns, StringExecFns};

verus! {

/// How a display string is shortened to a column: over-long text keeps its
/// first `max_len - 3` characters and ends in `"..."`; text that fits, or a
/// column too narrow for the ellipsis, passes through whole.
pub open spec fn spec_truncate(s: Seq<char>, max_len: int) -> Seq<char> {
    if s.len() > max_len && max_len >= 3 {
        s.take(max_len - 3) + "..."@
    } else {
        s
    }
}

/// Shortens `s` to at most `max_len` characters, ending over-long text with
/// `"..."`.
pub fn truncate_string(s: &str, max_len: usize) -> (r: String)
    requires
        s.is_ascii(),
    ensures
        r@ == spec_truncate(s@, max_len as int),
{
    let n = s.unicode_len();
    if n > max_len && max_len >= 3 {
        let head = s.substring_ascii(0, max_len - 3);
        proof {
            assert(head@ =~= s@.take(max_len - 3));
        }
        head.to_owned().concat("...")
    } else {
        s.to_owned()
    }
}

/// The characters of `s`, as a vector.
pub fn chars_of(s: &str) -> (r: Vec<char>)
    ensures
        r@ == s@,
{
    let n = s.unicode_len();
    let mut r: Vec<char> = Vec::new();
    let mut i: usize = 0;
    while i < n
        invariant
            i <= n,
            n == s@.len(),
            r@ =~= s@.take(i as int),
        decreases n - i,
    {
        r.push(s.get_char(i));
        assert(r@ =~= s@.take(i as int + 1));
        i = i + 1;
    }
    proof {
        assert(s@.take(n as int) =~= s@);
    }
    r
}

/// A copy of the character vector.
pub fn clone_chars(v: &Vec<char>) -> (r: Vec<char>)
    ensures
        r@ == v@,
{
    let r = v.clone();
    proof {
        assert(r@ =~= v@);
    }
    r
}

/// `p` is a prefix of `s`.
pub open spec fn spec_is_prefix(p: Seq<char>, s: Seq<char>) -> bool {
    p.len() <= s.len() && s.take(p.len() as int) == p
}

/// Whether `s` starts with `p`.
pub fn starts_with(s: &Vec<char>, p: &Vec<char>) -> (r: bool)
    ensures
        r == spec_is_prefix(p@, s@),
{
    if p.len() > s.len() {
        proof {
            assert(!spec_is_prefix(p@, s@));
        }
        return false;
    }
    let mut i: usize = 0;
    while i < p.len()
        invariant
            i <= p@.len() <= s@.len(),
            forall|j: int| 0 <= j < i ==> s@[j] == p@[j],
        decreases p@.len() - i,
    {
        if s[i] != p[i] {
            proof {
                assert(s@.take(p@.len() as int)[i as int] != p@[i as int]);
            }
            return false;
        }
        i = i + 1;
    }
    proof {
        assert(s@.take(p@.len() as int) =~= p@);
    }
    true
}

/// The copied range `[a, b)` of `s`.
pub fn subrange_chars(s: &Vec<char>, a: usize, b: usize) -> (r: Vec<char>)
    requires
        a <= b <= s@.len(),
    ensures
        r@ == s@.subrange(a as int, b as int),
{
    let mut r: Vec<char> = Vec::new();
    let mut i: usize = a;
    while i < b
        invariant
            a <= i <= b <= s@.len(),
            r@ =~= s@.subrange(a as int, i as int),
        decreases b - i,
    {
        r.push(s[i]);
        assert(r@ =~= s@.subrange(a as int, i as int + 1));
        i = i + 1;
    }
    r
}

/// The `" = "` separator occurs at position `i` of `s`.
pub open spec fn spec_sep_at(s: Seq<char>, i: int) -> bool {
    &&& 0 <= i
    &&& i + 3 <= s.len()
    &&& s[i] == ' '
    &&& s[i + 1] == '='
    &&& s[i + 2] == ' '
}

/// The first position at or after `from` where `" = "` occurs.
pub open spec fn first_sep_from(s: Seq<char>, from: int) -> Option<int>
    decreases s.len() - from,
    when from >= 0
{
    if from + 3 > s.len() {
        None
    } else if s[from] == ' ' && s[from + 1] == '=' && s[from + 2] == ' ' {
        Some(from)
    } else {
        first_sep_from(s, from + 1)
    }
}

/// The text before the first `" = "` — the whole text when there is none.
/// This is the expression part of a history line.
pub open spec fn spec_before_sep(s: Seq<char>) -> Seq<char> {
    match first_sep_from(s, 0) {
        Some(i) => s.take(i),
        None => s,
    }
}

/// The text between the first `" = "` and the next one (or the end): the
/// recorded result part of a history line, when the line has one.
pub open spec fn spec_recall_text(s: Seq<char>) -> Option<Seq<char>> {
    match first_sep_from(s, 0) {
        None => None,
        Some(i) => match first_sep_from(s, i + 3) {
            Some(j) => Some(s.subrange(i + 3, j)),
            None => Some(s.subrange(i + 3, s.len() as int)),
        },
    }
}

/// Finds the first `" = "` at or after `from`.
pub fn find_sep_from(s: &Vec<char>, from: usize) -> (r: Option<usize>)
    ensures
        match r {
            Some(i) => first_sep_from(s@, from as int) == Some(i as int) && from <= i && i + 3
                <= s@.len(),
            None => first_sep_from(s@, from as int) == None::<int>,
        },
{
    let mut i: usize = from;
    loop
        invariant
            from <= i,
            first_sep_from(s@, from as int) == first_sep_from(s@, i as int),
        ensures
            match first_sep_from(s@, from as int) {
                Some(j) => i == j && spec_sep_at(s@, j),
                None => i + 3 > s@.len(),
            },
        decreases s@.len() + 3 - i,
    {
        if i >= s.len() || s.len() - i < 3 {
            break ;
        }
        if s[i] == ' ' && s[i + 1] == '=' && s[i + 2] == ' ' {
            break ;
        }
        i = i + 1;
    }
    if s.len() >= 3 && i <= s.len() - 3 {
        Some(i)
    } else {
        None
    }
}

/// The expression part of a history line: everything before its `" = "`.
pub fn before_sep(s: &Vec<char>) -> (r: Vec<char>)
    ensures
        r@ == spec_before_sep(s@),
{
    match find_sep_from(s, 0) {
        Some(i) => subrange_chars(s, 0, i),
        None => clone_chars(s),
    }
}

/// The recorded result part of a history line, when the line has one.
pub fn recall_text(s: &Vec<char>) -> (r: Option<Vec<char>>)
    ensures
        match r {
            Some(t) => spec_recall_text(s@) == Some(t@),
            None => spec_recall_text(s@) == None::<Seq<char>>,
        },
{
    match find_sep_from(s, 0) {
        None => None,
        Some(i) => {
            let n = s.len();
            assert(i + 3 <= n);
            match find_sep_from(s, i + 3) {
                Some(j) => Some(subrange_chars(s, i + 3, j)),
                None => Some(subrange_chars(s, i + 3, s.len())),
            }
        },
    }
}

/// An ASCII whitespace character, as `str::trim` strips from the buffers
/// this engine holds (whose alphabet is ASCII).
pub open spec fn spec_is_ws(c: char) -> bool {
    c == ' ' || c == '\t' || c == '\n' || c == '\r' || c as u32 == 12
}

/// Length of the leading whitespace run.
pub open spec fn ws_prefix_len(s: Seq<char>) -> nat
    decreases s.len(),
{
    if s.len() > 0 && spec_is_ws(s[0]) {
        1 + ws_prefix_len(s.drop_first())
    } else {
        0
    }
}

/// The text with leading and trailing whitespace removed.
pub open spec fn spec_trim(s: Seq<char>) -> Seq<char> {
    let lead = ws_prefix_len(s) as int;
    let trail = ws_prefix_len(s.skip(lead).reverse()) as int;
    s.subrange(lead, s.len() - trail)
}

/// An ASCII whitespace character.
pub fn is_ws(c: char) -> (r: bool)
    ensures
        r == spec_is_ws(c),
{
    c == ' ' || c == '\t' || c == '\n' || c == '\r' || c as u32 == 12
}

/// Strips leading and trailing whitespace.
pub fn trim_chars(s: &Vec<char>) -> (r: Vec<char>)
    ensures
        r@ == spec_trim(s@),
{
    let mut a: usize = 0;
    proof {
        assert(s@.skip(0) =~= s@);
    }
    while a < s.len() && is_ws(s[a])
        invariant
            a <= s@.len(),
            ws_prefix_len(s@) == a + ws_prefix_len(s@.skip(a as int)),
            forall|j: int| 0 <= j < a ==> spec_is_ws(s@[j]),
        decreases s@.len() - a,
    {
        proof {
            assert(s@.skip(a as int)[0] == s@[a as int]);
            assert(s@.skip(a as int).drop_first() =~= s@.skip(a as int + 1));
        }
        a = a + 1;
    }
    proof {
        if a < s@.len() {
            assert(s@.skip(a as int)[0] == s@[a as int]);
        }
        assert(ws_prefix_len(s@.skip(a as int)) == 0);
        assert(ws_prefix_len(s@) == a);
    }
    let ghost tail = s@.skip(a as int).reverse();
    let mut b: usize = s.len();
    proof {
        assert(tail.skip(0) =~= tail);
    }
    while b > a && is_ws(s[b - 1])
        invariant
            a <= b <= s@.len(),
            tail == s@.skip(a as int).reverse(),
            ws_prefix_len(tail) == (s@.len() - b) + ws_prefix_len(tail.skip(s@.len() - b)),
            forall|j: int| b <= j < s@.len() ==> spec_is_ws(s@[j]),
        decreases b,
    {
        proof {
            assert(tail.skip(s@.len() - b)[0] == tail[s@.len() - b]);
            assert(tail[s@.len() - b] == s@[b - 1]);
            assert(tail.skip(s@.len() - b).drop_first() =~= tail.skip(s@.len() - (b - 1)));
        }
        b = b - 1;
    }
    proof {
        if b > a {
            assert(tail.skip(s@.len() - b)[0] == tail[s@.len() - b]);
            assert(tail[s@.len() - b] == s@[b - 1]);
            assert(ws_prefix_len(tail.skip(s@.len() - b)) == 0);
        } else {
            assert(tail.skip(s@.len() - b) =~= Seq::<char>::empty());
        }
        assert(ws_prefix_len(tail) == s@.len() - b);
    }
    subrange_chars(s, a, b)
}

} // verus!
