//! Character-level helpers shared by the parsers and message builders.

use vstd::prelude::*;

verus! {

/// The characters of `s`, in order.
pub fn chars_of(s: &str) -> (res: Vec<char>)
    ensures
        res@ == s@,
{
    broadcast use vstd::string::group_string_axioms;
    let mut res: Vec<char> = Vec::new();
    for c in it: s.chars()
        invariant
            res@ == it.seq().take(it.index() as int),
    {
        res.push(c);
    }
    res
}

/// Index of the first `c` in `s`, or `s.len()` when `c` does not occur.
pub open spec fn first_index(s: Seq<char>, c: char) -> int
    decreases s.len(),
{
    if s.len() == 0 {
        0
    } else if s[0] == c {
        0
    } else {
        1 + first_index(s.drop_first(), c)
    }
}

/// Index of the last `c` in `s`, or `s.len()` when `c` does not occur.
pub open spec fn last_index(s: Seq<char>, c: char) -> int
    decreases s.len(),
{
    if s.len() == 0 {
        0
    } else if s.last() == c {
        s.len() - 1
    } else if last_index(s.drop_last(), c) == s.len() - 1 {
        s.len() as int
    } else {
        last_index(s.drop_last(), c)
    }
}

/// The text before the first `c` (the whole text if `c` does not occur):
/// the first item that `str::split(c)` yields.
pub open spec fn field_before(s: Seq<char>, c: char) -> Seq<char> {
    s.take(first_index(s, c))
}

/// `first_index` is the position of the first occurrence.
pub proof fn lemma_first_index(s: Seq<char>, c: char)
    ensures
        0 <= first_index(s, c) <= s.len(),
        first_index(s, c) < s.len() ==> s[first_index(s, c)] == c,
        forall|j: int| 0 <= j < first_index(s, c) ==> s[j] != c,
    decreases s.len(),
{
    if s.len() > 0 && s[0] != c {
        lemma_first_index(s.drop_first(), c);
        assert forall|j: int| 0 <= j < first_index(s, c) implies s[j] != c by {
            if j > 0 {
                assert(s[j] == s.drop_first()[j - 1]);
            }
        }
    }
}

/// `last_index` is the position of the last occurrence.
pub proof fn lemma_last_index(s: Seq<char>, c: char)
    ensures
        0 <= last_index(s, c) <= s.len(),
        last_index(s, c) < s.len() ==> s[last_index(s, c)] == c,
        last_index(s, c) < s.len() ==> forall|j: int| last_index(s, c) < j < s.len() ==> s[j] != c,
        last_index(s, c) == s.len() ==> forall|j: int| 0 <= j < s.len() ==> s[j] != c,
    decreases s.len(),
{
    if s.len() > 0 && s.last() != c {
        lemma_last_index(s.drop_last(), c);
        let p = s.drop_last();
        assert forall|j: int| 0 <= j < p.len() implies p[j] == s[j] by {}
    }
}

/// Finds the first `c` at or after `from`; `v.len()` when there is none.
pub fn find_char(v: &Vec<char>, c: char, from: usize) -> (res: usize)
    requires
        from <= v.len(),
    ensures
        from <= res <= v.len(),
        res < v.len() ==> v@[res as int] == c,
        forall|j: int| from <= j < res ==> v@[j] != c,
{
    let mut i = from;
    while i < v.len()
        invariant
            from <= i <= v.len(),
            forall|j: int| from <= j < i ==> v@[j] != c,
        decreases v.len() - i,
    {
        if v[i] == c {
            return i;
        }
        i = i + 1;
    }
    i
}

/// Any index with the first-occurrence properties is `first_index`.
pub proof fn lemma_first_index_unique(s: Seq<char>, c: char, i: int)
    requires
        0 <= i <= s.len(),
        i < s.len() ==> s[i] == c,
        forall|j: int| 0 <= j < i ==> s[j] != c,
    ensures
        first_index(s, c) == i,
{
    lemma_first_index(s, c);
    let f = first_index(s, c);
    if f < i {
        assert(s[f] != c);
    } else if i < f {
        assert(s[i] != c);
    }
}

/// Finds the last `c` in `v`; `v.len()` when there is none.
pub fn find_last_char(v: &Vec<char>, c: char) -> (res: usize)
    ensures
        res == last_index(v@, c),
        res <= v@.len(),
        res < v@.len() ==> v@[res as int] == c,
{
    proof {
        lemma_last_index(v@, c);
    }
    let mut i = v.len();
    while i > 0
        invariant
            i <= v.len(),
            forall|j: int| i <= j < v.len() ==> v@[j] != c,
        decreases i,
    {
        if v[i - 1] == c {
            proof {
                lemma_last_index_unique(v@, c, i - 1);
            }
            return i - 1;
        }
        i = i - 1;
    }
    proof {
        lemma_last_index_unique(v@, c, v@.len() as int);
    }
    v.len()
}

proof fn lemma_last_index_unique(s: Seq<char>, c: char, i: int)
    requires
        0 <= i <= s.len(),
        i < s.len() ==> s[i] == c,
        i < s.len() ==> forall|j: int| i < j < s.len() ==> s[j] != c,
        i == s.len() ==> forall|j: int| 0 <= j < s.len() ==> s[j] != c,
    ensures
        last_index(s, c) == i,
{
    lemma_last_index(s, c);
    let l = last_index(s, c);
    if l < s.len() && i < s.len() {
        if l < i {
            assert(s[i] != c);
        } else if i < l {
            assert(s[l] != c);
        }
    } else if l < s.len() {
        assert(s[l] != c);
    } else if i < s.len() {
        assert(s[i] != c);
    }
}

/// Finds the first `c` in `v`.
pub fn find_first_char(v: &Vec<char>, c: char) -> (res: usize)
    ensures
        res == first_index(v@, c),
        res <= v@.len(),
        res < v@.len() ==> v@[res as int] == c,
        forall|j: int| 0 <= j < res ==> v@[j] != c,
{
    let i = find_char(v, c, 0);
    proof {
        lemma_first_index_unique(v@, c, i as int);
    }
    i
}

/// The characters `from..to` of `s` as an owned string.
pub fn substring(s: &str, from: usize, to: usize) -> (res: String)
    requires
        from <= to <= s@.len(),
    ensures
        res@ == s@.subrange(from as int, to as int),
{
    String::from_str(s.substring_char(from, to))
}

/// ASCII lower-casing of one character (others unchanged).
pub open spec fn ascii_lower(c: char) -> char {
    if 'A' <= c && c <= 'Z' {
        ((c as u32) + 32) as char
    } else {
        c
    }
}

/// Whether two texts are equal ignoring ASCII case
/// (`str::eq_ignore_ascii_case`).
pub open spec fn eq_ignore_ascii_case(a: Seq<char>, b: Seq<char>) -> bool {
    a.len() == b.len() && forall|i: int| 0 <= i < a.len() ==> ascii_lower(#[trigger] a[i]) == ascii_lower(b[i])
}

fn lower_char(c: char) -> (res: char)
    ensures
        res == ascii_lower(c),
{
    if 'A' <= c && c <= 'Z' {
        let code = (c as u32) + 32;
        proof {
            assert(('a' as u32) <= code <= ('z' as u32));
        }
        char_from_ascii_letter(code)
    } else {
        c
    }
}

fn char_from_ascii_letter(code: u32) -> (res: char)
    requires
        ('a' as u32) <= code <= ('z' as u32),
    ensures
        res == code as char,
{
    let byte = code as u8;
    byte as char
}

/// `str::eq_ignore_ascii_case` on a character sequence and a text.
pub fn chars_eq_ignore_ascii_case(a: &Vec<char>, b: &str) -> (res: bool)
    ensures
        res == eq_ignore_ascii_case(a@, b@),
{
    let bv = chars_of(b);
    if a.len() != bv.len() {
        return false;
    }
    let mut i: usize = 0;
    while i < a.len()
        invariant
            a@.len() == bv@.len(),
            bv@ == b@,
            i <= a.len(),
            forall|j: int| 0 <= j < i ==> ascii_lower(#[trigger] a@[j]) == ascii_lower(bv@[j]),
        decreases a.len() - i,
    {
        if lower_char(a[i]) != lower_char(bv[i]) {
            return false;
        }
        i = i + 1;
    }
    true
}

} // verus!
