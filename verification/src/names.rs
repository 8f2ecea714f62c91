//! Text utilities for domain names and configuration strings.
//!
//! A domain name is carried through the library by its presentation text
//! (the form `www.example.com.`).  Two names denote the same owner when their
//! texts agree up to ASCII case, which is how DNS compares owner names.
use vstd::prelude::*;

verus! {

/// ASCII lower-casing of one character; every other character is unchanged.
pub open spec fn ascii_lower_char(c: char) -> char {
    if 'A' <= c && c <= 'Z' {
        ((c as u32) + 32) as char
    } else {
        c
    }
}

/// ASCII upper-casing of one character; every other character is unchanged.
pub open spec fn ascii_upper_char(c: char) -> char {
    if 'a' <= c && c <= 'z' {
        ((c as u32) - 32) as char
    } else {
        c
    }
}

/// ASCII lower-casing of a text.
pub open spec fn ascii_lower(s: Seq<char>) -> Seq<char> {
    Seq::new(s.len(), |i: int| ascii_lower_char(s[i]))
}

/// ASCII upper-casing of a text.
pub open spec fn ascii_upper(s: Seq<char>) -> Seq<char> {
    Seq::new(s.len(), |i: int| ascii_upper_char(s[i]))
}

/// Whether every character of a text is ASCII.
pub open spec fn all_ascii(s: Seq<char>) -> bool {
    forall|i: int| 0 <= i < s.len() ==> (s[i] as u32) < 128
}

/// Whether a text holds an ASCII lower-case letter.
pub open spec fn has_ascii_lowercase(s: Seq<char>) -> bool {
    exists|i: int| 0 <= i < s.len() && 'a' <= #[trigger] s[i] && s[i] <= 'z'
}

/// Two domain-name texts name the same owner: equal up to ASCII case.
pub open spec fn same_name(a: Seq<char>, b: Seq<char>) -> bool {
    ascii_lower(a) == ascii_lower(b)
}

/// `p` is a prefix of `s`.
pub open spec fn has_prefix(s: Seq<char>, p: Seq<char>) -> bool {
    p.len() <= s.len() && s.take(p.len() as int) == p
}

/// `p` is a suffix of `s`.
pub open spec fn has_suffix(s: Seq<char>, p: Seq<char>) -> bool {
    p.len() <= s.len() && s.skip(s.len() - p.len()) == p
}

/// `s` with every leading repetition of the non-empty pattern `p` removed.
pub open spec fn trim_leading(s: Seq<char>, p: Seq<char>) -> Seq<char>
    decreases s.len(),
{
    if p.len() > 0 && has_prefix(s, p) {
        trim_leading(s.skip(p.len() as int), p)
    } else {
        s
    }
}

/// The characters of a string, in order.
pub fn chars_of(s: &str) -> (r: Vec<char>)
    ensures
        r@ == s@,
{
    let mut out: Vec<char> = Vec::new();
    for c in it: s.chars()
        invariant
            out@ == it.seq().take(it.index() as int),
            it.seq() == s@,
    {
        out.push(c);
    }
    out
}

/// ASCII lower-casing of one character.
pub fn lower_char(c: char) -> (r: char)
    ensures
        r == ascii_lower_char(c),
{
    if 'A' <= c && c <= 'Z' {
        let v: u32 = (c as u32) + 32;
        assert(v == 'a' as u32 + (c as u32 - 'A' as u32));
        char_from_ascii(v)
    } else {
        c
    }
}

fn char_from_ascii(v: u32) -> (r: char)
    requires
        v < 128,
    ensures
        r == v as char,
{
    let b: u8 = v as u8;
    b as char
}

/// The ASCII lower-cased characters of a text.
pub fn lower_chars(s: &str) -> (r: Vec<char>)
    ensures
        r@ == ascii_lower(s@),
{
    let cs = chars_of(s);
    let mut out: Vec<char> = Vec::new();
    let mut i: usize = 0;
    while i < cs.len()
        invariant
            i <= cs.len(),
            cs@ == s@,
            out@ == ascii_lower(s@).take(i as int),
        decreases cs.len() - i,
    {
        let c = lower_char(cs[i]);
        out.push(c);
        i = i + 1;
        assert(out@ =~= ascii_lower(s@).take(i as int));
    }
    assert(out@ =~= ascii_lower(s@));
    out
}

/// Whether two domain-name texts name the same owner (ASCII case-insensitive).
pub fn names_match(a: &str, b: &str) -> (r: bool)
    ensures
        r == same_name(a@, b@),
{
    let la = lower_chars(a);
    let lb = lower_chars(b);
    if la.len() != lb.len() {
        assert(ascii_lower(a@).len() != ascii_lower(b@).len());
        return false;
    }
    let mut i: usize = 0;
    while i < la.len()
        invariant
            i <= la.len(),
            la.len() == lb.len(),
            la@ == ascii_lower(a@),
            lb@ == ascii_lower(b@),
            forall|j: int| 0 <= j < i ==> la@[j] == lb@[j],
        decreases la.len() - i,
    {
        if la[i] != lb[i] {
            return false;
        }
        i = i + 1;
    }
    assert(la@ =~= lb@);
    true
}

/// Whether a text holds an ASCII lower-case letter.
pub fn contains_ascii_lowercase(s: &str) -> (r: bool)
    ensures
        r == has_ascii_lowercase(s@),
{
    let cs = chars_of(s);
    let mut i: usize = 0;
    while i < cs.len()
        invariant
            i <= cs.len(),
            cs@ == s@,
            forall|j: int| 0 <= j < i ==> !('a' <= #[trigger] s@[j] && s@[j] <= 'z'),
        decreases cs.len() - i,
    {
        if 'a' <= cs[i] && cs[i] <= 'z' {
            return true;
        }
        i = i + 1;
    }
    false
}

/// Whether the text ends with the character `c`.
pub fn ends_with_char(s: &str, c: char) -> (r: bool)
    ensures
        r == (s@.len() > 0 && s@.last() == c),
{
    let cs = chars_of(s);
    cs.len() > 0 && cs[cs.len() - 1] == c
}

/// Whether `p` is a prefix of `s` (`str::starts_with`).
pub fn starts_with(s: &str, p: &str) -> (r: bool)
    ensures
        r == has_prefix(s@, p@),
{
    let cs = chars_of(s);
    let cp = chars_of(p);
    assert(cs@.skip(0) =~= cs@);
    prefix_at(&cs, &cp, 0)
}

/// Whether `p` occurs in `s` at position `at`.
fn prefix_at(cs: &Vec<char>, cp: &Vec<char>, at: usize) -> (r: bool)
    requires
        at <= cs.len(),
    ensures
        r == has_prefix(cs@.skip(at as int), cp@),
{
    if cp.len() > cs.len() - at {
        return false;
    }
    let mut i: usize = 0;
    while i < cp.len()
        invariant
            i <= cp.len(),
            at + cp.len() <= cs.len(),
            forall|j: int| 0 <= j < i ==> cs@[at + j] == cp@[j],
        decreases cp.len() - i,
    {
        if cs[at + i] != cp[i] {
            assert(cs@.skip(at as int).take(cp@.len() as int)[i as int] != cp@[i as int]);
            return false;
        }
        i = i + 1;
    }
    assert(cs@.skip(at as int).take(cp@.len() as int) =~= cp@);
    true
}

/// Whether `p` is a suffix of `s` (`str::ends_with`).
pub fn ends_with(s: &str, p: &str) -> (r: bool)
    ensures
        r == has_suffix(s@, p@),
{
    let cs = chars_of(s);
    let cp = chars_of(p);
    if cp.len() > cs.len() {
        return false;
    }
    let at = cs.len() - cp.len();
    let r = prefix_at(&cs, &cp, at);
    assert(cs@.skip(at as int).take(cp@.len() as int) =~= cs@.skip(at as int));
    r
}

/// `s` with every leading repetition of `p` removed (`str::trim_start_matches`).
pub fn trim_start_matches(s: &str, p: &str) -> (r: String)
    ensures
        r@ == trim_leading(s@, p@),
{
    let cs = chars_of(s);
    let cp = chars_of(p);
    let mut at: usize = 0;
    assert(s@.skip(0) =~= s@);
    if cp.len() > 0 {
        while prefix_at(&cs, &cp, at)
            invariant
                at <= cs.len(),
                cp.len() > 0,
                cs@ == s@,
                cp@ == p@,
                trim_leading(s@, p@) == trim_leading(s@.skip(at as int), p@),
            decreases cs.len() - at,
        {
            let ghost before = at;
            at = at + cp.len();
            assert(s@.skip(before as int).skip(cp@.len() as int) =~= s@.skip(at as int));
        }
    }
    assert(trim_leading(s@, p@) == trim_leading(s@.skip(at as int), p@)) by {
        if cp.len() == 0 {
            assert(s@.skip(0) =~= s@);
        }
    }
    assert(trim_leading(s@.skip(at as int), p@) == s@.skip(at as int)) by {
        if cp.len() > 0 {
            assert(cs@.skip(at as int) == s@.skip(at as int));
        }
    }
    let rest = s.substring_char(at, cs.len());
    assert(s@.subrange(at as int, s@.len() as int) =~= s@.skip(at as int));
    rest.to_owned()
}

} // verus!
