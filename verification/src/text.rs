//! Text helpers shared by the whole crate: character access, prefix tests and
//! the lexicographic order on strings, all stated over `Seq<char>`.
use vstd::prelude::*;
use vstd::string::*;

verus! {

/// `String::push` appends exactly one character and leaves the rest alone.
pub assume_specification[ std::string::String::push ](s: &mut std::string::String, c: char)
    ensures
        final(s)@ == old(s)@.push(c),
;

/// `a` comes strictly before `b` in the lexicographic order by code point.
pub open spec fn lex_lt(a: Seq<char>, b: Seq<char>) -> bool
    decreases a.len(),
{
    if b.len() == 0 {
        false
    } else if a.len() == 0 {
        true
    } else if a[0] != b[0] {
        a[0] < b[0]
    } else {
        lex_lt(a.drop_first(), b.drop_first())
    }
}

/// `p` is a leading part of `s`.
pub open spec fn has_prefix(s: Seq<char>, p: Seq<char>) -> bool {
    p.len() <= s.len() && s.subrange(0, p.len() as int) == p
}

/// The ASCII letters `A`..`Z` mapped to `a`..`z`; every other character as it is.
pub open spec fn lower_char(c: char) -> char {
    if 'A' <= c && c <= 'Z' {
        ((c as u32) + 32) as char
    } else {
        c
    }
}

/// A text with every character passed through [`lower_char`].
pub open spec fn lower_text(s: Seq<char>) -> Seq<char> {
    Seq::new(s.len(), |i: int| lower_char(s[i]))
}

/// The order is irreflexive.
pub proof fn lex_lt_irreflexive(a: Seq<char>)
    ensures
        !lex_lt(a, a),
    decreases a.len(),
{
    if a.len() > 0 {
        lex_lt_irreflexive(a.drop_first());
    }
}

/// The order is transitive.
pub proof fn lex_lt_transitive(a: Seq<char>, b: Seq<char>, c: Seq<char>)
    requires
        lex_lt(a, b),
        lex_lt(b, c),
    ensures
        lex_lt(a, c),
    decreases a.len(),
{
    if a.len() > 0 && a[0] == b[0] && b[0] == c[0] {
        lex_lt_transitive(a.drop_first(), b.drop_first(), c.drop_first());
    }
}

/// The order is total: two texts are equal or one comes before the other.
pub proof fn lex_lt_total(a: Seq<char>, b: Seq<char>)
    ensures
        a == b || lex_lt(a, b) || lex_lt(b, a),
    decreases a.len(),
{
    if a.len() == 0 || b.len() == 0 {
        if a.len() == 0 && b.len() == 0 {
            assert(a =~= b);
        }
    } else if a[0] == b[0] {
        lex_lt_total(a.drop_first(), b.drop_first());
        if a.drop_first() == b.drop_first() {
            assert(a =~= seq![a[0]] + a.drop_first());
            assert(b =~= seq![b[0]] + b.drop_first());
        }
    } else {
    }
}

/// The order is asymmetric.
pub proof fn lex_lt_asymmetric(a: Seq<char>, b: Seq<char>)
    requires
        lex_lt(a, b),
    ensures
        !lex_lt(b, a),
{
    if lex_lt(b, a) {
        lex_lt_transitive(a, b, a);
        lex_lt_irreflexive(a);
    }
}

/// The decimal digits of a number, without leading zeros.
pub open spec fn decimal(n: nat) -> Seq<char>
    decreases n,
{
    if n < 10 {
        seq![(('0' as int) + n) as char]
    } else {
        decimal(n / 10).push((('0' as int) + n % 10) as char)
    }
}

/// Appends the decimal digits of a number to a string.
pub fn push_decimal(s: &mut String, n: u64)
    ensures
        final(s)@ == old(s)@ + decimal(n as nat),
    decreases n,
{
    if n >= 10 {
        push_decimal(s, n / 10);
    }
    let d: u8 = (n % 10) as u8;
    s.push((48u8 + d) as char);
    assert(s@ =~= old(s)@ + decimal(n as nat));
}

/// Whether two string slices hold the same characters.
pub fn same_text(a: &str, b: &str) -> (r: bool)
    ensures
        r == (a@ == b@),
{
    let x = a.to_owned();
    let y = b.to_owned();
    x == y
}

/// The characters of a string slice, in order.
pub fn chars_of(s: &str) -> (v: Vec<char>)
    ensures
        v@ == s@,
{
    let mut v: Vec<char> = Vec::new();
    for c in it: s.chars()
        invariant
            v@ == it.seq().take(it.index() as int),
            it.seq() == s@,
    {
        v.push(c);
    }
    v
}

/// A string made of the given characters.
pub fn text_of(v: &Vec<char>) -> (s: String)
    ensures
        s@ == v@,
{
    let mut s = String::new();
    let mut i: usize = 0;
    while i < v.len()
        invariant
            i <= v.len(),
            s@ == v@.take(i as int),
        decreases v.len() - i,
    {
        s.push(v[i]);
        i += 1;
        assert(v@.take(i as int) =~= v@.take(i - 1).push(v@[i - 1]));
    }
    assert(v@.take(v.len() as int) =~= v@);
    s
}

/// Whether `s` starts with `p`.
pub fn starts_with(s: &str, p: &str) -> (r: bool)
    ensures
        r == has_prefix(s@, p@),
{
    let sv = chars_of(s);
    let pv = chars_of(p);
    if pv.len() > sv.len() {
        return false;
    }
    let mut i: usize = 0;
    while i < pv.len()
        invariant
            i <= pv.len() <= sv.len(),
            sv@ == s@,
            pv@ == p@,
            sv@.subrange(0, i as int) == pv@.subrange(0, i as int),
        decreases pv.len() - i,
    {
        if sv[i] != pv[i] {
            assert(sv@.subrange(0, pv.len() as int)[i as int] != pv@[i as int]);
            return false;
        }
        i += 1;
        assert(sv@.subrange(0, i as int) =~= sv@.subrange(0, i - 1).push(sv@[i - 1]));
        assert(pv@.subrange(0, i as int) =~= pv@.subrange(0, i - 1).push(pv@[i - 1]));
    }
    assert(pv@.subrange(0, pv.len() as int) =~= pv@);
    true
}

/// Comparing from position `i` on decides the order when the texts agree before it.
proof fn lex_lt_skip(a: Seq<char>, b: Seq<char>, i: int)
    requires
        0 <= i <= a.len(),
        i <= b.len(),
        a.subrange(0, i) == b.subrange(0, i),
    ensures
        lex_lt(a, b) == lex_lt(a.skip(i), b.skip(i)),
    decreases i,
{
    if i > 0 {
        assert(a[0] == a.subrange(0, i)[0]);
        assert(b[0] == b.subrange(0, i)[0]);
        assert(a.drop_first().subrange(0, i - 1) =~= a.subrange(0, i).drop_first());
        assert(b.drop_first().subrange(0, i - 1) =~= b.subrange(0, i).drop_first());
        lex_lt_skip(a.drop_first(), b.drop_first(), i - 1);
        assert(a.drop_first().skip(i - 1) =~= a.skip(i));
        assert(b.drop_first().skip(i - 1) =~= b.skip(i));
    } else {
        assert(a.skip(0) =~= a);
        assert(b.skip(0) =~= b);
    }
}

/// Whether `a` comes strictly before `b` in the lexicographic order.
pub fn text_lt(a: &str, b: &str) -> (r: bool)
    ensures
        r == lex_lt(a@, b@),
{
    let av = chars_of(a);
    let bv = chars_of(b);
    let mut i: usize = 0;
    while i < av.len() && i < bv.len()
        invariant
            i <= av.len(),
            i <= bv.len(),
            av@ == a@,
            bv@ == b@,
            av@.subrange(0, i as int) == bv@.subrange(0, i as int),
        decreases av.len() - i,
    {
        if av[i] != bv[i] {
            proof {
                lex_lt_skip(av@, bv@, i as int);
            }
            return av[i] < bv[i];
        }
        i += 1;
        assert(av@.subrange(0, i as int) =~= av@.subrange(0, i - 1).push(av@[i - 1]));
        assert(bv@.subrange(0, i as int) =~= bv@.subrange(0, i - 1).push(bv@[i - 1]));
    }
    proof {
        lex_lt_skip(av@, bv@, i as int);
    }
    i < bv.len()
}

} // verus!
