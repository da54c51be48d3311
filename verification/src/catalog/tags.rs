//! Tags of an object: a set of texts, kept in ascending order.
use vstd::prelude::*;
use crate::catalog::model::ascending;
use crate::models::object::texts;
use crate::text::{lex_lt, lex_lt_irreflexive, lex_lt_total, lex_lt_transitive, same_text, text_lt};

verus! {

/// An ordered list of tags with one more tag, at its place, unless it is
/// there already.
pub open spec fn insert_tag(s: Seq<Seq<char>>, t: Seq<char>) -> Seq<Seq<char>>
    decreases s.len(),
{
    if s.len() == 0 {
        seq![t]
    } else if s.last() == t {
        s
    } else if lex_lt(s.last(), t) {
        s.push(t)
    } else {
        insert_tag(s.drop_last(), t).push(s.last())
    }
}

/// The tags of a list in ascending order, each once.
pub open spec fn sorted_tags(s: Seq<Seq<char>>) -> Seq<Seq<char>>
    decreases s.len(),
{
    if s.len() == 0 {
        Seq::empty()
    } else {
        insert_tag(sorted_tags(s.drop_last()), s.last())
    }
}

/// Where a tag goes in an ordered list: after all that come before it.
pub proof fn insert_tag_at(s: Seq<Seq<char>>, t: Seq<char>, i: int)
    requires
        ascending(s),
        0 <= i <= s.len(),
        forall|j: int| 0 <= j < i ==> lex_lt(#[trigger] s[j], t),
        i < s.len() ==> !lex_lt(s[i], t),
    ensures
        insert_tag(s, t) == if i < s.len() && s[i] == t {
            s
        } else {
            s.insert(i, t)
        },
    decreases s.len(),
{
    if s.len() == 0 {
        assert(s.insert(0, t) =~= seq![t]);
    } else {
        let n = (s.len() - 1) as int;
        let d = s.drop_last();
        if i == s.len() {
            lex_lt_irreflexive(t);
            assert(lex_lt(s[n], t));
            assert(s.insert(i, t) =~= s.push(t));
        } else if i == n {
            lex_lt_total(s[n], t);
            if s[n] != t {
                insert_tag_at(d, t, i);
                assert(d.insert(i, t).push(s[n]) =~= s.insert(i, t));
            }
        } else {
            // i < n: the last tag comes after the tag at i, so after t or equal to none
            assert(lex_lt(s[i], s[n]));
            if lex_lt(s[n], t) {
                lex_lt_transitive(s[i], s[n], t);
            }
            if s[n] == t {
                assert(lex_lt(s[i], t));
            }
            insert_tag_at(d, t, i);
            if s[i] == t {
                assert(d.push(s[n]) =~= s);
            } else {
                assert(d.insert(i, t).push(s[n]) =~= s.insert(i, t));
            }
        }
    }
}

/// An ordered list stays ordered when a tag is inserted, and holds what it
/// held and the new tag.
pub proof fn insert_tag_ordered(s: Seq<Seq<char>>, t: Seq<char>)
    requires
        ascending(s),
    ensures
        ascending(insert_tag(s, t)),
        forall|x: Seq<char>| #[trigger] insert_tag(s, t).contains(x) <==> (s.contains(x) || x == t),
    decreases s.len(),
{
    let r = insert_tag(s, t);
    if s.len() == 0 {
        assert(r[0] == t);
        assert forall|x: Seq<char>| r.contains(x) <==> (s.contains(x) || x == t) by {
            if x == t {
                assert(r[0] == x);
            }
        }
    } else {
        let n = (s.len() - 1) as int;
        let d = s.drop_last();
        if s.last() == t {
            assert(s[n] == t);
        } else if lex_lt(s.last(), t) {
            assert forall|x: int, y: int| 0 <= x < y < r.len() implies lex_lt(
                #[trigger] r[x],
                #[trigger] r[y],
            ) by {
                if y == r.len() - 1 {
                    if x < n {
                        assert(lex_lt(s[x], s[n]));
                        lex_lt_transitive(s[x], s[n], t);
                    }
                } else {
                    assert(r[x] == s[x] && r[y] == s[y]);
                }
            }
            assert forall|x: Seq<char>| r.contains(x) <==> (s.contains(x) || x == t) by {
                if r.contains(x) {
                    let k = choose|k: int| 0 <= k < r.len() && r[k] == x;
                    if k < s.len() {
                        assert(s[k] == x);
                    }
                }
                if s.contains(x) {
                    let k = choose|k: int| 0 <= k < s.len() && s[k] == x;
                    assert(r[k] == x);
                }
                if x == t {
                    assert(r[s.len() as int] == x);
                }
            }
        } else {
            assert(ascending(d)) by {
                assert forall|x: int, y: int| 0 <= x < y < d.len() implies lex_lt(
                    #[trigger] d[x],
                    #[trigger] d[y],
                ) by {
                    assert(d[x] == s[x] && d[y] == s[y]);
                }
            }
            insert_tag_ordered(d, t);
            let m = insert_tag(d, t);
            lex_lt_total(s[n], t);
            assert(lex_lt(t, s[n]));
            assert forall|x: int, y: int| 0 <= x < y < r.len() implies lex_lt(
                #[trigger] r[x],
                #[trigger] r[y],
            ) by {
                if y == r.len() - 1 {
                    assert(m.contains(m[x]));
                    if d.contains(m[x]) {
                        let k = choose|k: int| 0 <= k < d.len() && d[k] == m[x];
                        assert(lex_lt(s[k], s[n]));
                    }
                } else {
                    assert(r[x] == m[x] && r[y] == m[y]);
                }
            }
            assert forall|x: Seq<char>| r.contains(x) <==> (s.contains(x) || x == t) by {
                if r.contains(x) {
                    let k = choose|k: int| 0 <= k < r.len() && r[k] == x;
                    if k < m.len() {
                        assert(m.contains(x));
                        if d.contains(x) {
                            let q = choose|q: int| 0 <= q < d.len() && d[q] == x;
                            assert(s[q] == x);
                        }
                    } else {
                        assert(s[n] == x);
                    }
                }
                if s.contains(x) {
                    let k = choose|k: int| 0 <= k < s.len() && s[k] == x;
                    if k < n {
                        assert(d[k] == x);
                        assert(d.contains(x));
                        assert(m.contains(x));
                        let q = choose|q: int| 0 <= q < m.len() && m[q] == x;
                        assert(r[q] == x);
                    } else {
                        assert(r[r.len() - 1] == x);
                    }
                }
                if x == t {
                    assert(m.contains(t));
                    let q = choose|q: int| 0 <= q < m.len() && m[q] == t;
                    assert(r[q] == t);
                }
            }
        }
    }
}

/// The sorted tags of a list are in ascending order and are, as a set, the
/// tags of the list.
pub proof fn sorted_tags_is_the_set(s: Seq<Seq<char>>)
    ensures
        ascending(sorted_tags(s)),
        forall|x: Seq<char>| #[trigger] sorted_tags(s).contains(x) <==> s.contains(x),
    decreases s.len(),
{
    if s.len() > 0 {
        let d = s.drop_last();
        sorted_tags_is_the_set(d);
        insert_tag_ordered(sorted_tags(d), s.last());
        assert forall|x: Seq<char>| sorted_tags(s).contains(x) <==> s.contains(x) by {
            if s.contains(x) {
                let k = choose|k: int| 0 <= k < s.len() && s[k] == x;
                if k < d.len() {
                    assert(d[k] == x);
                }
            }
            if d.contains(x) {
                let k = choose|k: int| 0 <= k < d.len() && d[k] == x;
                assert(s[k] == x);
            }
            if x == s.last() {
                assert(s[s.len() - 1] == x);
            }
        }
    }
}

/// Puts tags in ascending order and drops repetitions.
pub fn normalize_tags(tags: Vec<String>) -> (r: Vec<String>)
    ensures
        texts(r@) == sorted_tags(texts(tags@)),
{
    let mut out: Vec<String> = Vec::new();
    let ghost all = texts(tags@);
    assert(texts(out@) =~= sorted_tags(all.take(0)));
    for t in it: tags
        invariant
            it.seq() == tags@,
            all == texts(tags@),
            texts(out@) == sorted_tags(all.take(it.index() as int)),
    {
        let ghost k = it.index() as int;
        let ghost cur = texts(out@);
        proof {
            sorted_tags_is_the_set(all.take(k));
            assert(all.take(k + 1).drop_last() =~= all.take(k));
            assert(all.take(k + 1).last() == t@);
        }
        let mut i: usize = 0;
        while i < out.len() && text_lt(out[i].as_str(), t.as_str())
            invariant
                i <= out.len(),
                cur == texts(out@),
                forall|j: int| 0 <= j < i ==> lex_lt(#[trigger] cur[j], t@),
            decreases out.len() - i,
        {
            i += 1;
        }
        proof {
            insert_tag_at(cur, t@, i as int);
        }
        if i < out.len() && same_text(out[i].as_str(), t.as_str()) {
        } else {
            out.insert(i, t);
            assert(texts(out@) =~= cur.insert(i as int, t@));
        }
    }
    assert(all.take(tags@.len() as int) =~= all);
    out
}

} // verus!
