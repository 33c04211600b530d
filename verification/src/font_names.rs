//! The list of font family names offered to users: the families the font
//! collection knows plus the generic `system-ui`, sorted and without
//! duplicates.

use vstd::prelude::*;
use crate::text_util::chars_of;

verus! {

/// String order: lexicographic by characters (the order of `String`'s
/// `Ord`, since UTF-8 keeps the order of code points).
pub open spec fn lex_lt(a: Seq<char>, b: Seq<char>) -> bool
    decreases a.len(),
{
    if a.len() == 0 {
        b.len() > 0
    } else if b.len() == 0 {
        false
    } else if (a[0] as u32) < (b[0] as u32) {
        true
    } else if a[0] == b[0] {
        lex_lt(a.drop_first(), b.drop_first())
    } else {
        false
    }
}

proof fn lemma_lex_lt_irreflexive(a: Seq<char>)
    ensures
        !lex_lt(a, a),
    decreases a.len(),
{
    if a.len() > 0 {
        lemma_lex_lt_irreflexive(a.drop_first());
    }
}

proof fn lemma_lex_lt_transitive(a: Seq<char>, b: Seq<char>, c: Seq<char>)
    requires
        lex_lt(a, b),
        lex_lt(b, c),
    ensures
        lex_lt(a, c),
    decreases a.len(),
{
    vstd::utf8::char_is_scalar(a[0]);
    if a.len() > 0 && b.len() > 0 && c.len() > 0 && a[0] == b[0] && b[0] == c[0] {
        lemma_lex_lt_transitive(a.drop_first(), b.drop_first(), c.drop_first());
    }
}

proof fn lemma_lex_lt_total(a: Seq<char>, b: Seq<char>)
    ensures
        a == b || lex_lt(a, b) || lex_lt(b, a),
    decreases a.len(),
{
    if a.len() > 0 && b.len() > 0 {
        if a[0] == b[0] {
            lemma_lex_lt_total(a.drop_first(), b.drop_first());
            if a.drop_first() == b.drop_first() {
                assert(a =~= seq![a[0]] + a.drop_first());
                assert(b =~= seq![b[0]] + b.drop_first());
            }
        } else {
            assert((a[0] as u32) != (b[0] as u32)) by {
                vstd::utf8::char_u32_cast(a[0], a[0] as u32);
                vstd::utf8::char_u32_cast(b[0], b[0] as u32);
            }
        }
    } else if a.len() == 0 && b.len() == 0 {
        assert(a =~= b);
    }
}

proof fn lemma_lex_lt_asymmetric(a: Seq<char>, b: Seq<char>)
    requires
        lex_lt(a, b),
    ensures
        !lex_lt(b, a),
{
    if lex_lt(b, a) {
        lemma_lex_lt_transitive(a, b, a);
        lemma_lex_lt_irreflexive(a);
    }
}

/// Whether `a` comes before `b` in string order.
fn lex_lt_exec(a: &Vec<char>, b: &Vec<char>) -> (lt: bool)
    ensures
        lt == lex_lt(a@, b@),
{
    let mut i: usize = 0;
    assert(a@.skip(0) =~= a@);
    assert(b@.skip(0) =~= b@);
    while i < a.len() && i < b.len()
        invariant
            i <= a@.len(),
            i <= b@.len(),
            lex_lt(a@, b@) == lex_lt(a@.skip(i as int), b@.skip(i as int)),
        decreases a@.len() - i,
    {
        let ca = a[i];
        let cb = b[i];
        assert(a@.skip(i as int)[0] == ca);
        assert(b@.skip(i as int)[0] == cb);
        if (ca as u32) < (cb as u32) {
            return true;
        }
        if ca != cb {
            return false;
        }
        assert(a@.skip(i as int).drop_first() =~= a@.skip(i + 1));
        assert(b@.skip(i as int).drop_first() =~= b@.skip(i + 1));
        i = i + 1;
    }
    i == a.len() && i < b.len()
}

fn chars_equal(a: &Vec<char>, b: &Vec<char>) -> (eq: bool)
    ensures
        eq == (a@ == b@),
{
    if a.len() != b.len() {
        return false;
    }
    let n = a.len();
    let mut i: usize = 0;
    while i < n
        invariant
            n == a@.len(),
            n == b@.len(),
            0 <= i <= n,
            forall|j: int| 0 <= j < i ==> a@[j] == b@[j],
        decreases n - i,
    {
        if a[i] != b[i] {
            return false;
        }
        i = i + 1;
    }
    assert(a@ =~= b@);
    true
}

/// The views of a list of strings.
pub open spec fn views(names: Seq<String>) -> Seq<Seq<char>> {
    names.map_values(|s: String| s@)
}

/// Strictly increasing in string order (so also free of duplicates).
pub open spec fn strictly_sorted(names: Seq<Seq<char>>) -> bool {
    forall|i: int, j: int| 0 <= i < j < names.len() ==> lex_lt(#[trigger] names[i], #[trigger] names[j])
}

/// Inserts `name` (with characters `key`) into the sorted list, unless it is
/// already there.
fn insert_sorted(names: &mut Vec<String>, keys: &mut Vec<Vec<char>>, name: String, key: Vec<char>)
    requires
        key@ == name@,
        old(keys)@.len() == old(names)@.len(),
        forall|i: int| 0 <= i < old(keys)@.len() ==> #[trigger] old(keys)@[i]@ == old(names)@[i]@,
        strictly_sorted(views(old(names)@)),
    ensures
        final(keys)@.len() == final(names)@.len(),
        forall|i: int| 0 <= i < final(keys)@.len() ==> #[trigger] final(keys)@[i]@ == final(names)@[i]@,
        strictly_sorted(views(final(names)@)),
        views(final(names)@).to_set() == views(old(names)@).to_set().insert(name@),
{
    let ghost old_views = views(names@);
    let n = keys.len();
    let mut p: usize = 0;
    while p < n && lex_lt_exec(&keys[p], &key)
        invariant
            n == keys@.len(),
            n == names@.len(),
            0 <= p <= n,
            forall|i: int| 0 <= i < n ==> #[trigger] keys@[i]@ == names@[i]@,
            forall|i: int| 0 <= i < p ==> lex_lt(#[trigger] names@[i]@, key@),
            old_views == views(names@),
        decreases n - p,
    {
        p = p + 1;
    }
    if p < n && chars_equal(&keys[p], &key) {
        proof {
            assert(old_views[p as int] == name@);
            assert(old_views.to_set() =~= old_views.to_set().insert(name@));
        }
        return;
    }
    proof {
        if p < n {
            lemma_lex_lt_total(key@, names@[p as int]@);
            assert(lex_lt(key@, names@[p as int]@));
        }
    }
    names.insert(p, name);
    keys.insert(p, key);
    proof {
        let nv = views(names@);
        assert(nv =~= old_views.insert(p as int, key@));
        assert forall|i: int, j: int| 0 <= i < j < nv.len() implies lex_lt(#[trigger] nv[i], #[trigger] nv[j]) by {
            if j < p {
                assert(lex_lt(old_views[i], old_views[j]));
            } else if j == p {
                assert(lex_lt(old_views[i], key@));
            } else if i == p {
                if j - 1 > p {
                    assert(lex_lt(old_views[p as int], old_views[j - 1]));
                    lemma_lex_lt_transitive(key@, old_views[p as int], old_views[j - 1]);
                }
            } else if i < p {
                assert(lex_lt(old_views[i], key@));
                if j - 1 > p {
                    assert(lex_lt(old_views[p as int], old_views[j - 1]));
                    lemma_lex_lt_transitive(key@, old_views[p as int], old_views[j - 1]);
                }
                lemma_lex_lt_transitive(old_views[i], key@, old_views[j - 1]);
            } else {
                assert(lex_lt(old_views[i - 1], old_views[j - 1]));
            }
        }
        assert(nv.to_set() =~= old_views.to_set().insert(name@)) by {
            assert forall|x: Seq<char>| nv.to_set().contains(x) <==> old_views.to_set().insert(name@).contains(x) by {
                if nv.to_set().contains(x) {
                    let k = choose|k: int| 0 <= k < nv.len() && nv[k] == x;
                    if k < p {
                        assert(old_views[k] == x);
                    } else if k > p {
                        assert(old_views[k - 1] == x);
                    }
                }
                if old_views.to_set().contains(x) {
                    let k = choose|k: int| 0 <= k < old_views.len() && old_views[k] == x;
                    if k < p {
                        assert(nv[k] == x);
                    } else {
                        assert(nv[k + 1] == x);
                    }
                }
                if x == name@ {
                    assert(nv[p as int] == x);
                }
            }
        }
    }
}

/// The family names to offer: the given names plus `system-ui`, sorted in
/// string order, each once.
pub fn all_font_names(family_names: Vec<String>) -> (names: Vec<String>)
    ensures
        strictly_sorted(views(names@)),
        views(names@).to_set() == views(family_names@).to_set().insert("system-ui"@),
{
    let mut names: Vec<String> = Vec::new();
    let mut keys: Vec<Vec<char>> = Vec::new();
    let n = family_names.len();
    let mut i: usize = 0;
    assert(views(names@).to_set() =~= Set::<Seq<char>>::empty());
    while i < n
        invariant
            n == family_names@.len(),
            0 <= i <= n,
            keys@.len() == names@.len(),
            forall|k: int| 0 <= k < keys@.len() ==> #[trigger] keys@[k]@ == names@[k]@,
            strictly_sorted(views(names@)),
            views(names@).to_set() == views(family_names@.take(i as int)).to_set(),
        decreases n - i,
    {
        let name = family_names[i].clone();
        let key = chars_of(name.as_str());
        insert_sorted(&mut names, &mut keys, name, key);
        proof {
            assert(views(family_names@.take(i + 1)) =~= views(family_names@.take(i as int)).push(
                family_names@[i as int]@,
            ));
            assert(views(family_names@.take(i + 1)).to_set() =~= views(family_names@.take(i as int)).to_set().insert(
                family_names@[i as int]@,
            )) by {
                views(family_names@.take(i as int)).lemma_push_to_set_commute(family_names@[i as int]@);
            }
        }
        i = i + 1;
    }
    assert(family_names@.take(n as int) =~= family_names@);
    let system_ui = "system-ui".to_owned();
    let key = chars_of(system_ui.as_str());
    insert_sorted(&mut names, &mut keys, system_ui, key);
    names
}

proof fn lemma_sorted_first_is_least(a: Seq<Seq<char>>, j: int)
    requires
        strictly_sorted(a),
        0 < j < a.len(),
    ensures
        lex_lt(a[0], a[j]),
{
}

/// Two strictly sorted lists with the same elements are the same list.
proof fn lemma_strictly_sorted_unique(a: Seq<Seq<char>>, b: Seq<Seq<char>>)
    requires
        strictly_sorted(a),
        strictly_sorted(b),
        a.to_set() == b.to_set(),
    ensures
        a == b,
    decreases a.len(),
{
    if a.len() == 0 {
        if b.len() > 0 {
            assert(b.to_set().contains(b[0]));
        }
        assert(a =~= b);
    } else if b.len() == 0 {
        assert(a.to_set().contains(a[0]));
    } else {
        // the first elements are both the least element
        assert(a.to_set().contains(b[0]));
        assert(b.to_set().contains(a[0]));
        let j = choose|j: int| 0 <= j < a.len() && a[j] == b[0];
        let k = choose|k: int| 0 <= k < b.len() && b[k] == a[0];
        if j > 0 && k > 0 {
            lemma_sorted_first_is_least(a, j);
            lemma_sorted_first_is_least(b, k);
            lemma_lex_lt_asymmetric(a[0], b[0]);
        }
        assert(a[0] == b[0]);
        let ta = a.drop_first();
        let tb = b.drop_first();
        assert(strictly_sorted(ta)) by {
            assert forall|i: int, m: int| 0 <= i < m < ta.len() implies lex_lt(#[trigger] ta[i], #[trigger] ta[m]) by {
                assert(ta[i] == a[i + 1] && ta[m] == a[m + 1]);
            }
        }
        assert(strictly_sorted(tb)) by {
            assert forall|i: int, m: int| 0 <= i < m < tb.len() implies lex_lt(#[trigger] tb[i], #[trigger] tb[m]) by {
                assert(tb[i] == b[i + 1] && tb[m] == b[m + 1]);
            }
        }
        assert(ta.to_set() =~= tb.to_set()) by {
            assert forall|x: Seq<char>| ta.to_set().contains(x) implies tb.to_set().contains(x) by {
                let i = choose|i: int| 0 <= i < ta.len() && ta[i] == x;
                assert(a[i + 1] == x);
                lemma_sorted_first_is_least(a, i + 1);
                lemma_lex_lt_irreflexive(x);
                assert(b.to_set().contains(x));
                let m = choose|m: int| 0 <= m < b.len() && b[m] == x;
                assert(m != 0);
                assert(tb[m - 1] == x);
            }
            assert forall|x: Seq<char>| tb.to_set().contains(x) implies ta.to_set().contains(x) by {
                let i = choose|i: int| 0 <= i < tb.len() && tb[i] == x;
                assert(b[i + 1] == x);
                lemma_sorted_first_is_least(b, i + 1);
                lemma_lex_lt_irreflexive(x);
                assert(a.to_set().contains(x));
                let m = choose|m: int| 0 <= m < a.len() && a[m] == x;
                assert(m != 0);
                assert(ta[m - 1] == x);
            }
        }
        lemma_strictly_sorted_unique(ta, tb);
        assert(a =~= seq![a[0]] + ta);
        assert(b =~= seq![b[0]] + tb);
    }
}

/// Offering the offered names again gives the same list: the listing is
/// fully determined by the set of names, and an offered list is already
/// sorted, free of duplicates and holds `system-ui`.
pub proof fn lemma_font_names_listing_is_stable(offered: Seq<Seq<char>>, relisted: Seq<Seq<char>>)
    requires
        strictly_sorted(offered),
        offered.to_set().contains("system-ui"@),
        strictly_sorted(relisted),
        relisted.to_set() == offered.to_set().insert("system-ui"@),
    ensures
        relisted == offered,
{
    assert(offered.to_set().insert("system-ui"@) =~= offered.to_set());
    lemma_strictly_sorted_unique(relisted, offered);
}

} // verus!
