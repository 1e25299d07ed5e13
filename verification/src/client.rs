use vstd::prelude::*;
use vstd::seq_lib::lemma_multiset_commutative;
use vstd::string::StringExecFns;

use crate::args::KvPair;

verus! {

/// The two fixed headers attached to every outgoing request: the
/// vendor-identifying header and the User-Agent.
pub fn default_headers() -> (r: Vec<(String, String)>)
    ensures
        r@.len() == 2,
        r@[0].0@ == "X-POWRRED-BY"@ && r@[0].1@ == "Rust"@,
        r@[1].0@ == "User-Agent"@ && r@[1].1@ == "Rust Httpie"@,
{
    let mut v: Vec<(String, String)> = Vec::new();
    v.push((String::from_str("X-POWRRED-BY"), String::from_str("Rust")));
    v.push((String::from_str("User-Agent"), String::from_str("Rust Httpie")));
    v
}

/// The JSON object that a sequence of pairs builds: one entry per
/// key, a later pair overriding an earlier one with the same key.
pub open spec fn pairs_map(s: Seq<KvPair>) -> Map<Seq<char>, Seq<char>>
    decreases s.len(),
{
    if s.len() == 0 {
        Map::empty()
    } else {
        pairs_map(s.drop_last()).insert(s.last().k@, s.last().v@)
    }
}

/// No two pairs share a key.
pub open spec fn unique_keys(s: Seq<KvPair>) -> bool {
    forall|i: int, j: int| 0 <= i < j < s.len() ==> s[i].k@ != s[j].k@
}

/// The set of keys that occur in `s`.
pub open spec fn keys_of(s: Seq<KvPair>) -> Set<Seq<char>> {
    Set::new(|k: Seq<char>| exists|i: int| 0 <= i < s.len() && s[i].k@ == k)
}

/// Appending a pair overrides whatever its key was mapped to before:
/// the later pair wins.
pub proof fn lemma_pairs_map_push(s: Seq<KvPair>, p: KvPair)
    ensures
        pairs_map(s.push(p)) == pairs_map(s).insert(p.k@, p.v@),
{
    assert(s.push(p).drop_last() =~= s);
    assert(s.push(p).last() == p);
}

proof fn lemma_unique_keys_drop_last(s: Seq<KvPair>)
    requires
        s.len() > 0,
        unique_keys(s),
    ensures
        unique_keys(s.drop_last()),
{
    assert forall|i: int, j: int|
        0 <= i < j < s.drop_last().len() implies s.drop_last()[i].k@ != s.drop_last()[j].k@ by {
        assert(s.drop_last()[i] == s[i]);
        assert(s.drop_last()[j] == s[j]);
    }
}

proof fn lemma_pairs_map_update(s: Seq<KvPair>, j: int, p: KvPair)
    requires
        0 <= j < s.len(),
        s[j].k@ == p.k@,
        unique_keys(s),
    ensures
        pairs_map(s.update(j, p)) == pairs_map(s).insert(p.k@, p.v@),
    decreases s.len(),
{
    let t = s.update(j, p);
    if j == s.len() - 1 {
        assert(t.drop_last() =~= s.drop_last());
        assert(t.last() == p);
        assert(pairs_map(s.drop_last()).insert(s.last().k@, s.last().v@).insert(p.k@, p.v@)
            =~= pairs_map(s.drop_last()).insert(p.k@, p.v@));
    } else {
        lemma_unique_keys_drop_last(s);
        assert(t.drop_last() =~= s.drop_last().update(j, p));
        assert(t.last() == s.last());
        lemma_pairs_map_update(s.drop_last(), j, p);
        assert(s[j].k@ != s.last().k@);
        assert(pairs_map(s.drop_last()).insert(p.k@, p.v@).insert(s.last().k@, s.last().v@)
            =~= pairs_map(s.drop_last()).insert(s.last().k@, s.last().v@).insert(p.k@, p.v@));
    }
}

/// With unique keys, every pair of `s` is an entry of the object.
pub proof fn lemma_pairs_map_contains(s: Seq<KvPair>, i: int)
    requires
        0 <= i < s.len(),
        unique_keys(s),
    ensures
        pairs_map(s).contains_pair(s[i].k@, s[i].v@),
    decreases s.len(),
{
    if i == s.len() - 1 {
    } else {
        lemma_unique_keys_drop_last(s);
        lemma_pairs_map_contains(s.drop_last(), i);
        assert(s.drop_last()[i] == s[i]);
        assert(s[i].k@ != s.last().k@);
    }
}

/// The object's entries are exactly the keys that occur in `s`.
pub proof fn lemma_pairs_map_dom(s: Seq<KvPair>)
    ensures
        pairs_map(s).dom() =~= keys_of(s),
    decreases s.len(),
{
    if s.len() == 0 {
    } else {
        lemma_pairs_map_dom(s.drop_last());
        assert forall|k: Seq<char>|
            keys_of(s).contains(k) <==> keys_of(s.drop_last()).insert(s.last().k@).contains(
                k,
            ) by {
            if keys_of(s).contains(k) {
                let i = choose|i: int| 0 <= i < s.len() && s[i].k@ == k;
                if i < s.len() - 1 {
                    assert(s.drop_last()[i] == s[i]);
                    assert(keys_of(s.drop_last()).contains(k));
                }
            }
            if keys_of(s.drop_last()).insert(s.last().k@).contains(k) {
                if keys_of(s.drop_last()).contains(k) {
                    let i = choose|i: int| 0 <= i < s.drop_last().len() && s.drop_last()[i].k@
                        == k;
                    assert(s[i].k@ == k);
                    assert(keys_of(s).contains(k));
                } else {
                    assert(s[s.len() - 1].k@ == k);
                    assert(keys_of(s).contains(k));
                }
            }
        }
    }
}

/// Pairs with pairwise distinct keys stay pairwise distinct as values,
/// so each occurs at most once in the multiset of the sequence.
proof fn lemma_unique_keys_no_duplicates(s: Seq<KvPair>)
    requires
        unique_keys(s),
    ensures
        s.no_duplicates(),
{
    assert forall|i: int, j: int|
        0 <= i < s.len() && 0 <= j < s.len() && i != j implies s[i] != s[j] by {
        if i < j {
            assert(s[i].k@ != s[j].k@);
        } else {
            assert(s[j].k@ != s[i].k@);
        }
    }
}

/// A rearrangement of pairs with unique keys has unique keys itself.
proof fn lemma_unique_keys_exchange(s1: Seq<KvPair>, s2: Seq<KvPair>)
    requires
        s1.to_multiset() == s2.to_multiset(),
        unique_keys(s1),
    ensures
        unique_keys(s2),
{
    broadcast use vstd::seq_lib::group_to_multiset_ensures;
    broadcast use vstd::multiset::group_multiset_axioms;

    assert forall|i: int, j: int| 0 <= i < j < s2.len() implies s2[i].k@ != s2[j].k@ by {
        if s2[i].k@ == s2[j].k@ {
            lemma_unique_keys_no_duplicates(s1);
            s1.lemma_multiset_has_no_duplicates();
            if s2[i] == s2[j] {
                let front = s2.subrange(0, j);
                let back = s2.subrange(j, s2.len() as int);
                assert(s2 =~= front + back);
                lemma_multiset_commutative(front, back);
                assert(front[i] == s2[i]);
                assert(front.contains(s2[i]));
                assert(back[0] == s2[j]);
                assert(back.contains(s2[j]));
                assert(s2.to_multiset().count(s2[i]) >= 2);
                assert(s1.to_multiset().contains(s2[i]));
                assert(false);
            } else {
                assert(s2.contains(s2[i]));
                assert(s2.contains(s2[j]));
                assert(s2.to_multiset().count(s2[i]) > 0);
                assert(s2.to_multiset().count(s2[j]) > 0);
                assert(s1.to_multiset().count(s2[i]) > 0);
                assert(s1.to_multiset().count(s2[j]) > 0);
                assert(s1.contains(s2[i]));
                assert(s1.contains(s2[j]));
                let a = choose|a: int| 0 <= a < s1.len() && s1[a] == s2[i];
                let b = choose|b: int| 0 <= b < s1.len() && s1[b] == s2[j];
                assert(a != b);
                if a < b {
                    assert(s1[a].k@ != s1[b].k@);
                } else {
                    assert(s1[b].k@ != s1[a].k@);
                }
                assert(false);
            }
        }
    }
}

/// Building the POST body object does not depend on the order of the
/// pairs when no key repeats: any rearrangement of pairs with unique
/// keys yields the same object. (With a repeated key the order does
/// matter: the later pair wins.)
pub proof fn lemma_pairs_map_reorder(s1: Seq<KvPair>, s2: Seq<KvPair>)
    requires
        s1.to_multiset() == s2.to_multiset(),
        unique_keys(s1),
    ensures
        pairs_map(s1) == pairs_map(s2),
{
    broadcast use vstd::seq_lib::group_to_multiset_ensures;
    broadcast use vstd::multiset::group_multiset_axioms;

    lemma_unique_keys_exchange(s1, s2);
    lemma_pairs_map_dom(s1);
    lemma_pairs_map_dom(s2);
    assert forall|k: Seq<char>|
        keys_of(s1).contains(k) <==> keys_of(s2).contains(k) by {
        if keys_of(s1).contains(k) {
            let i = choose|i: int| 0 <= i < s1.len() && s1[i].k@ == k;
            assert(s1.contains(s1[i]));
            assert(s1.to_multiset().count(s1[i]) > 0);
            assert(s2.to_multiset().count(s1[i]) > 0);
            assert(s2.contains(s1[i]));
            let j = choose|j: int| 0 <= j < s2.len() && s2[j] == s1[i];
            assert(keys_of(s2).contains(k));
        }
        if keys_of(s2).contains(k) {
            let i = choose|i: int| 0 <= i < s2.len() && s2[i].k@ == k;
            assert(s2.contains(s2[i]));
            assert(s2.to_multiset().count(s2[i]) > 0);
            assert(s1.to_multiset().count(s2[i]) > 0);
            assert(s1.contains(s2[i]));
            let j = choose|j: int| 0 <= j < s1.len() && s1[j] == s2[i];
            assert(keys_of(s1).contains(k));
        }
    }
    assert forall|k: Seq<char>|
        pairs_map(s1).dom().contains(k) implies pairs_map(s1)[k] == pairs_map(s2)[k] by {
        let i = choose|i: int| 0 <= i < s1.len() && s1[i].k@ == k;
        lemma_pairs_map_contains(s1, i);
        assert(s1.contains(s1[i]));
        assert(s1.to_multiset().count(s1[i]) > 0);
        assert(s2.to_multiset().count(s1[i]) > 0);
        assert(s2.contains(s1[i]));
        let j = choose|j: int| 0 <= j < s2.len() && s2[j] == s1[i];
        lemma_pairs_map_contains(s2, j);
    }
    assert(pairs_map(s1) =~= pairs_map(s2));
}

/// Finds the position of `k` among the keys of `out`, if it occurs.
fn find_key(out: &Vec<KvPair>, k: &String) -> (r: Option<usize>)
    ensures
        match r {
            Some(j) => j < out@.len() && out@[j as int].k@ == k@,
            None => forall|t: int| 0 <= t < out@.len() ==> out@[t].k@ != k@,
        },
{
    let mut j: usize = 0;
    while j < out.len()
        invariant
            0 <= j <= out@.len(),
            forall|t: int| 0 <= t < j ==> out@[t].k@ != k@,
        decreases out@.len() - j,
    {
        if out[j].k == *k {
            return Some(j);
        }
        j = j + 1;
    }
    None
}

/// Collapses the ordered pairs of a POST body into the entries of a
/// single JSON object: keys come out unique, and a later pair with
/// the same key overrides an earlier one (last write wins).
pub fn json_body_pairs(pairs: &Vec<KvPair>) -> (r: Vec<KvPair>)
    ensures
        unique_keys(r@),
        pairs_map(r@) == pairs_map(pairs@),
{
    let mut out: Vec<KvPair> = Vec::new();
    let mut i: usize = 0;
    while i < pairs.len()
        invariant
            0 <= i <= pairs@.len(),
            unique_keys(out@),
            pairs_map(out@) == pairs_map(pairs@.subrange(0, i as int)),
        decreases pairs@.len() - i,
    {
        let p = KvPair { k: pairs[i].k.clone(), v: pairs[i].v.clone() };
        let ghost prev = out@;
        match find_key(&out, &p.k) {
            Some(j) => {
                out[j] = p;
                proof {
                    lemma_pairs_map_update(prev, j as int, KvPair { k: pairs@[i as int].k, v: pairs@[i as int].v });
                    assert(out@ =~= prev.update(j as int, KvPair { k: pairs@[i as int].k, v: pairs@[i as int].v }));
                    assert forall|a: int, b: int|
                        0 <= a < b < out@.len() implies out@[a].k@ != out@[b].k@ by {
                        assert(prev[a].k@ == out@[a].k@);
                        assert(prev[b].k@ == out@[b].k@);
                    }
                }
            },
            None => {
                out.push(p);
                proof {
                    lemma_pairs_map_push(prev, KvPair { k: pairs@[i as int].k, v: pairs@[i as int].v });
                    assert(out@ =~= prev.push(KvPair { k: pairs@[i as int].k, v: pairs@[i as int].v }));
                }
            },
        }
        proof {
            let taken = pairs@.subrange(0, i + 1);
            assert(taken.drop_last() =~= pairs@.subrange(0, i as int));
            assert(taken.last() == pairs@[i as int]);
        }
        i = i + 1;
    }
    proof {
        assert(pairs@.subrange(0, pairs@.len() as int) =~= pairs@);
    }
    out
}

} // verus!
