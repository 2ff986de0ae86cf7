//! The registry of stack strategies: built-in ones, custom ones that
//! replace them file by file, ordered by priority.
use vstd::prelude::*;
use crate::keyed::{KeyedList, distinct_keys, entries_map};
use crate::models::StackStrategy;
use crate::order::chars_of;
use vstd::multiset::Multiset;

verus! {

broadcast use vstd::seq_lib::group_to_multiset_ensures;

/// Every strategy comes before the ones of lower priority.
pub open spec fn priority_descending(s: Seq<StackStrategy>) -> bool {
    forall|i: int, j: int| 0 <= i < j < s.len() ==> (#[trigger] s[i]).priority >= (#[trigger] s[j]).priority
}

/// The strategies of priority `p`, in the order they come.
pub open spec fn of_priority(s: Seq<StackStrategy>, p: i32) -> Seq<StackStrategy> {
    s.filter(|x: StackStrategy| x.priority == p)
}

/// A list without a strategy of priority `p` has none of that priority.
proof fn lemma_none_of_priority(s: Seq<StackStrategy>, p: i32)
    requires
        forall|i: int| 0 <= i < s.len() ==> (#[trigger] s[i]).priority != p,
    ensures
        of_priority(s, p) == Seq::<StackStrategy>::empty(),
    decreases s.len(),
{
    reveal(Seq::filter);
    if s.len() > 0 {
        assert forall|i: int| 0 <= i < s.drop_last().len() implies (#[trigger] s.drop_last()[i]).priority != p by {
            assert(s.drop_last()[i] == s[i]);
        }
        lemma_none_of_priority(s.drop_last(), p);
        assert(s[s.len() - 1].priority != p);
    } else {
        assert(of_priority(s, p) =~= Seq::<StackStrategy>::empty());
    }
}

/// The strategies of a list of (file name, strategy) pairs.
pub open spec fn strategies_of(s: Seq<(String, StackStrategy)>) -> Seq<StackStrategy> {
    s.map_values(|e: (String, StackStrategy)| e.1)
}

/// The map from file name to strategy after reading the pairs of `s` in
/// order, a later file replacing an earlier one of the same name.
pub open spec fn layered(s: Seq<(String, StackStrategy)>) -> Map<Seq<char>, StackStrategy>
    decreases s.len(),
{
    if s.len() == 0 {
        Map::empty()
    } else {
        layered(s.drop_last()).insert(s.last().0@, s.last().1)
    }
}

/// Whether a file name has the extension `toml`, as `Path::extension`
/// reads it: the text after the last dot, when something precedes that dot.
pub open spec fn is_toml_name(name: Seq<char>) -> bool {
    name.len() > 5 && name.skip(name.len() - 5) == ".toml"@
}

/// The strategies known to the tool.
pub struct StrategyRegistry {
    pub strategies: Vec<StackStrategy>,
}

/// Puts the strategies in order of descending priority, keeping the order
/// of strategies of equal priority.
pub fn sort_by_priority(v: Vec<StackStrategy>) -> (r: Vec<StackStrategy>)
    ensures
        priority_descending(r@),
        forall|p: i32| #[trigger] of_priority(r@, p) == of_priority(v@, p),
        r@.to_multiset() == v@.to_multiset(),
{
    let mut r: Vec<StackStrategy> = Vec::new();
    let mut rest = v;
    let ghost initial = rest@;
    assert(initial.skip(initial.len() as int) =~= Seq::<StackStrategy>::empty());
    assert(initial.take(initial.len() as int) =~= initial);
    // Take the strategies from the back, so that each is put before the
    // ones of equal priority that came after it.
    while rest.len() > 0
        invariant
            priority_descending(r@),
            rest@ == initial.take(rest@.len() as int),
            rest@.len() <= initial.len(),
            forall|p: i32| #[trigger] of_priority(r@, p) == of_priority(initial.skip(rest@.len() as int), p),
            r@.to_multiset().add(rest@.to_multiset()) == initial.to_multiset(),
        decreases rest@.len(),
    {
        let ghost before_rest = rest@;
        let ghost n = before_rest.len() as int;
        let s = rest.pop().unwrap();
        assert(before_rest =~= rest@.push(s));
        assert(rest@ =~= initial.take(n - 1));
        assert(initial.skip(n - 1) =~= seq![s] + initial.skip(n));
        let mut k: usize = 0;
        while k < r.len() && r[k].priority > s.priority
            invariant
                k <= r@.len(),
                forall|j: int| 0 <= j < k ==> (#[trigger] r@[j]).priority > s.priority,
            decreases r@.len() - k,
        {
            k = k + 1;
        }
        let ghost before = r@;
        r.insert(k, s);
        assert forall|i: int, j: int| 0 <= i < j < r@.len() implies (#[trigger] r@[i]).priority >= (#[trigger] r@[j]).priority by {
            if j < k {
                assert(r@[i] == before[i] && r@[j] == before[j]);
            } else if j == k {
                assert(r@[i] == before[i]);
            } else if i < k {
                assert(r@[i] == before[i] && r@[j] == before[j - 1]);
            } else if i == k {
                assert(r@[j] == before[j - 1]);
                if k < before.len() {
                    assert(before[k as int].priority <= s.priority);
                    assert(before[k as int].priority >= before[j - 1].priority || j - 1 == k);
                }
            } else {
                assert(r@[i] == before[i - 1] && r@[j] == before[j - 1]);
            }
        }
        assert forall|p: i32| #[trigger] of_priority(r@, p) == of_priority(initial.skip(rest@.len() as int), p) by {
            let f = |x: StackStrategy| x.priority == p;
            let head = before.take(k as int);
            let tail = before.skip(k as int);
            assert(r@ =~= head + (seq![s] + tail));
            assert(before =~= head + tail);
            Seq::filter_distributes_over_add(head, seq![s] + tail, f);
            Seq::filter_distributes_over_add(head, tail, f);
            tail.lemma_filter_prepend(s, f);
            initial.skip(n).lemma_filter_prepend(s, f);
            if p == s.priority {
                assert forall|i: int| 0 <= i < head.len() implies (#[trigger] head[i]).priority != p by {
                    assert(head[i] == before[i]);
                }
                lemma_none_of_priority(head, p);
                assert(of_priority(r@, p) =~= seq![s] + of_priority(tail, p));
                assert(of_priority(before, p) =~= of_priority(tail, p));
            } else {
                assert(of_priority(r@, p) =~= of_priority(before, p));
            }
        }
        assert(r@.to_multiset() == before.to_multiset().insert(s));
        assert(before_rest.to_multiset() == rest@.to_multiset().insert(s));
        assert(r@.to_multiset().add(rest@.to_multiset()) =~= before.to_multiset().add(before_rest.to_multiset()));
    }
    assert(rest@.to_multiset() =~= Multiset::empty());
    assert(r@.to_multiset() =~= initial.to_multiset());
    assert(initial.skip(0) =~= initial);
    r
}

/// Whether a file name has the extension `toml`.
pub fn has_toml_extension(file_name: &str) -> (r: bool)
    ensures
        r == is_toml_name(file_name@),
{
    let cs = chars_of(file_name);
    let n = cs.len();
    proof {
        reveal_strlit(".toml");
    }
    if n <= 5 {
        return false;
    }
    let r = cs[n - 5] == '.' && cs[n - 4] == 't' && cs[n - 3] == 'o' && cs[n - 2] == 'm' && cs[n - 1] == 'l';
    let ghost tail = file_name@.skip(n - 5);
    assert(tail.len() == 5);
    assert(tail[0] == cs@[n - 5] && tail[1] == cs@[n - 4] && tail[2] == cs@[n - 3] && tail[3] == cs@[n - 2] && tail[4] == cs@[n - 1]);
    if r {
        assert(tail =~= ".toml"@);
    } else {
        assert(tail != ".toml"@) by {
            if tail == ".toml"@ {
                assert(".toml"@[0] == '.');
            }
        }
    }
    r
}

impl StrategyRegistry {
    /// The strategies read from the files of one directory, as (file name,
    /// strategy) pairs, in order of descending priority; strategies of equal
    /// priority keep the order of their files.
    pub fn load_from_dir(entries: Vec<(String, StackStrategy)>) -> (r: Vec<StackStrategy>)
        ensures
            priority_descending(r@),
            forall|p: i32| #[trigger] of_priority(r@, p) == of_priority(strategies_of(entries@), p),
            r@.to_multiset() == strategies_of(entries@).to_multiset(),
    {
        let ghost es = entries@;
        let mut v: Vec<StackStrategy> = Vec::new();
        assert(strategies_of(es.take(0)) =~= v@);
        for e in it: entries
            invariant
                es == it.seq(),
                v@ == strategies_of(es.take(it.index() as int)),
        {
            assert(strategies_of(es.take(it.index() + 1)) =~= strategies_of(es.take(it.index() as int)).push(e.1));
            let (_name, st) = e;
            v.push(st);
        }
        assert(es.take(es.len() as int) =~= es);
        sort_by_priority(v)
    }

    /// The registry made of the built-in strategies and the custom ones,
    /// each given as (file name, strategy) pairs: a custom file replaces the
    /// built-in file of the same name, a later file an earlier one. The
    /// strategies come in order of descending priority.
    pub fn from_layers(builtin: Vec<(String, StackStrategy)>, custom: Vec<(String, StackStrategy)>) -> (r: Self)
        ensures
            priority_descending(r.strategies@),
            exists|p: Seq<(String, StackStrategy)>|
                distinct_keys(p) && entries_map(p) == layered(builtin@ + custom@)
                    && r.strategies@.to_multiset() == #[trigger] strategies_of(p).to_multiset(),
    {
        let ghost b = builtin@;
        let ghost c = custom@;
        let mut map: KeyedList<StackStrategy> = KeyedList::new();
        assert(map@ =~= layered(b.take(0)));
        for e in it: builtin
            invariant
                b == it.seq(),
                map@ == layered(b.take(it.index() as int)),
        {
            assert(b.take(it.index() + 1).drop_last() =~= b.take(it.index() as int));
            assert(b.take(it.index() + 1).last() == e);
            let (name, st) = e;
            map.insert(name, st);
        }
        assert(b.take(b.len() as int) =~= b);
        assert(b + c.take(0) =~= b);
        for e in it: custom
            invariant
                c == it.seq(),
                map@ == layered(b + c.take(it.index() as int)),
        {
            assert((b + c.take(it.index() + 1)).drop_last() =~= b + c.take(it.index() as int));
            assert((b + c.take(it.index() + 1)).last() == e);
            let (name, st) = e;
            map.insert(name, st);
        }
        assert(c.take(c.len() as int) =~= c);
        let map_all = map;
        let pairs = map_all.into_entries();
        let ghost p = pairs@;
        let v = StrategyRegistry::load_from_dir(pairs);
        assert(distinct_keys(p) && entries_map(p) == layered(b + c));
        StrategyRegistry { strategies: v }
    }
}

/// What a list gives for a priority, split into its first strategy and the rest.
proof fn lemma_priority_split(s: Seq<StackStrategy>, p: i32)
    requires
        s.len() > 0,
    ensures
        of_priority(s, p) == (if s[0].priority == p {
            seq![s[0]]
        } else {
            Seq::<StackStrategy>::empty()
        }) + of_priority(s.skip(1), p),
{
    assert(s =~= seq![s[0]] + s.skip(1));
    s.skip(1).lemma_filter_prepend(s[0], |x: StackStrategy| x.priority == p);
}

/// Two lists in order of descending priority that hold the same strategies
/// of each priority, in the same order, are the same list: the order that
/// `sort_by_priority` and `load_from_dir` give is determined by their input.
pub proof fn law_priority_order_is_determined(a: Seq<StackStrategy>, b: Seq<StackStrategy>)
    requires
        priority_descending(a),
        priority_descending(b),
        forall|p: i32| #[trigger] of_priority(a, p) == of_priority(b, p),
    ensures
        a == b,
    decreases a.len(),
{
    if a.len() == 0 || b.len() == 0 {
        if a.len() > 0 {
            lemma_priority_split(a, a[0].priority);
            lemma_none_of_priority(b, a[0].priority);
            assert(of_priority(a, a[0].priority).len() > 0);
        }
        if b.len() > 0 {
            lemma_priority_split(b, b[0].priority);
            lemma_none_of_priority(a, b[0].priority);
            assert(of_priority(b, b[0].priority).len() > 0);
        }
        assert(a =~= b);
    } else {
        let pa = a[0].priority;
        let pb = b[0].priority;
        lemma_priority_split(a, pa);
        lemma_priority_split(b, pb);
        if pa > pb {
            assert forall|i: int| 0 <= i < b.len() implies (#[trigger] b[i]).priority != pa by {
                if i > 0 {
                    assert(b[0].priority >= b[i].priority);
                }
            }
            lemma_none_of_priority(b, pa);
            assert(of_priority(a, pa).len() > 0);
        }
        if pb > pa {
            assert forall|i: int| 0 <= i < a.len() implies (#[trigger] a[i]).priority != pb by {
                if i > 0 {
                    assert(a[0].priority >= a[i].priority);
                }
            }
            lemma_none_of_priority(a, pb);
            assert(of_priority(b, pb).len() > 0);
        }
        assert(pa == pb);
        assert(of_priority(a, pa)[0] == a[0]);
        assert(of_priority(b, pa)[0] == b[0]);
        assert(a[0] == b[0]);
        assert forall|p: i32| #[trigger] of_priority(a.skip(1), p) == of_priority(b.skip(1), p) by {
            lemma_priority_split(a, p);
            lemma_priority_split(b, p);
            let head = if a[0].priority == p {
                seq![a[0]]
            } else {
                Seq::<StackStrategy>::empty()
            };
            assert(of_priority(a.skip(1), p) =~= of_priority(a, p).skip(head.len() as int));
            assert(of_priority(b.skip(1), p) =~= of_priority(b, p).skip(head.len() as int));
        }
        assert forall|i: int, j: int| 0 <= i < j < a.skip(1).len() implies (#[trigger] a.skip(1)[i]).priority
            >= (#[trigger] a.skip(1)[j]).priority by {
            assert(a.skip(1)[i] == a[i + 1] && a.skip(1)[j] == a[j + 1]);
        }
        assert forall|i: int, j: int| 0 <= i < j < b.skip(1).len() implies (#[trigger] b.skip(1)[i]).priority
            >= (#[trigger] b.skip(1)[j]).priority by {
            assert(b.skip(1)[i] == b[i + 1] && b.skip(1)[j] == b[j + 1]);
        }
        law_priority_order_is_determined(a.skip(1), b.skip(1));
        assert(a =~= seq![a[0]] + a.skip(1));
        assert(b =~= seq![b[0]] + b.skip(1));
    }
}

/// The strategy of a file name in a layered map is that of the last file of
/// that name: a custom file replaces the built-in file of the same name,
/// and a name without a custom file keeps its built-in strategy.
pub proof fn law_custom_replaces_builtin(
    b: Seq<(String, StackStrategy)>,
    c: Seq<(String, StackStrategy)>,
    k: Seq<char>,
)
    ensures
        layered(c).contains_key(k) ==> layered(b + c).contains_key(k) && layered(b + c)[k] == layered(c)[k],
        !layered(c).contains_key(k) ==> layered(b + c).contains_key(k) == layered(b).contains_key(k)
            && (layered(b).contains_key(k) ==> layered(b + c)[k] == layered(b)[k]),
    decreases c.len(),
{
    if c.len() == 0 {
        assert(b + c =~= b);
    } else {
        assert((b + c).drop_last() =~= b + c.drop_last());
        law_custom_replaces_builtin(b, c.drop_last(), k);
    }
}

} // verus!
