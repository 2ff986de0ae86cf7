//! Sets of tags, kept in ascending text order.
use vstd::prelude::*;
use crate::order::{text_lt, text_less, text_eq, lemma_text_total, lemma_text_transitive,
    lemma_text_irreflexive};

verus! {

/// The texts of a list of `String`s.
pub open spec fn texts(s: Seq<String>) -> Seq<Seq<char>> {
    s.map_values(|t: String| t@)
}

/// Strictly ascending in text order, so that no text occurs twice.
pub open spec fn strictly_sorted(s: Seq<Seq<char>>) -> bool {
    forall|i: int, j: int| 0 <= i < j < s.len() ==> text_lt(#[trigger] s[i], #[trigger] s[j])
}

/// In a strictly sorted list a text occurs at one position at most.
pub proof fn lemma_sorted_unique(s: Seq<Seq<char>>, i: int, j: int)
    requires
        strictly_sorted(s),
        0 <= i < s.len(),
        0 <= j < s.len(),
        s[i] == s[j],
    ensures
        i == j,
{
    lemma_text_irreflexive(s[i]);
    if i < j {
        assert(text_lt(s[i], s[j]));
    } else if j < i {
        assert(text_lt(s[j], s[i]));
    }
}

/// Two strictly sorted lists with the same elements are the same list.
pub proof fn lemma_sorted_listing_unique(a: Seq<Seq<char>>, b: Seq<Seq<char>>)
    requires
        strictly_sorted(a),
        strictly_sorted(b),
        a.to_set() == b.to_set(),
    ensures
        a == b,
    decreases a.len(),
{
    if a.len() == 0 {
        if b.len() > 0 {
            assert(b.contains(b[0]));
            assert(b.to_set().contains(b[0]));
        }
        assert(a =~= b);
    } else if b.len() == 0 {
        assert(a.contains(a[0]));
        assert(a.to_set().contains(a[0]));
    } else {
        assert(a.contains(a[0]));
        assert(a.to_set().contains(a[0]));
        assert(b.contains(a[0]));
        let j = choose|j: int| 0 <= j < b.len() && b[j] == a[0];
        assert(b.contains(b[0]));
        assert(b.to_set().contains(b[0]));
        assert(a.contains(b[0]));
        let i = choose|i: int| 0 <= i < a.len() && a[i] == b[0];
        if i > 0 && j > 0 {
            assert(text_lt(a[0], a[i]));
            assert(text_lt(b[0], b[j]));
            crate::order::lemma_text_asymmetric(a[0], b[0]);
        }
        assert(a[0] == b[0]);
        let a1 = a.drop_first();
        let b1 = b.drop_first();
        assert(strictly_sorted(a1)) by {
            assert forall|x: int, y: int| 0 <= x < y < a1.len() implies text_lt(#[trigger] a1[x], #[trigger] a1[y]) by {
                assert(text_lt(a[x + 1], a[y + 1]));
            }
        }
        assert(strictly_sorted(b1)) by {
            assert forall|x: int, y: int| 0 <= x < y < b1.len() implies text_lt(#[trigger] b1[x], #[trigger] b1[y]) by {
                assert(text_lt(b[x + 1], b[y + 1]));
            }
        }
        assert forall|x: Seq<char>| a1.to_set().contains(x) == b1.to_set().contains(x) by {
            if a1.contains(x) {
                let k = choose|k: int| 0 <= k < a1.len() && a1[k] == x;
                assert(a[k + 1] == x);
                assert(a.contains(x));
                assert(a.to_set().contains(x));
                assert(b.contains(x));
                let m = choose|m: int| 0 <= m < b.len() && b[m] == x;
                if m == 0 {
                    lemma_sorted_unique(a, 0, k + 1);
                }
                assert(b1[m - 1] == x);
            }
            if b1.contains(x) {
                let k = choose|k: int| 0 <= k < b1.len() && b1[k] == x;
                assert(b[k + 1] == x);
                assert(b.contains(x));
                assert(b.to_set().contains(x));
                assert(a.contains(x));
                let m = choose|m: int| 0 <= m < a.len() && a[m] == x;
                if m == 0 {
                    lemma_sorted_unique(b, 0, k + 1);
                }
                assert(a1[m - 1] == x);
            }
        }
        assert(a1.to_set() =~= b1.to_set());
        lemma_sorted_listing_unique(a1, b1);
        assert(a =~= b) by {
            assert forall|x: int| 0 <= x < a.len() implies a[x] == b[x] by {
                if x > 0 {
                    assert(a[x] == a1[x - 1]);
                    assert(b[x] == b1[x - 1]);
                }
            }
        }
    }
}

/// A set of texts; the model is `Set<Seq<char>>`.
#[derive(Debug)]
pub struct TagSet {
    tags: Vec<String>,
}

impl View for TagSet {
    type V = Set<Seq<char>>;

    closed spec fn view(&self) -> Set<Seq<char>> {
        texts(self.tags@).to_set()
    }
}

impl Clone for TagSet {
    /// A copy with the same tags.
    fn clone(&self) -> (r: Self)
        ensures
            r@ == self@,
    {
        proof {
            use_type_invariant(self);
        }
        let mut tags: Vec<String> = Vec::new();
        let mut i: usize = 0;
        while i < self.tags.len()
            invariant
                i <= self.tags@.len(),
                tags@ == self.tags@.take(i as int),
            decreases self.tags@.len() - i,
        {
            let t = self.tags[i].clone();
            tags.push(t);
            assert(tags@ =~= self.tags@.take(i + 1));
            i = i + 1;
        }
        assert(self.tags@.take(i as int) =~= self.tags@);
        TagSet { tags }
    }
}

impl TagSet {
    #[verifier::type_invariant]
    spec fn inv(self) -> bool {
        strictly_sorted(texts(self.tags@))
    }

    /// An empty set.
    pub fn new() -> (r: Self)
        ensures
            r@ == Set::<Seq<char>>::empty(),
    {
        let r = TagSet { tags: Vec::new() };
        assert(texts(r.tags@).to_set() =~= Set::<Seq<char>>::empty());
        r
    }

    /// The first position whose text does not come before `t`.
    fn lower_bound(&self, t: &str) -> (k: usize)
        ensures
            k <= self.tags@.len(),
            forall|j: int| 0 <= j < k ==> text_lt(#[trigger] texts(self.tags@)[j], t@),
            k < self.tags@.len() ==> !text_lt(texts(self.tags@)[k as int], t@),
    {
        let mut k: usize = 0;
        while k < self.tags.len() && text_less(self.tags[k].as_str(), t)
            invariant
                k <= self.tags@.len(),
                forall|j: int| 0 <= j < k ==> text_lt(#[trigger] texts(self.tags@)[j], t@),
            decreases self.tags@.len() - k,
        {
            k = k + 1;
        }
        k
    }

    /// Whether `t` is in the set.
    pub fn contains(&self, t: &str) -> (r: bool)
        ensures
            r == self@.contains(t@),
    {
        proof {
            use_type_invariant(self);
        }
        let k = self.lower_bound(t);
        let ghost s = texts(self.tags@);
        let r = k < self.tags.len() && text_eq(self.tags[k].as_str(), t);
        proof {
            if self@.contains(t@) {
                let j = choose|j: int| 0 <= j < s.len() && s[j] == t@;
                lemma_text_irreflexive(t@);
                if j < k {
                    assert(text_lt(s[j], t@));
                } else if j > k {
                    lemma_text_total(s[k as int], t@);
                    assert(text_lt(s[k as int], s[j]));
                }
            }
            if r {
                assert(s[k as int] == t@);
            }
        }
        r
    }

    /// Adds `t`; says whether it was new.
    pub fn insert(&mut self, t: String) -> (r: bool)
        ensures
            final(self)@ == old(self)@.insert(t@),
            r == !old(self)@.contains(t@),
    {
        proof {
            use_type_invariant(&*self);
        }
        let present = self.contains(t.as_str());
        if present {
            assert(old(self)@.insert(t@) =~= old(self)@);
            return false;
        }
        let k = self.lower_bound(t.as_str());
        let ghost s = texts(self.tags@);
        let ghost tv = t@;
        let mut tags: Vec<String> = Vec::new();
        std::mem::swap(&mut tags, &mut self.tags);
        tags.insert(k, t);
        let ghost n = texts(tags@);
        assert(n =~= s.insert(k as int, tv));
        proof {
            if k < s.len() {
                lemma_text_total(s[k as int], tv);
                assert(s.contains(s[k as int]));
            }
            assert forall|i: int, j: int| 0 <= i < j < n.len() implies text_lt(#[trigger] n[i], #[trigger] n[j]) by {
                if j < k {
                    assert(text_lt(s[i], s[j]));
                } else if j == k {
                    assert(text_lt(s[i], tv));
                } else if i < k {
                    assert(text_lt(s[i], s[j - 1]));
                } else if i == k {
                    if j - 1 > k {
                        assert(text_lt(s[k as int], s[j - 1]));
                        lemma_text_transitive(tv, s[k as int], s[j - 1]);
                    }
                } else {
                    assert(text_lt(s[i - 1], s[j - 1]));
                }
            }
            assert forall|x: Seq<char>| n.to_set().contains(x) == s.to_set().insert(tv).contains(x) by {
                if n.contains(x) {
                    let i = choose|i: int| 0 <= i < n.len() && n[i] == x;
                    if i < k {
                        assert(s[i] == x);
                    } else if i > k {
                        assert(s[i - 1] == x);
                    }
                }
                if s.contains(x) {
                    let i = choose|i: int| 0 <= i < s.len() && s[i] == x;
                    if i < k {
                        assert(n[i] == x);
                    } else {
                        assert(n[i + 1] == x);
                    }
                }
                if x == tv {
                    assert(n[k as int] == x);
                }
            }
            assert(n.to_set() =~= s.to_set().insert(tv));
        }
        self.tags = tags;
        true
    }

    /// Removes `t`; says whether it was there.
    pub fn remove(&mut self, t: &str) -> (r: bool)
        ensures
            final(self)@ == old(self)@.remove(t@),
            r == old(self)@.contains(t@),
    {
        proof {
            use_type_invariant(&*self);
        }
        let present = self.contains(t);
        if !present {
            assert(old(self)@.remove(t@) =~= old(self)@);
            return false;
        }
        let k = self.lower_bound(t);
        let ghost s = texts(self.tags@);
        proof {
            let j = choose|j: int| 0 <= j < s.len() && s[j] == t@;
            lemma_text_irreflexive(t@);
            if j < k {
                assert(text_lt(s[j], t@));
            } else if j > k {
                lemma_text_total(s[k as int], t@);
                assert(text_lt(s[k as int], s[j]));
            }
            assert(s[k as int] == t@);
        }
        let mut tags: Vec<String> = Vec::new();
        std::mem::swap(&mut tags, &mut self.tags);
        let _gone = tags.remove(k);
        let ghost n = texts(tags@);
        assert(n =~= s.remove(k as int));
        proof {
            assert forall|i: int, j: int| 0 <= i < j < n.len() implies text_lt(#[trigger] n[i], #[trigger] n[j]) by {
                let oi = if i < k { i } else { i + 1 };
                let oj = if j < k { j } else { j + 1 };
                assert(text_lt(s[oi], s[oj]));
            }
            assert forall|x: Seq<char>| n.to_set().contains(x) == s.to_set().remove(t@).contains(x) by {
                if n.contains(x) {
                    let i = choose|i: int| 0 <= i < n.len() && n[i] == x;
                    let oi = if i < k { i } else { i + 1 };
                    assert(s[oi] == x);
                    if x == t@ {
                        lemma_sorted_unique(s, oi, k as int);
                    }
                }
                if s.contains(x) && x != t@ {
                    let i = choose|i: int| 0 <= i < s.len() && s[i] == x;
                    if i < k {
                        assert(n[i] == x);
                    } else {
                        assert(i != k);
                        assert(n[i - 1] == x);
                    }
                }
            }
            assert(n.to_set() =~= s.to_set().remove(t@));
        }
        self.tags = tags;
        true
    }

    /// The texts of the set in ascending order.
    pub fn sorted(&self) -> (r: Vec<String>)
        ensures
            strictly_sorted(texts(r@)),
            texts(r@).to_set() == self@,
    {
        proof {
            use_type_invariant(self);
        }
        let mut r: Vec<String> = Vec::new();
        let mut i: usize = 0;
        while i < self.tags.len()
            invariant
                i <= self.tags@.len(),
                strictly_sorted(texts(self.tags@)),
                texts(r@) == texts(self.tags@).take(i as int),
            decreases self.tags@.len() - i,
        {
            let c = self.tags[i].clone();
            assert(c@ == texts(self.tags@)[i as int]);
            let ghost before = r@;
            r.push(c);
            assert(texts(r@) =~= texts(before).push(c@));
            i = i + 1;
            assert(texts(r@) =~= texts(self.tags@).take(i as int));
        }
        assert(texts(self.tags@).take(i as int) =~= texts(self.tags@));
        r
    }
}

} // verus!
