//! The fingerprint of a workspace: a hash of the modification times of the
//! files that matter, which changes when a project changes.
use vstd::prelude::*;
use vstd::wrapping::u64_specs::{wrapping_add, wrapping_mul};
use vstd::utf8::valid_utf8;
use vstd::multiset::Multiset;
use crate::order::{bytes_lt, bytes_less, lemma_bytes_total, lemma_bytes_transitive,
    lemma_bytes_asymmetric, lemma_bytes_irreflexive};

verus! {

broadcast use vstd::seq_lib::group_to_multiset_ensures;

/// What the file system says of one project directory: its name as raw
/// bytes, its modification time in whole seconds if its metadata could be
/// read (0 when the time itself could not), and the same for each of the
/// high-value files in it.
pub struct EntrySnapshot {
    pub name: Vec<u8>,
    pub mtime: Option<u64>,
    pub file_mtimes: Vec<Option<u64>>,
}

/// What the file system says of a workspace: the projects directory's
/// modification time, its project directories (none when it does not
/// exist), its own high-value files, and the tag registry's time.
pub struct FingerprintSnapshot {
    pub root_mtime: Option<u64>,
    pub entries: Option<Vec<EntrySnapshot>>,
    pub root_file_mtimes: Vec<Option<u64>>,
    pub tags_mtime: Option<u64>,
}

/// The multiplier of the mixing step.
pub const MIX_FACTOR: u64 = 0x517cc1b727220a95;

/// Rotation of a 64-bit word left by 13 bits.
pub open spec fn rotl13(a: u64) -> u64 {
    (a << 13u64) | (a >> 51u64)
}

/// One mixing step: add, rotate left by 13, multiply, all wrapping.
pub open spec fn mix(h: u64, v: u64) -> u64 {
    wrapping_mul(rotl13(wrapping_add(h, v)), MIX_FACTOR)
}

/// Mixing the values of `vs` into `h`, first to last.
pub open spec fn fold_mix(h: u64, vs: Seq<u64>) -> u64
    decreases vs.len(),
{
    if vs.len() == 0 {
        h
    } else {
        mix(fold_mix(h, vs.drop_last()), vs.last())
    }
}

/// The wrapping sum of the bytes of a name.
pub open spec fn byte_sum(s: Seq<u8>) -> u64
    decreases s.len(),
{
    if s.len() == 0 {
        0
    } else {
        wrapping_add(byte_sum(s.drop_last()), s.last() as u64)
    }
}

/// A time, if there is one, as a list of values.
pub open spec fn present(o: Option<u64>) -> Seq<u64> {
    match o {
        Some(v) => seq![v],
        None => seq![],
    }
}

/// The times that there are, in order.
pub open spec fn present_all(s: Seq<Option<u64>>) -> Seq<u64>
    decreases s.len(),
{
    if s.len() == 0 {
        seq![]
    } else {
        present_all(s.drop_last()) + present(s.last())
    }
}

/// The values one project directory gives: the sum of its name's bytes if
/// the name is text, its time, and the times of its high-value files.
pub open spec fn entry_values(e: EntrySnapshot) -> Seq<u64> {
    (if valid_utf8(e.name@) {
        seq![byte_sum(e.name@)]
    } else {
        seq![]
    }) + present(e.mtime) + present_all(e.file_mtimes@)
}

/// The values of project directories, in order.
pub open spec fn entries_values(es: Seq<EntrySnapshot>) -> Seq<u64>
    decreases es.len(),
{
    if es.len() == 0 {
        seq![]
    } else {
        entries_values(es.drop_last()) + entry_values(es.last())
    }
}

/// All values of a snapshot whose project directories come in the order `es`.
pub open spec fn snapshot_values(s: FingerprintSnapshot, es: Seq<EntrySnapshot>) -> Seq<u64> {
    present(s.root_mtime) + entries_values(es) + present_all(s.root_file_mtimes@) + present(s.tags_mtime)
}

/// No name comes before the one in front of it.
pub open spec fn names_ascending(es: Seq<EntrySnapshot>) -> bool {
    forall|i: int, j: int| 0 <= i < j < es.len() ==> !bytes_lt((#[trigger] es[j]).name@, (#[trigger] es[i]).name@)
}

/// Whether a name is valid UTF-8.
///
/// Calls `std::str::from_utf8`, which succeeds exactly on valid UTF-8; the
/// contract states that with vstd's definition of valid UTF-8.
#[verifier::external_body]
fn is_text(bytes: &[u8]) -> (r: bool)
    ensures
        r == valid_utf8(bytes@),
{
    std::str::from_utf8(bytes).is_ok()
}

/// One mixing step.
pub fn mix_step(h: u64, v: u64) -> (r: u64)
    ensures
        r == mix(h, v),
{
    let a = h.wrapping_add(v);
    let rotated = (a << 13u64) | (a >> 51u64);
    rotated.wrapping_mul(MIX_FACTOR)
}

/// The wrapping sum of the bytes of a name.
pub fn name_sum(name: &[u8]) -> (r: u64)
    ensures
        r == byte_sum(name@),
{
    let mut h: u64 = 0;
    let mut i: usize = 0;
    while i < name.len()
        invariant
            i <= name@.len(),
            h == byte_sum(name@.take(i as int)),
        decreases name@.len() - i,
    {
        assert(name@.take(i + 1).drop_last() =~= name@.take(i as int));
        h = h.wrapping_add(name[i] as u64);
        i = i + 1;
    }
    assert(name@.take(i as int) =~= name@);
    h
}

fn push_present(v: &mut Vec<u64>, o: Option<u64>)
    ensures
        final(v)@ == old(v)@ + present(o),
{
    match o {
        Some(x) => {
            v.push(x);
            assert(final(v)@ =~= old(v)@ + present(o));
        },
        None => {
            assert(old(v)@ + present(o) =~= old(v)@);
        },
    }
}

fn push_present_all(v: &mut Vec<u64>, s: &Vec<Option<u64>>)
    ensures
        final(v)@ == old(v)@ + present_all(s@),
{
    let ghost start = v@;
    let mut i: usize = 0;
    assert(start + present_all(s@.take(0)) =~= start);
    while i < s.len()
        invariant
            i <= s@.len(),
            v@ == start + present_all(s@.take(i as int)),
        decreases s@.len() - i,
    {
        assert(s@.take(i + 1).drop_last() =~= s@.take(i as int));
        assert(s@.take(i + 1).last() == s@[i as int]);
        push_present(v, s[i]);
        assert(v@ =~= start + present_all(s@.take(i + 1)));
        i = i + 1;
    }
    assert(s@.take(i as int) =~= s@);
}

fn push_entry(v: &mut Vec<u64>, e: &EntrySnapshot)
    ensures
        final(v)@ == old(v)@ + entry_values(*e),
{
    let ghost start = v@;
    if is_text(e.name.as_slice()) {
        v.push(name_sum(e.name.as_slice()));
    }
    push_present(v, e.mtime);
    push_present_all(v, &e.file_mtimes);
    assert(v@ =~= start + entry_values(*e));
}

/// Whether a project directory is named `n`.
pub open spec fn name_is(n: Seq<u8>) -> spec_fn(EntrySnapshot) -> bool {
    |e: EntrySnapshot| e.name@ == n
}

/// The project directories named `n`, in the order they come.
pub open spec fn named(es: Seq<EntrySnapshot>, n: Seq<u8>) -> Seq<EntrySnapshot> {
    es.filter(name_is(n))
}

/// A list without a directory named `n` has none of that name.
proof fn lemma_none_named(s: Seq<EntrySnapshot>, n: Seq<u8>)
    requires
        forall|i: int| 0 <= i < s.len() ==> (#[trigger] s[i]).name@ != n,
    ensures
        named(s, n) == Seq::<EntrySnapshot>::empty(),
    decreases s.len(),
{
    reveal(Seq::filter);
    if s.len() > 0 {
        assert forall|i: int| 0 <= i < s.drop_last().len() implies (#[trigger] s.drop_last()[i]).name@ != n by {
            assert(s.drop_last()[i] == s[i]);
        }
        lemma_none_named(s.drop_last(), n);
        assert(s[s.len() - 1].name@ != n);
    } else {
        assert(named(s, n) =~= Seq::<EntrySnapshot>::empty());
    }
}

/// What a list gives for a name, split into its first directory and the rest.
proof fn lemma_named_split(s: Seq<EntrySnapshot>, n: Seq<u8>)
    requires
        s.len() > 0,
    ensures
        named(s, n) == (if s[0].name@ == n {
            seq![s[0]]
        } else {
            Seq::<EntrySnapshot>::empty()
        }) + named(s.skip(1), n),
{
    assert(s =~= seq![s[0]] + s.skip(1));
    s.skip(1).lemma_filter_prepend(s[0], name_is(n));
}

/// Puts project directories in ascending order of name, keeping the order
/// of equal names.
pub fn sort_by_name(v: Vec<EntrySnapshot>) -> (r: Vec<EntrySnapshot>)
    ensures
        names_ascending(r@),
        forall|n: Seq<u8>| #[trigger] named(r@, n) == named(v@, n),
        r@.to_multiset() == v@.to_multiset(),
{
    let mut r: Vec<EntrySnapshot> = Vec::new();
    let mut rest = v;
    let ghost initial = rest@;
    assert(initial.skip(initial.len() as int) =~= Seq::<EntrySnapshot>::empty());
    assert(initial.take(initial.len() as int) =~= initial);
    // Take the directories from the back, so that each is put before the
    // ones of the same name that came after it.
    while rest.len() > 0
        invariant
            names_ascending(r@),
            rest@ == initial.take(rest@.len() as int),
            rest@.len() <= initial.len(),
            forall|n: Seq<u8>| #[trigger] named(r@, n) == named(initial.skip(rest@.len() as int), n),
            r@.to_multiset().add(rest@.to_multiset()) == initial.to_multiset(),
        decreases rest@.len(),
    {
        let ghost before_rest = rest@;
        let ghost m = before_rest.len() as int;
        let s = rest.pop().unwrap();
        assert(before_rest =~= rest@.push(s));
        assert(rest@ =~= initial.take(m - 1));
        assert(initial.skip(m - 1) =~= seq![s] + initial.skip(m));
        let mut k: usize = 0;
        while k < r.len() && bytes_less(r[k].name.as_slice(), s.name.as_slice())
            invariant
                k <= r@.len(),
                forall|j: int| 0 <= j < k ==> bytes_lt((#[trigger] r@[j]).name@, s.name@),
            decreases r@.len() - k,
        {
            k = k + 1;
        }
        let ghost before = r@;
        let ghost sn = s.name@;
        r.insert(k, s);
        assert forall|i: int, j: int| 0 <= i < j < r@.len() implies !bytes_lt((#[trigger] r@[j]).name@, (#[trigger] r@[i]).name@) by {
            if j < k {
                assert(r@[i] == before[i] && r@[j] == before[j]);
            } else if j == k {
                assert(r@[i] == before[i]);
                lemma_bytes_asymmetric(before[i].name@, sn);
            } else if i < k {
                assert(r@[i] == before[i] && r@[j] == before[j - 1]);
            } else if i == k {
                assert(r@[j] == before[j - 1]);
                assert(k < before.len());
                assert(!bytes_lt(before[k as int].name@, sn));
                if bytes_lt(before[j - 1].name@, sn) {
                    lemma_bytes_total(before[k as int].name@, before[j - 1].name@);
                    if bytes_lt(before[k as int].name@, before[j - 1].name@) {
                        lemma_bytes_transitive(before[k as int].name@, before[j - 1].name@, sn);
                    } else if j - 1 > k {
                        assert(!bytes_lt(before[j - 1].name@, before[k as int].name@));
                    }
                }
            } else {
                assert(r@[i] == before[i - 1] && r@[j] == before[j - 1]);
            }
        }
        assert forall|n: Seq<u8>| #[trigger] named(r@, n) == named(initial.skip(rest@.len() as int), n) by {
            let f = name_is(n);
            let head = before.take(k as int);
            let tail = before.skip(k as int);
            assert(r@ =~= head + (seq![s] + tail));
            assert(before =~= head + tail);
            Seq::filter_distributes_over_add(head, seq![s] + tail, f);
            Seq::filter_distributes_over_add(head, tail, f);
            tail.lemma_filter_prepend(s, f);
            initial.skip(m).lemma_filter_prepend(s, f);
            if n == sn {
                assert forall|i: int| 0 <= i < head.len() implies (#[trigger] head[i]).name@ != n by {
                    assert(head[i] == before[i]);
                    lemma_bytes_irreflexive(sn);
                }
                lemma_none_named(head, n);
                assert(named(r@, n) =~= seq![s] + named(tail, n));
                assert(named(before, n) =~= named(tail, n));
            } else {
                assert(named(r@, n) =~= named(before, n));
            }
        }
        assert(r@.to_multiset() == before.to_multiset().insert(s));
        assert(before_rest.to_multiset() == rest@.to_multiset().insert(s));
        assert(r@.to_multiset().add(rest@.to_multiset()) =~= before.to_multiset().add(before_rest.to_multiset()));
    }
    assert(rest@.to_multiset() =~= Multiset::empty());
    assert(r@.to_multiset() =~= initial.to_multiset());
    assert(initial.skip(0) =~= initial);
    r
}

/// Mixes the values of `vs` into 0, first to last.
pub fn fold_values(vs: &Vec<u64>) -> (h: u64)
    ensures
        h == fold_mix(0, vs@),
{
    let mut h: u64 = 0;
    let mut i: usize = 0;
    while i < vs.len()
        invariant
            i <= vs@.len(),
            h == fold_mix(0, vs@.take(i as int)),
        decreases vs@.len() - i,
    {
        assert(vs@.take(i + 1).drop_last() =~= vs@.take(i as int));
        h = mix_step(h, vs[i]);
        i = i + 1;
    }
    assert(vs@.take(i as int) =~= vs@);
    h
}

/// The fingerprint of a snapshot: the times mixed in order, the project
/// directories taken in ascending order of name.
pub fn fingerprint_of(snapshot: FingerprintSnapshot) -> (r: u64)
    ensures
        match snapshot.entries {
            None => r == fold_mix(0, snapshot_values(snapshot, seq![])),
            Some(es) => exists|s: Seq<EntrySnapshot>|
                s.to_multiset() == es@.to_multiset() && names_ascending(s)
                    && (forall|n: Seq<u8>| #[trigger] named(s, n) == named(es@, n))
                    && r == fold_mix(0, #[trigger] snapshot_values(snapshot, s)),
        },
{
    let FingerprintSnapshot { root_mtime, entries, root_file_mtimes, tags_mtime } = snapshot;
    let mut vs: Vec<u64> = Vec::new();
    push_present(&mut vs, root_mtime);
    let ghost after_root = vs@;
    let sorted = match entries {
        Some(es) => sort_by_name(es),
        None => Vec::new(),
    };
    let mut i: usize = 0;
    assert(after_root + entries_values(sorted@.take(0)) =~= after_root);
    while i < sorted.len()
        invariant
            i <= sorted@.len(),
            vs@ == after_root + entries_values(sorted@.take(i as int)),
        decreases sorted@.len() - i,
    {
        assert(sorted@.take(i + 1).drop_last() =~= sorted@.take(i as int));
        assert(sorted@.take(i + 1).last() == sorted@[i as int]);
        push_entry(&mut vs, &sorted[i]);
        assert(vs@ =~= after_root + entries_values(sorted@.take(i + 1)));
        i = i + 1;
    }
    assert(sorted@.take(i as int) =~= sorted@);
    push_present_all(&mut vs, &root_file_mtimes);
    push_present(&mut vs, tags_mtime);
    let r = fold_values(&vs);
    assert(vs@ =~= snapshot_values(snapshot, sorted@));
    r
}

/// No two project directories have the same name, as in any one listing of
/// a directory.
pub open spec fn distinct_names(es: Seq<EntrySnapshot>) -> bool {
    forall|i: int, j: int| 0 <= i < es.len() && 0 <= j < es.len() && i != j ==> (#[trigger] es[i]).name@ != (#[trigger] es[j]).name@
}

/// Two orderings by name of the same directories, whose names are
/// distinct, are the same ordering.
pub proof fn lemma_ascending_unique(s1: Seq<EntrySnapshot>, s2: Seq<EntrySnapshot>)
    requires
        s1.to_multiset() == s2.to_multiset(),
        names_ascending(s1),
        names_ascending(s2),
        distinct_names(s1),
    ensures
        s1 == s2,
    decreases s1.len(),
{
    if s1.len() == 0 {
        if s2.len() > 0 {
            assert(s2.to_multiset().contains(s2[0]));
        }
        assert(s1 =~= s2);
    } else {
        assert(s1.to_multiset().contains(s1[0]));
        assert(s2.contains(s1[0]));
        let j = choose|j: int| 0 <= j < s2.len() && s2[j] == s1[0];
        assert(s2.to_multiset().contains(s2[0]));
        assert(s1.contains(s2[0]));
        let i = choose|i: int| 0 <= i < s1.len() && s1[i] == s2[0];
        if i > 0 && j > 0 {
            assert(!bytes_lt(s1[i].name@, s1[0].name@));
            assert(!bytes_lt(s2[j].name@, s2[0].name@));
            lemma_bytes_total(s1[0].name@, s2[0].name@);
            assert(s1[i].name@ != s1[0].name@);
        }
        assert(s1[0] == s2[0]);
        let t1 = s1.drop_first();
        let t2 = s2.drop_first();
        assert(s1.remove(0) =~= t1);
        assert(s2.remove(0) =~= t2);
        assert(t1.to_multiset() =~= t2.to_multiset());
        assert(names_ascending(t1)) by {
            assert forall|a: int, b: int| 0 <= a < b < t1.len() implies !bytes_lt((#[trigger] t1[b]).name@, (#[trigger] t1[a]).name@) by {
                assert(!bytes_lt(s1[b + 1].name@, s1[a + 1].name@));
            }
        }
        assert(names_ascending(t2)) by {
            assert forall|a: int, b: int| 0 <= a < b < t2.len() implies !bytes_lt((#[trigger] t2[b]).name@, (#[trigger] t2[a]).name@) by {
                assert(!bytes_lt(s2[b + 1].name@, s2[a + 1].name@));
            }
        }
        assert(distinct_names(t1)) by {
            assert forall|a: int, b: int| 0 <= a < t1.len() && 0 <= b < t1.len() && a != b implies (#[trigger] t1[a]).name@ != (#[trigger] t1[b]).name@ by {
                assert(s1[a + 1].name@ != s1[b + 1].name@);
            }
        }
        lemma_ascending_unique(t1, t2);
        assert forall|x: int| 0 <= x < s1.len() implies s1[x] == s2[x] by {
            if x > 0 {
                assert(s1[x] == t1[x - 1]);
                assert(s2[x] == t2[x - 1]);
            }
        }
        assert(s1 =~= s2);
    }
}

/// The fingerprint does not depend on the order in which the directory was
/// listed: any two orderings by name of the same directories, whose names
/// are distinct, give the same values and so the same fingerprint.
pub proof fn law_fingerprint_ignores_listing_order(
    snapshot: FingerprintSnapshot,
    es: Seq<EntrySnapshot>,
    s1: Seq<EntrySnapshot>,
    s2: Seq<EntrySnapshot>,
)
    requires
        distinct_names(es),
        s1.to_multiset() == es.to_multiset(),
        s2.to_multiset() == es.to_multiset(),
        names_ascending(s1),
        names_ascending(s2),
    ensures
        fold_mix(0, snapshot_values(snapshot, s1)) == fold_mix(0, snapshot_values(snapshot, s2)),
{
    assert(distinct_names(s1)) by {
        assert forall|a: int, b: int| 0 <= a < s1.len() && 0 <= b < s1.len() && a != b implies (#[trigger] s1[a]).name@ != (#[trigger] s1[b]).name@ by {
            if s1[a].name@ == s1[b].name@ {
                assert(s1.to_multiset().contains(s1[a]));
                assert(s1.to_multiset().contains(s1[b]));
                assert(es.contains(s1[a]));
                assert(es.contains(s1[b]));
                let x = choose|x: int| 0 <= x < es.len() && es[x] == s1[a];
                let y = choose|y: int| 0 <= y < es.len() && es[y] == s1[b];
                if x == y {
                    assert(s1[a] == s1[b]);
                    // the same element twice in s1 means it occurs twice in es
                    assert(s1.to_multiset().count(s1[a]) >= 2) by {
                        let lo = if a < b { a } else { b };
                        let hi = if a < b { b } else { a };
                        lemma_count_two(s1, lo, hi);
                    }
                    lemma_count_one(es, x);
                } else {
                    assert(es[x].name@ != es[y].name@);
                }
            }
        }
    }
    lemma_ascending_unique(s1, s2);
}

/// Two lists in ascending order of name that hold the same directories of
/// each name, in the same order, are the same list: the order that
/// `sort_by_name` gives, and so the fingerprint, is determined by the
/// listing.
pub proof fn law_name_order_is_determined(a: Seq<EntrySnapshot>, b: Seq<EntrySnapshot>)
    requires
        names_ascending(a),
        names_ascending(b),
        forall|n: Seq<u8>| #[trigger] named(a, n) == named(b, n),
    ensures
        a == b,
    decreases a.len(),
{
    if a.len() == 0 || b.len() == 0 {
        if a.len() > 0 {
            lemma_named_split(a, a[0].name@);
            lemma_none_named(b, a[0].name@);
            assert(named(a, a[0].name@).len() > 0);
        }
        if b.len() > 0 {
            lemma_named_split(b, b[0].name@);
            lemma_none_named(a, b[0].name@);
            assert(named(b, b[0].name@).len() > 0);
        }
        assert(a =~= b);
    } else {
        let na = a[0].name@;
        let nb = b[0].name@;
        lemma_named_split(a, na);
        lemma_named_split(b, nb);
        if na != nb {
            lemma_bytes_total(na, nb);
            if bytes_lt(na, nb) {
                // no directory of `b` is named `na`: all come at or after `nb`
                assert forall|i: int| 0 <= i < b.len() implies (#[trigger] b[i]).name@ != na by {
                    if i > 0 && b[i].name@ == na {
                        assert(!bytes_lt(b[i].name@, b[0].name@));
                    }
                }
                lemma_none_named(b, na);
                assert(named(a, na).len() > 0);
            } else {
                assert forall|i: int| 0 <= i < a.len() implies (#[trigger] a[i]).name@ != nb by {
                    if i > 0 && a[i].name@ == nb {
                        assert(!bytes_lt(a[i].name@, a[0].name@));
                    }
                }
                lemma_none_named(a, nb);
                assert(named(b, nb).len() > 0);
            }
        }
        assert(na == nb);
        assert(named(a, na)[0] == a[0]);
        assert(named(b, na)[0] == b[0]);
        assert(a[0] == b[0]);
        assert forall|n: Seq<u8>| #[trigger] named(a.skip(1), n) == named(b.skip(1), n) by {
            lemma_named_split(a, n);
            lemma_named_split(b, n);
            let head = if a[0].name@ == n {
                seq![a[0]]
            } else {
                Seq::<EntrySnapshot>::empty()
            };
            assert(named(a.skip(1), n) =~= named(a, n).skip(head.len() as int));
            assert(named(b.skip(1), n) =~= named(b, n).skip(head.len() as int));
        }
        assert forall|i: int, j: int| 0 <= i < j < a.skip(1).len() implies !bytes_lt(
            (#[trigger] a.skip(1)[j]).name@,
            (#[trigger] a.skip(1)[i]).name@,
        ) by {
            assert(a.skip(1)[i] == a[i + 1] && a.skip(1)[j] == a[j + 1]);
        }
        assert forall|i: int, j: int| 0 <= i < j < b.skip(1).len() implies !bytes_lt(
            (#[trigger] b.skip(1)[j]).name@,
            (#[trigger] b.skip(1)[i]).name@,
        ) by {
            assert(b.skip(1)[i] == b[i + 1] && b.skip(1)[j] == b[j + 1]);
        }
        law_name_order_is_determined(a.skip(1), b.skip(1));
        assert(a =~= seq![a[0]] + a.skip(1));
        assert(b =~= seq![b[0]] + b.skip(1));
    }
}

/// An element found at two positions is counted twice.
proof fn lemma_count_two(s: Seq<EntrySnapshot>, a: int, b: int)
    requires
        0 <= a < b < s.len(),
        s[a] == s[b],
    ensures
        s.to_multiset().count(s[a]) >= 2,
{
    let x = s[a];
    let t = s.remove(b);
    assert(s.to_multiset().remove(x) == t.to_multiset());
    assert(t[a] == x);
    assert(t.to_multiset().contains(x));
}

/// In a list with distinct names, an element is counted once.
proof fn lemma_count_one(s: Seq<EntrySnapshot>, i: int)
    requires
        0 <= i < s.len(),
        distinct_names(s),
    ensures
        s.to_multiset().count(s[i]) == 1,
{
    let x = s[i];
    let t = s.remove(i);
    assert(s.to_multiset().remove(x) == t.to_multiset());
    assert(!t.contains(x)) by {
        if t.contains(x) {
            let j = choose|j: int| 0 <= j < t.len() && t[j] == x;
            let oj = if j < i { j } else { j + 1 };
            assert(s[oj] == x);
            assert(s[oj].name@ != s[i].name@);
        }
    }
    assert(t.to_multiset().count(x) == 0);
    assert(s.to_multiset().contains(x));
    assert(s.to_multiset().count(x) > 0);
}

/// Equal ends around two middles that make the same sequence: the middles
/// are equal.
proof fn lemma_cancel_ends(a: Seq<u64>, x: Seq<u64>, y: Seq<u64>, z: Seq<u64>)
    requires
        a + x + z == a + y + z,
    ensures
        x == y,
{
    let u = a + x + z;
    assert(x =~= u.subrange(a.len() as int, u.len() - z.len()));
    assert(y =~= (a + y + z).subrange(a.len() as int, u.len() - z.len()));
}

/// Every time that is there is among the values, in its place.
proof fn lemma_present_all_contains(s: Seq<Option<u64>>, i: int, t: u64)
    requires
        0 <= i < s.len(),
        s[i] == Some(t),
    ensures
        present_all(s).contains(t),
    decreases s.len(),
{
    if i == s.len() - 1 {
        let p = present_all(s.drop_last());
        assert(present_all(s) == p + seq![t]);
        assert(present_all(s)[p.len() as int] == t);
    } else {
        assert(s.drop_last()[i] == s[i]);
        lemma_present_all_contains(s.drop_last(), i, t);
        let p = present_all(s.drop_last());
        let k = choose|k: int| 0 <= k < p.len() && p[k] == t;
        assert(present_all(s)[k] == t);
    }
}

/// Two lists of times that differ at one position give different values.
proof fn lemma_present_all_sees_each(s1: Seq<Option<u64>>, s2: Seq<Option<u64>>, i: int)
    requires
        s1.len() == s2.len(),
        0 <= i < s1.len(),
        s1[i] != s2[i],
        forall|j: int| 0 <= j < s1.len() && j != i ==> s1[j] == s2[j],
    ensures
        present_all(s1) != present_all(s2),
    decreases s1.len(),
{
    let n = s1.len() - 1;
    if i == n {
        assert(s1.drop_last() =~= s2.drop_last());
        let p = present_all(s1.drop_last());
        assert(present_all(s1) == p + present(s1[n]));
        assert(present_all(s2) == p + present(s2[n]));
        match (s1[n], s2[n]) {
            (Some(t1), Some(t2)) => {
                assert((p + present(s1[n]))[p.len() as int] == t1);
                assert((p + present(s2[n]))[p.len() as int] == t2);
            },
            _ => {
                assert(present(s1[n]).len() != present(s2[n]).len());
            },
        }
    } else {
        assert forall|j: int| 0 <= j < s1.drop_last().len() && j != i implies s1.drop_last()[j]
            == s2.drop_last()[j] by {
            assert(s1.drop_last()[j] == s1[j] && s2.drop_last()[j] == s2[j]);
        }
        assert(s1.drop_last()[i] == s1[i] && s2.drop_last()[i] == s2[i]);
        lemma_present_all_sees_each(s1.drop_last(), s2.drop_last(), i);
        assert(s1.last() == s2.last());
        if present_all(s1) == present_all(s2) {
            lemma_cancel_ends(
                Seq::<u64>::empty(),
                present_all(s1.drop_last()),
                present_all(s2.drop_last()),
                present(s1.last()),
            );
            assert(Seq::<u64>::empty() + present_all(s1.drop_last()) =~= present_all(s1.drop_last()));
            assert(Seq::<u64>::empty() + present_all(s2.drop_last()) =~= present_all(s2.drop_last()));
        }
    }
}

/// The values of directories listed one after another are those of the
/// first list, then those of the second.
proof fn lemma_entries_values_append(a: Seq<EntrySnapshot>, b: Seq<EntrySnapshot>)
    ensures
        entries_values(a + b) == entries_values(a) + entries_values(b),
    decreases b.len(),
{
    if b.len() == 0 {
        assert(a + b =~= a);
        assert(entries_values(a) + entries_values(b) =~= entries_values(a));
    } else {
        assert((a + b).drop_last() =~= a + b.drop_last());
        assert((a + b).last() == b.last());
        lemma_entries_values_append(a, b.drop_last());
        assert(entries_values(a) + entries_values(b) =~= entries_values(a) + entries_values(b.drop_last())
            + entry_values(b.last()));
    }
}

/// The values of one directory listed alone are its own values.
proof fn lemma_entries_values_one(e: EntrySnapshot)
    ensures
        entries_values(seq![e]) == entry_values(e),
{
    let one = seq![e];
    assert(one.drop_last() =~= Seq::<EntrySnapshot>::empty());
    assert(entries_values(one.drop_last()) == Seq::<u64>::empty());
    assert(Seq::<u64>::empty() + entry_values(e) =~= entry_values(e));
}

/// The values of a listing split around its directory at `k`.
proof fn lemma_entries_values_around(es: Seq<EntrySnapshot>, k: int)
    requires
        0 <= k < es.len(),
    ensures
        entries_values(es) == entries_values(es.take(k)) + entry_values(es[k]) + entries_values(es.skip(k + 1)),
{
    assert(es =~= es.take(k) + seq![es[k]] + es.skip(k + 1));
    lemma_entries_values_append(es.take(k) + seq![es[k]], es.skip(k + 1));
    lemma_entries_values_append(es.take(k), seq![es[k]]);
    lemma_entries_values_one(es[k]);
}

/// The values of a snapshot split around its directory at `k`.
proof fn lemma_snapshot_values_around(snapshot: FingerprintSnapshot, es: Seq<EntrySnapshot>, k: int)
    requires
        0 <= k < es.len(),
    ensures
        snapshot_values(snapshot, es) == (present(snapshot.root_mtime) + entries_values(es.take(k))) + entry_values(
            es[k],
        ) + (entries_values(es.skip(k + 1)) + present_all(snapshot.root_file_mtimes@) + present(
            snapshot.tags_mtime,
        )),
{
    lemma_entries_values_around(es, k);
    let p = present(snapshot.root_mtime);
    let b = entries_values(es.take(k));
    let e = entry_values(es[k]);
    let a = entries_values(es.skip(k + 1));
    let rf = present_all(snapshot.root_file_mtimes@);
    let t = present(snapshot.tags_mtime);
    lemma_regroup(p, b, e, a, rf, t);
}

/// Regrouping a concatenation of six parts around the third.
proof fn lemma_regroup(p: Seq<u64>, b: Seq<u64>, e: Seq<u64>, a: Seq<u64>, rf: Seq<u64>, t: Seq<u64>)
    ensures
        p + (b + e + a) + rf + t == (p + b) + e + (a + rf + t),
{
    assert(p + (b + e + a) + rf + t =~= (p + b) + e + (a + rf + t));
}

/// The time of every high-value file of a project that has one is among the
/// values the project mixes into the fingerprint, as are the project's own
/// time and, when its name is text, the sum of the name's bytes.
pub proof fn law_project_times_are_mixed(e: EntrySnapshot, i: int, t: u64)
    requires
        0 <= i < e.file_mtimes@.len(),
        e.file_mtimes@[i] == Some(t),
    ensures
        entry_values(e).contains(t),
        e.mtime matches Some(m) ==> entry_values(e).contains(m),
        valid_utf8(e.name@) ==> entry_values(e).contains(byte_sum(e.name@)),
{
    lemma_present_all_contains(e.file_mtimes@, i, t);
    let head = if valid_utf8(e.name@) {
        seq![byte_sum(e.name@)]
    } else {
        seq![]
    };
    let rest = present_all(e.file_mtimes@);
    let k = choose|k: int| 0 <= k < rest.len() && rest[k] == t;
    assert(entry_values(e)[head.len() + present(e.mtime).len() + k] == t);
    if let Some(m) = e.mtime {
        assert(entry_values(e)[head.len() as int] == m);
    }
    if valid_utf8(e.name@) {
        assert(entry_values(e)[0] == byte_sum(e.name@));
    }
}

/// Changing the time of any one high-value file of a project changes the
/// values the project mixes into the fingerprint.
pub proof fn law_each_file_time_counts(e1: EntrySnapshot, e2: EntrySnapshot, i: int)
    requires
        e1.name@ == e2.name@,
        e1.mtime == e2.mtime,
        e1.file_mtimes@.len() == e2.file_mtimes@.len(),
        0 <= i < e1.file_mtimes@.len(),
        e1.file_mtimes@[i] != e2.file_mtimes@[i],
        forall|j: int| 0 <= j < e1.file_mtimes@.len() && j != i ==> e1.file_mtimes@[j] == e2.file_mtimes@[j],
    ensures
        entry_values(e1) != entry_values(e2),
{
    lemma_present_all_sees_each(e1.file_mtimes@, e2.file_mtimes@, i);
    let a = (if valid_utf8(e1.name@) {
        seq![byte_sum(e1.name@)]
    } else {
        seq![]
    }) + present(e1.mtime);
    if entry_values(e1) == entry_values(e2) {
        lemma_cancel_ends(a, present_all(e1.file_mtimes@), present_all(e2.file_mtimes@), Seq::<u64>::empty());
        assert(a + present_all(e1.file_mtimes@) + Seq::<u64>::empty() =~= entry_values(e1));
        assert(a + present_all(e2.file_mtimes@) + Seq::<u64>::empty() =~= entry_values(e2));
    }
}

/// Two snapshots listed alike that differ only in the time of one
/// high-value file of one project give different sequences of values to
/// mix: editing any high-value file of any project shows in what the
/// fingerprint is made of.
pub proof fn law_file_time_changes_mixed_values(
    snapshot: FingerprintSnapshot,
    es1: Seq<EntrySnapshot>,
    es2: Seq<EntrySnapshot>,
    k: int,
    i: int,
)
    requires
        es1.len() == es2.len(),
        0 <= k < es1.len(),
        forall|j: int| 0 <= j < es1.len() && j != k ==> es1[j] == es2[j],
        es1[k].name@ == es2[k].name@,
        es1[k].mtime == es2[k].mtime,
        es1[k].file_mtimes@.len() == es2[k].file_mtimes@.len(),
        0 <= i < es1[k].file_mtimes@.len(),
        es1[k].file_mtimes@[i] != es2[k].file_mtimes@[i],
        forall|j: int|
            0 <= j < es1[k].file_mtimes@.len() && j != i ==> es1[k].file_mtimes@[j] == es2[k].file_mtimes@[j],
    ensures
        snapshot_values(snapshot, es1) != snapshot_values(snapshot, es2),
{
    law_each_file_time_counts(es1[k], es2[k], i);
    assert(es2.take(k) =~= es1.take(k));
    assert(es2.skip(k + 1) =~= es1.skip(k + 1));
    lemma_snapshot_values_around(snapshot, es1, k);
    lemma_snapshot_values_around(snapshot, es2, k);
    let a = present(snapshot.root_mtime) + entries_values(es1.take(k));
    let z = entries_values(es1.skip(k + 1)) + present_all(snapshot.root_file_mtimes@) + present(snapshot.tags_mtime);
    if snapshot_values(snapshot, es1) == snapshot_values(snapshot, es2) {
        lemma_cancel_ends(a, entry_values(es1[k]), entry_values(es2[k]), z);
    }
}

/// The projects directory's time comes first among the values and the tag
/// registry's time last; the time of each of the directory's own
/// high-value files, and of each project, is among them.
pub proof fn law_snapshot_times_are_mixed(snapshot: FingerprintSnapshot, es: Seq<EntrySnapshot>, i: int, k: int)
    ensures
        snapshot.root_mtime matches Some(m) ==> snapshot_values(snapshot, es)[0] == m,
        snapshot.tags_mtime matches Some(t) ==> snapshot_values(snapshot, es).last() == t,
        0 <= i < snapshot.root_file_mtimes@.len() ==> (snapshot.root_file_mtimes@[i] matches Some(t)
            ==> snapshot_values(snapshot, es).contains(t)),
        0 <= k < es.len() ==> (es[k].mtime matches Some(m) ==> snapshot_values(snapshot, es).contains(m)),
{
    let v = snapshot_values(snapshot, es);
    let a = present(snapshot.root_mtime);
    let ev = entries_values(es);
    let rf = present_all(snapshot.root_file_mtimes@);
    assert(v == a + ev + rf + present(snapshot.tags_mtime));
    if let Some(m) = snapshot.root_mtime {
        assert(v[0] == m);
    }
    if let Some(t) = snapshot.tags_mtime {
        assert(v.last() == t);
    }
    if 0 <= i < snapshot.root_file_mtimes@.len() {
        if let Some(t) = snapshot.root_file_mtimes@[i] {
            lemma_present_all_contains(snapshot.root_file_mtimes@, i, t);
            let j = choose|j: int| 0 <= j < rf.len() && rf[j] == t;
            assert(v[a.len() + ev.len() + j] == t);
        }
    }
    if 0 <= k < es.len() {
        if let Some(m) = es[k].mtime {
            lemma_entries_values_around(es, k);
            let head = if valid_utf8(es[k].name@) {
                seq![byte_sum(es[k].name@)]
            } else {
                seq![]
            };
            assert(entry_values(es[k])[head.len() as int] == m);
            let pre = entries_values(es.take(k));
            assert(ev == pre + entry_values(es[k]) + entries_values(es.skip(k + 1)));
            assert(v[(a.len() + pre.len() + head.len()) as int] == m);
        }
    }
}

} // verus!
