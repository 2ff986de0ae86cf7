//! Lexicographic order on code sequences, the order in which text and file
//! names are sorted.
use vstd::prelude::*;

verus! {

/// Lexicographic "strictly less" on sequences of codes: the first position at
/// which the two differ decides, and a proper prefix comes first.
pub open spec fn lex_lt(a: Seq<int>, b: Seq<int>) -> bool
    decreases a.len(),
{
    if a.len() == 0 {
        b.len() > 0
    } else if b.len() == 0 {
        false
    } else if a[0] < b[0] {
        true
    } else if a[0] == b[0] {
        lex_lt(a.drop_first(), b.drop_first())
    } else {
        false
    }
}

/// The code points of a text.
pub open spec fn char_codes(s: Seq<char>) -> Seq<int> {
    s.map_values(|c: char| c as int)
}

/// The order of `String`s: Rust compares their UTF-8 bytes, and UTF-8
/// preserves the order of code points, so this is code-point order.
pub open spec fn text_lt(a: Seq<char>, b: Seq<char>) -> bool {
    lex_lt(char_codes(a), char_codes(b))
}

/// The codes of a byte string.
pub open spec fn byte_codes(s: Seq<u8>) -> Seq<int> {
    s.map_values(|c: u8| c as int)
}

/// The order of raw file names: byte-wise lexicographic.
pub open spec fn bytes_lt(a: Seq<u8>, b: Seq<u8>) -> bool {
    lex_lt(byte_codes(a), byte_codes(b))
}

pub proof fn lemma_lex_irreflexive(a: Seq<int>)
    ensures
        !lex_lt(a, a),
    decreases a.len(),
{
    if a.len() > 0 {
        lemma_lex_irreflexive(a.drop_first());
    }
}

pub proof fn lemma_lex_asymmetric(a: Seq<int>, b: Seq<int>)
    requires
        lex_lt(a, b),
    ensures
        !lex_lt(b, a),
    decreases a.len(),
{
    if a.len() > 0 && b.len() > 0 && a[0] == b[0] {
        lemma_lex_asymmetric(a.drop_first(), b.drop_first());
    }
}

pub proof fn lemma_lex_transitive(a: Seq<int>, b: Seq<int>, c: Seq<int>)
    requires
        lex_lt(a, b),
        lex_lt(b, c),
    ensures
        lex_lt(a, c),
    decreases a.len(),
{
    if a.len() > 0 && b.len() > 0 && c.len() > 0 && a[0] == b[0] && b[0] == c[0] {
        lemma_lex_transitive(a.drop_first(), b.drop_first(), c.drop_first());
    }
}

pub proof fn lemma_lex_total(a: Seq<int>, b: Seq<int>)
    ensures
        a =~= b || lex_lt(a, b) || lex_lt(b, a),
    decreases a.len(),
{
    if a.len() > 0 && b.len() > 0 && a[0] == b[0] {
        lemma_lex_total(a.drop_first(), b.drop_first());
        if a.drop_first() =~= b.drop_first() {
            assert forall|i: int| 0 <= i < a.len() implies a[i] == b[i] by {
                if i > 0 {
                    assert(a[i] == a.drop_first()[i - 1]);
                    assert(b[i] == b.drop_first()[i - 1]);
                }
            }
            assert(a =~= b);
        }
    }
}

/// Equal code sequences come from equal texts.
pub proof fn lemma_char_codes_injective(a: Seq<char>, b: Seq<char>)
    requires
        char_codes(a) == char_codes(b),
    ensures
        a == b,
{
    assert(a.len() == char_codes(a).len());
    assert(b.len() == char_codes(b).len());
    assert forall|i: int| 0 <= i < a.len() implies a[i] == b[i] by {
        assert(char_codes(a)[i] == a[i] as int);
        assert(char_codes(b)[i] == b[i] as int);
    }
    assert(a =~= b);
}

/// Equal code sequences come from equal byte strings.
pub proof fn lemma_byte_codes_injective(a: Seq<u8>, b: Seq<u8>)
    requires
        byte_codes(a) == byte_codes(b),
    ensures
        a == b,
{
    assert(a.len() == byte_codes(a).len());
    assert(b.len() == byte_codes(b).len());
    assert forall|i: int| 0 <= i < a.len() implies a[i] == b[i] by {
        assert(byte_codes(a)[i] == a[i] as int);
        assert(byte_codes(b)[i] == b[i] as int);
    }
    assert(a =~= b);
}

/// Two texts are equal, or one of them comes first.
pub proof fn lemma_text_total(a: Seq<char>, b: Seq<char>)
    ensures
        a == b || text_lt(a, b) || text_lt(b, a),
{
    lemma_lex_total(char_codes(a), char_codes(b));
    if char_codes(a) =~= char_codes(b) {
        lemma_char_codes_injective(a, b);
    }
}

/// Two byte strings are equal, or one of them comes first.
pub proof fn lemma_bytes_total(a: Seq<u8>, b: Seq<u8>)
    ensures
        a == b || bytes_lt(a, b) || bytes_lt(b, a),
{
    lemma_lex_total(byte_codes(a), byte_codes(b));
    if byte_codes(a) =~= byte_codes(b) {
        lemma_byte_codes_injective(a, b);
    }
}

/// No text comes before itself.
pub proof fn lemma_text_irreflexive(a: Seq<char>)
    ensures
        !text_lt(a, a),
{
    lemma_lex_irreflexive(char_codes(a));
}

/// If `a` comes before `b`, `b` does not come before `a`.
pub proof fn lemma_text_asymmetric(a: Seq<char>, b: Seq<char>)
    requires
        text_lt(a, b),
    ensures
        !text_lt(b, a),
{
    lemma_lex_asymmetric(char_codes(a), char_codes(b));
}

/// The order of texts is transitive.
pub proof fn lemma_text_transitive(a: Seq<char>, b: Seq<char>, c: Seq<char>)
    requires
        text_lt(a, b),
        text_lt(b, c),
    ensures
        text_lt(a, c),
{
    lemma_lex_transitive(char_codes(a), char_codes(b), char_codes(c));
}

/// No byte string comes before itself.
pub proof fn lemma_bytes_irreflexive(a: Seq<u8>)
    ensures
        !bytes_lt(a, a),
{
    lemma_lex_irreflexive(byte_codes(a));
}

/// The order of byte strings is transitive.
pub proof fn lemma_bytes_transitive(a: Seq<u8>, b: Seq<u8>, c: Seq<u8>)
    requires
        bytes_lt(a, b),
        bytes_lt(b, c),
    ensures
        bytes_lt(a, c),
{
    lemma_lex_transitive(byte_codes(a), byte_codes(b), byte_codes(c));
}

/// If `a` comes before `b`, `b` does not come before `a`.
pub proof fn lemma_bytes_asymmetric(a: Seq<u8>, b: Seq<u8>)
    requires
        bytes_lt(a, b),
    ensures
        !bytes_lt(b, a),
{
    lemma_lex_asymmetric(byte_codes(a), byte_codes(b));
}

proof fn lemma_lex_skip(a: Seq<int>, b: Seq<int>, i: int)
    requires
        0 <= i < a.len(),
        i < b.len(),
        a[i] == b[i],
    ensures
        lex_lt(a.skip(i), b.skip(i)) == lex_lt(a.skip(i + 1), b.skip(i + 1)),
{
    assert(a.skip(i).drop_first() =~= a.skip(i + 1));
    assert(b.skip(i).drop_first() =~= b.skip(i + 1));
}

/// The characters of a text, in order.
pub fn chars_of(s: &str) -> (v: Vec<char>)
    ensures
        v@ == s@,
{
    let mut v: Vec<char> = Vec::new();
    for c in it: s.chars()
        invariant
            v@ == it.seq().take(it.index() as int),
    {
        v.push(c);
    }
    v
}

/// Decides whether text `a` sorts strictly before text `b`.
pub fn text_less(a: &str, b: &str) -> (r: bool)
    ensures
        r == text_lt(a@, b@),
{
    let ca = chars_of(a);
    let cb = chars_of(b);
    let ghost x = char_codes(a@);
    let ghost y = char_codes(b@);
    let mut i: usize = 0;
    assert(x.skip(0) =~= x);
    assert(y.skip(0) =~= y);
    while i < ca.len() && i < cb.len() && ca[i] == cb[i]
        invariant
            ca@ == a@,
            cb@ == b@,
            x == char_codes(a@),
            y == char_codes(b@),
            i <= ca.len(),
            i <= cb.len(),
            lex_lt(x, y) == lex_lt(x.skip(i as int), y.skip(i as int)),
        decreases ca.len() - i,
    {
        proof {
            lemma_lex_skip(x, y, i as int);
        }
        i = i + 1;
    }
    if i == ca.len() {
        i < cb.len()
    } else if i == cb.len() {
        false
    } else {
        assert(x.skip(i as int)[0] == x[i as int]);
        assert(y.skip(i as int)[0] == y[i as int]);
        ca[i] < cb[i]
    }
}

/// Decides whether byte string `a` sorts strictly before byte string `b`.
pub fn bytes_less(a: &[u8], b: &[u8]) -> (r: bool)
    ensures
        r == bytes_lt(a@, b@),
{
    let ghost x = byte_codes(a@);
    let ghost y = byte_codes(b@);
    let mut i: usize = 0;
    assert(x.skip(0) =~= x);
    assert(y.skip(0) =~= y);
    while i < a.len() && i < b.len() && a[i] == b[i]
        invariant
            x == byte_codes(a@),
            y == byte_codes(b@),
            i <= a.len(),
            i <= b.len(),
            lex_lt(x, y) == lex_lt(x.skip(i as int), y.skip(i as int)),
        decreases a.len() - i,
    {
        proof {
            lemma_lex_skip(x, y, i as int);
        }
        i = i + 1;
    }
    if i == a.len() {
        i < b.len()
    } else if i == b.len() {
        false
    } else {
        assert(x.skip(i as int)[0] == x[i as int]);
        assert(y.skip(i as int)[0] == y[i as int]);
        a[i] < b[i]
    }
}

/// Decides whether two texts are equal.
pub fn text_eq(a: &str, b: &str) -> (r: bool)
    ensures
        r == (a@ == b@),
{
    let ca = chars_of(a);
    let cb = chars_of(b);
    if ca.len() != cb.len() {
        return false;
    }
    let mut i: usize = 0;
    while i < ca.len()
        invariant
            ca@ == a@,
            cb@ == b@,
            ca.len() == cb.len(),
            i <= ca.len(),
            forall|j: int| 0 <= j < i ==> ca@[j] == cb@[j],
        decreases ca.len() - i,
    {
        if ca[i] != cb[i] {
            return false;
        }
        i = i + 1;
    }
    assert(ca@ =~= cb@);
    true
}

/// Texts are ordered by their first characters in code-point order, then
/// by the rest; the empty text comes before every other, and nothing comes
/// before the empty text.
pub proof fn law_text_order_by_first_char(c: char, d: char, x: Seq<char>, y: Seq<char>)
    ensures
        text_lt(seq![c] + x, seq![d] + y) == ((c as int) < (d as int) || (c == d && text_lt(x, y))),
        text_lt(Seq::<char>::empty(), seq![d] + y),
        !text_lt(seq![c] + x, Seq::<char>::empty()),
{
    let a = seq![c] + x;
    let b = seq![d] + y;
    assert(char_codes(a).drop_first() =~= char_codes(x));
    assert(char_codes(b).drop_first() =~= char_codes(y));
    assert(char_codes(a)[0] == c as int);
    assert(char_codes(b)[0] == d as int);
    if c != d {
        assert((c as int) != (d as int));
    }
}

/// Byte strings are ordered by their first bytes, then by the rest; the
/// empty string comes before every other.
pub proof fn law_bytes_order_by_first_byte(c: u8, d: u8, x: Seq<u8>, y: Seq<u8>)
    ensures
        bytes_lt(seq![c] + x, seq![d] + y) == (c < d || (c == d && bytes_lt(x, y))),
        bytes_lt(Seq::<u8>::empty(), seq![d] + y),
        !bytes_lt(seq![c] + x, Seq::<u8>::empty()),
{
    let a = seq![c] + x;
    let b = seq![d] + y;
    assert(byte_codes(a).drop_first() =~= byte_codes(x));
    assert(byte_codes(b).drop_first() =~= byte_codes(y));
    assert(byte_codes(a)[0] == c as int);
    assert(byte_codes(b)[0] == d as int);
}

} // verus!
