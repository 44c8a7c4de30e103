//! Byte-level text utilities: case folding, the canonical form of catalog
//! names, lexicographic comparison, prefixes, and splitting on whitespace.
//!
//! All textual data in this library is ASCII bytes (`Vec<u8>` / `Seq<u8>`);
//! callers convert from and to `str` at the edge.
use vstd::prelude::*;

verus! {

/// Space, tab, line feed, carriage return.
pub open spec fn is_space(b: u8) -> bool {
    b == 32 || b == 9 || b == 10 || b == 13
}

/// ASCII upper-case letters fold to lower case; everything else is unchanged.
pub open spec fn lower_byte(b: u8) -> u8 {
    if 65 <= b && b <= 90 {
        (b + 32) as u8
    } else {
        b
    }
}

/// The canonical form of a name byte: `-` counts as `_`, letters fold to
/// lower case.
pub open spec fn canon_byte(b: u8) -> u8 {
    if b == 45 {
        95
    } else {
        lower_byte(b)
    }
}

pub open spec fn lower_bytes(s: Seq<u8>) -> Seq<u8> {
    s.map_values(|b: u8| lower_byte(b))
}

/// The canonical form of a catalog name, under which names are compared
/// case-insensitively and `-` and `_` are interchangeable.
pub open spec fn canon_bytes(s: Seq<u8>) -> Seq<u8> {
    s.map_values(|b: u8| canon_byte(b))
}

pub fn lower(v: &Vec<u8>) -> (r: Vec<u8>)
    ensures
        r@ == lower_bytes(v@),
{
    let mut r: Vec<u8> = Vec::new();
    let mut i: usize = 0;
    while i < v.len()
        invariant
            i <= v.len(),
            r@ == lower_bytes(v@.take(i as int)),
        decreases v.len() - i,
    {
        let b = v[i];
        if 65 <= b && b <= 90 {
            r.push(b + 32);
        } else {
            r.push(b);
        }
        i = i + 1;
        assert(r@ =~= lower_bytes(v@.take(i as int)));
    }
    assert(v@.take(v@.len() as int) =~= v@);
    r
}

pub fn canon(v: &Vec<u8>) -> (r: Vec<u8>)
    ensures
        r@ == canon_bytes(v@),
{
    let mut r: Vec<u8> = Vec::new();
    let mut i: usize = 0;
    while i < v.len()
        invariant
            i <= v.len(),
            r@ == canon_bytes(v@.take(i as int)),
        decreases v.len() - i,
    {
        let b = v[i];
        if b == 45 {
            r.push(95);
        } else if 65 <= b && b <= 90 {
            r.push(b + 32);
        } else {
            r.push(b);
        }
        i = i + 1;
        assert(r@ =~= canon_bytes(v@.take(i as int)));
    }
    assert(v@.take(v@.len() as int) =~= v@);
    r
}

pub fn bytes_eq(a: &Vec<u8>, b: &Vec<u8>) -> (r: bool)
    ensures
        r == (a@ == b@),
{
    if a.len() != b.len() {
        assert(a@ != b@);
        return false;
    }
    let mut i: usize = 0;
    while i < a.len()
        invariant
            i <= a.len(),
            a@.len() == b@.len(),
            forall|k: int| 0 <= k < i ==> a@[k] == b@[k],
        decreases a.len() - i,
    {
        if a[i] != b[i] {
            return false;
        }
        i = i + 1;
    }
    assert(a@ =~= b@);
    true
}

/// `pre` is a prefix of `s`.
pub open spec fn is_prefix(pre: Seq<u8>, s: Seq<u8>) -> bool {
    pre.len() <= s.len() && pre =~= s.take(pre.len() as int)
}

pub fn starts_with(s: &Vec<u8>, pre: &Vec<u8>) -> (r: bool)
    ensures
        r == is_prefix(pre@, s@),
{
    if pre.len() > s.len() {
        return false;
    }
    let mut i: usize = 0;
    while i < pre.len()
        invariant
            i <= pre.len(),
            pre@.len() <= s@.len(),
            forall|k: int| 0 <= k < i ==> pre@[k] == s@[k],
        decreases pre.len() - i,
    {
        if pre[i] != s[i] {
            assert(pre@[i as int] != s@.take(pre@.len() as int)[i as int]);
            return false;
        }
        i = i + 1;
    }
    assert(pre@ =~= s@.take(pre@.len() as int));
    true
}

/// Strict lexicographic order on byte strings, with the usual rule that a
/// proper prefix comes first.
pub open spec fn lex_lt(a: Seq<u8>, b: Seq<u8>) -> bool
    decreases a.len(),
{
    if b.len() == 0 {
        false
    } else if a.len() == 0 {
        true
    } else if a[0] < b[0] {
        true
    } else if a[0] > b[0] {
        false
    } else {
        lex_lt(a.drop_first(), b.drop_first())
    }
}

pub proof fn lemma_lex_lt_irreflexive(a: Seq<u8>, b: Seq<u8>)
    ensures
        lex_lt(a, b) ==> !lex_lt(b, a),
        !lex_lt(a, b) && !lex_lt(b, a) ==> a =~= b,
    decreases a.len(),
{
    if a.len() > 0 && b.len() > 0 && a[0] == b[0] {
        lemma_lex_lt_irreflexive(a.drop_first(), b.drop_first());
        if !lex_lt(a, b) && !lex_lt(b, a) {
            assert(a.drop_first() =~= b.drop_first());
            assert(a =~= seq![a[0]] + a.drop_first());
            assert(b =~= seq![b[0]] + b.drop_first());
        }
    }
}

pub proof fn lemma_lex_lt_transitive(a: Seq<u8>, b: Seq<u8>, c: Seq<u8>)
    requires
        lex_lt(a, b),
        lex_lt(b, c),
    ensures
        lex_lt(a, c),
    decreases a.len(),
{
    if a.len() > 0 && b.len() > 0 && c.len() > 0 && a[0] == b[0] && b[0] == c[0] {
        lemma_lex_lt_transitive(a.drop_first(), b.drop_first(), c.drop_first());
    }
}

/// If two strings agree on their first `i` bytes, their order is decided by
/// the remainders.
pub proof fn lemma_lex_lt_skip(a: Seq<u8>, b: Seq<u8>, i: int)
    requires
        0 <= i <= a.len(),
        i <= b.len(),
        a.take(i) =~= b.take(i),
    ensures
        lex_lt(a, b) == lex_lt(a.skip(i), b.skip(i)),
    decreases i,
{
    if i > 0 {
        assert(a.len() > 0 && b.len() > 0);
        assert(a.take(i)[0] == a[0] && b.take(i)[0] == b[0]);
        assert(a[0] == b[0]);
        assert(a.drop_first().take(i - 1) =~= a.take(i).drop_first());
        assert(b.drop_first().take(i - 1) =~= b.take(i).drop_first());
        lemma_lex_lt_skip(a.drop_first(), b.drop_first(), i - 1);
        assert(a.drop_first().skip(i - 1) =~= a.skip(i));
        assert(b.drop_first().skip(i - 1) =~= b.skip(i));
    } else {
        assert(a.skip(0) =~= a);
        assert(b.skip(0) =~= b);
    }
}

pub fn bytes_lt(a: &Vec<u8>, b: &Vec<u8>) -> (r: bool)
    ensures
        r == lex_lt(a@, b@),
{
    let mut i: usize = 0;
    loop
        invariant
            i <= a.len(),
            i <= b.len(),
            a@.take(i as int) =~= b@.take(i as int),
        decreases a.len() - i,
    {
        proof {
            lemma_lex_lt_skip(a@, b@, i as int);
        }
        if i == b.len() {
            assert(b@.skip(i as int).len() == 0);
            return false;
        }
        if i == a.len() {
            assert(a@.skip(i as int).len() == 0 && b@.skip(i as int).len() > 0);
            return true;
        }
        let x = a[i];
        let y = b[i];
        assert(a@.skip(i as int)[0] == x && b@.skip(i as int)[0] == y);
        if x < y {
            return true;
        }
        if x > y {
            return false;
        }
        i = i + 1;
        assert(a@.take(i as int) =~= b@.take(i as int));
    }
}

} // verus!

verus! {

/// A copy of `s[from..to]`.
pub fn copy_range(s: &Vec<u8>, from: usize, to: usize) -> (r: Vec<u8>)
    requires
        from <= to <= s@.len(),
    ensures
        r@ == s@.subrange(from as int, to as int),
{
    let mut r: Vec<u8> = Vec::new();
    let mut i: usize = from;
    while i < to
        invariant
            from <= i <= to <= s@.len(),
            r@ == s@.subrange(from as int, i as int),
        decreases to - i,
    {
        r.push(s[i]);
        i = i + 1;
        assert(r@ =~= s@.subrange(from as int, i as int));
    }
    r
}

/// A copy of the whole byte string.
pub fn copy_bytes(s: &Vec<u8>) -> (r: Vec<u8>)
    ensures
        r@ == s@,
{
    let n = s.len();
    let r = copy_range(s, 0, n);
    assert(s@.subrange(0, s@.len() as int) =~= s@);
    r
}

/// `s` with every zero byte removed.
pub open spec fn strip_nul(s: Seq<u8>) -> Seq<u8> {
    s.filter(|b: u8| b != 0)
}

pub fn remove_nul(s: &Vec<u8>) -> (r: Vec<u8>)
    ensures
        r@ == strip_nul(s@),
{
    let mut r: Vec<u8> = Vec::new();
    let mut i: usize = 0;
    proof {
        reveal(Seq::filter);
        assert(s@.take(0) =~= Seq::<u8>::empty());
    }
    while i < s.len()
        invariant
            i <= s.len(),
            r@ == strip_nul(s@.take(i as int)),
        decreases s.len() - i,
    {
        proof {
            reveal(Seq::filter);
            assert(s@.take(i as int + 1).drop_last() =~= s@.take(i as int));
            assert(s@.take(i as int + 1).last() == s@[i as int]);
        }
        if s[i] != 0 {
            r.push(s[i]);
        }
        i = i + 1;
    }
    assert(s@.take(s@.len() as int) =~= s@);
    r
}

/// Length of the maximal non-space prefix.
pub open spec fn word_len(s: Seq<u8>) -> nat
    decreases s.len(),
{
    if s.len() == 0 || is_space(s[0]) {
        0
    } else {
        1 + word_len(s.drop_first())
    }
}

pub proof fn lemma_word_len_le(s: Seq<u8>)
    ensures
        word_len(s) <= s.len(),
    decreases s.len(),
{
    if s.len() > 0 && !is_space(s[0]) {
        lemma_word_len_le(s.drop_first());
    }
}

/// The whitespace-separated words of `s`, in order.
pub open spec fn spec_words(s: Seq<u8>) -> Seq<Seq<u8>>
    decreases s.len(),
{
    if s.len() == 0 {
        Seq::empty()
    } else if is_space(s[0]) {
        spec_words(s.drop_first())
    } else {
        let n = word_len(s);
        if n <= s.len() {
            seq![s.take(n as int)] + spec_words(s.skip(n as int))
        } else {
            Seq::empty()
        }
    }
}

/// `word_len` counted from position `i` of `s`: the word runs to `j`.
proof fn lemma_word_len_at(s: Seq<u8>, i: int, j: int)
    requires
        0 <= i <= j <= s.len(),
        forall|k: int| i <= k < j ==> !is_space(s[k]),
        j == s.len() || is_space(s[j]),
    ensures
        word_len(s.skip(i)) == j - i,
    decreases j - i,
{
    if i == j {
        if i < s.len() {
            assert(s.skip(i)[0] == s[i]);
        }
    } else {
        assert(s.skip(i)[0] == s[i]);
        assert(!is_space(s.skip(i)[0]));
        assert(s.skip(i).drop_first() =~= s.skip(i + 1));
        lemma_word_len_at(s, i + 1, j);
    }
}

/// Splits on whitespace; returns the words in order.
pub fn split_words(s: &Vec<u8>) -> (r: Vec<Vec<u8>>)
    ensures
        r@.len() == spec_words(s@).len(),
        forall|k: int| 0 <= k < r@.len() ==> (#[trigger] r@[k])@ == spec_words(s@)[k],
{
    let ghost target = spec_words(s@);
    let mut out: Vec<Vec<u8>> = Vec::new();
    let mut i: usize = 0;
    proof {
        assert(s@.skip(0) =~= s@);
    }
    while i < s.len()
        invariant
            i <= s.len(),
            target == spec_words(s@),
            target =~= Seq::new(out@.len(), |k: int| out@[k]@) + spec_words(s@.skip(i as int)),
        decreases s.len() - i,
    {
        if is_space_byte(s[i]) {
            proof {
                assert(s@.skip(i as int)[0] == s@[i as int]);
                assert(s@.skip(i as int).drop_first() =~= s@.skip(i as int + 1));
            }
            i = i + 1;
        } else {
            let start = i;
            let mut j: usize = i;
            while j < s.len() && !is_space_byte(s[j])
                invariant
                    i <= j <= s.len(),
                    forall|k: int| i <= k < j ==> !is_space(s@[k]),
                decreases s.len() - j,
            {
                j = j + 1;
            }
            let word = copy_range(s, start, j);
            proof {
                lemma_word_len_at(s@, i as int, j as int);
                assert(s@.skip(i as int)[0] == s@[i as int]);
                let n = word_len(s@.skip(i as int));
                lemma_word_len_le(s@.skip(i as int));
                assert(spec_words(s@.skip(i as int)) == seq![s@.skip(i as int).take(n as int)]
                    + spec_words(s@.skip(i as int).skip(n as int)));
                assert(s@.skip(i as int).take(n as int) =~= s@.subrange(i as int, j as int));
                assert(s@.skip(i as int).skip(n as int) =~= s@.skip(j as int));
            }
            out.push(word);
            proof {
                assert(target =~= Seq::new(out@.len(), |k: int| out@[k]@) + spec_words(
                    s@.skip(j as int),
                ));
            }
            i = j;
        }
    }
    proof {
        assert(s@.skip(s@.len() as int) =~= Seq::<u8>::empty());
        assert(target =~= Seq::new(out@.len(), |k: int| out@[k]@));
    }
    out
}

/// Exec test for `is_space`.
pub fn is_space_byte(b: u8) -> (r: bool)
    ensures
        r == is_space(b),
{
    b == 32 || b == 9 || b == 10 || b == 13
}

} // verus!

verus! {

pub fn lower_byte_exec(b: u8) -> (r: u8)
    ensures
        r == lower_byte(b),
{
    if 65 <= b && b <= 90 {
        b + 32
    } else {
        b
    }
}

pub fn canon_byte_exec(b: u8) -> (r: u8)
    ensures
        r == canon_byte(b),
{
    if b == 45 {
        95
    } else {
        lower_byte_exec(b)
    }
}

} // verus!
