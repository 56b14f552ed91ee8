//! Lexicographic order on sequences, the order of `str` and of tuples of
//! strings, with the facts that make it a strict total order.
use vstd::prelude::*;

verus! {

/// Strict lexicographic order on sequences, built on a strict order `lt` of
/// the elements: the first differing element decides, and a proper prefix
/// comes first.
pub open spec fn lex_lt<A>(a: Seq<A>, b: Seq<A>, lt: spec_fn(A, A) -> bool) -> bool
    decreases a.len(),
{
    if a.len() == 0 {
        b.len() > 0
    } else if b.len() == 0 {
        false
    } else if lt(a[0], b[0]) {
        true
    } else if a[0] == b[0] {
        lex_lt(a.drop_first(), b.drop_first(), lt)
    } else {
        false
    }
}

/// `lt` is irreflexive, transitive and total: a strict total order.
pub open spec fn is_strict_total<A>(lt: spec_fn(A, A) -> bool) -> bool {
    &&& forall|x: A| !#[trigger] lt(x, x)
    &&& forall|x: A, y: A, z: A| #[trigger] lt(x, y) && #[trigger] lt(y, z) ==> lt(x, z)
    &&& forall|x: A, y: A| #![trigger lt(x, y)] lt(x, y) || x == y || lt(y, x)
}

/// Order of characters by their code point.
pub open spec fn char_order() -> spec_fn(char, char) -> bool {
    |x: char, y: char| (x as int) < (y as int)
}

/// Order of strings: lexicographic by character, which for UTF-8 text is the
/// byte order that `str` uses.
pub open spec fn str_lt(a: Seq<char>, b: Seq<char>) -> bool {
    lex_lt(a, b, char_order())
}

/// The string order as a function value.
pub open spec fn str_order() -> spec_fn(Seq<char>, Seq<char>) -> bool {
    |x: Seq<char>, y: Seq<char>| str_lt(x, y)
}

/// Order of tuples of strings: the first component that differs decides.
pub open spec fn keys_lt(a: Seq<Seq<char>>, b: Seq<Seq<char>>) -> bool {
    lex_lt(a, b, str_order())
}

proof fn lemma_lex_irreflexive<A>(a: Seq<A>, lt: spec_fn(A, A) -> bool)
    requires
        is_strict_total(lt),
    ensures
        !lex_lt(a, a, lt),
    decreases a.len(),
{
    if a.len() > 0 {
        assert(!lt(a[0], a[0]));
        lemma_lex_irreflexive(a.drop_first(), lt);
    }
}

proof fn lemma_lex_transitive<A>(a: Seq<A>, b: Seq<A>, c: Seq<A>, lt: spec_fn(A, A) -> bool)
    requires
        is_strict_total(lt),
        lex_lt(a, b, lt),
        lex_lt(b, c, lt),
    ensures
        lex_lt(a, c, lt),
    decreases a.len(),
{
    if a.len() > 0 {
        assert(b.len() > 0);
        assert(c.len() > 0);
        if lt(a[0], b[0]) {
            if lt(b[0], c[0]) {
                assert(lt(a[0], c[0]));
            } else {
                assert(b[0] == c[0]);
            }
        } else {
            assert(a[0] == b[0]);
            if !lt(b[0], c[0]) {
                assert(b[0] == c[0]);
                lemma_lex_transitive(a.drop_first(), b.drop_first(), c.drop_first(), lt);
            }
        }
    }
}

proof fn lemma_lex_total<A>(a: Seq<A>, b: Seq<A>, lt: spec_fn(A, A) -> bool)
    requires
        is_strict_total(lt),
    ensures
        lex_lt(a, b, lt) || a == b || lex_lt(b, a, lt),
    decreases a.len(),
{
    if a.len() == 0 {
        if b.len() == 0 {
            assert(a =~= b);
        }
    } else if b.len() > 0 {
        if !lt(a[0], b[0]) && !lt(b[0], a[0]) {
            assert(a[0] == b[0]);
            lemma_lex_total(a.drop_first(), b.drop_first(), lt);
            if a.drop_first() == b.drop_first() {
                assert(a =~= seq![a[0]] + a.drop_first());
                assert(b =~= seq![b[0]] + b.drop_first());
            }
        }
    }
}

/// The lexicographic order over a strict total order is a strict total order.
pub proof fn lemma_lex_strict_total<A>(lt: spec_fn(A, A) -> bool)
    requires
        is_strict_total(lt),
    ensures
        is_strict_total(|a: Seq<A>, b: Seq<A>| lex_lt(a, b, lt)),
{
    let l = |a: Seq<A>, b: Seq<A>| lex_lt(a, b, lt);
    assert forall|x: Seq<A>| !#[trigger] l(x, x) by {
        lemma_lex_irreflexive(x, lt);
    }
    assert forall|x: Seq<A>, y: Seq<A>, z: Seq<A>| #[trigger] l(x, y) && #[trigger] l(y, z) implies l(
        x,
        z,
    ) by {
        lemma_lex_transitive(x, y, z, lt);
    }
    assert forall|x: Seq<A>, y: Seq<A>| #![trigger l(x, y)] l(x, y) || x == y || l(y, x) by {
        lemma_lex_total(x, y, lt);
    }
}

/// The string order and the order of string tuples are strict total orders.
pub proof fn lemma_orders_strict_total()
    ensures
        is_strict_total(char_order()),
        is_strict_total(str_order()),
        is_strict_total(|a: Seq<Seq<char>>, b: Seq<Seq<char>>| keys_lt(a, b)),
{
    assert forall|x: char, y: char| #![trigger char_order()(x, y)]
        char_order()(x, y) || x == y || char_order()(y, x) by {
        if (x as int) == (y as int) {
            assert(x == y);
        }
    }
    lemma_lex_strict_total(char_order());
    assert(str_order() =~= (|a: Seq<char>, b: Seq<char>| lex_lt(a, b, char_order())));
    lemma_lex_strict_total(str_order());
    assert((|a: Seq<Seq<char>>, b: Seq<Seq<char>>| keys_lt(a, b)) =~= (|a: Seq<Seq<char>>, b: Seq<Seq<char>>| lex_lt(a, b, str_order())));
}

/// The order of string tuples is irreflexive, transitive and total.
pub proof fn lemma_keys_order()
    ensures
        forall|a: Seq<Seq<char>>| !#[trigger] keys_lt(a, a),
        forall|a: Seq<Seq<char>>, b: Seq<Seq<char>>, c: Seq<Seq<char>>|
            #[trigger] keys_lt(a, b) && #[trigger] keys_lt(b, c) ==> keys_lt(a, c),
        forall|a: Seq<Seq<char>>, b: Seq<Seq<char>>|
            #![trigger keys_lt(a, b)]
            keys_lt(a, b) || a == b || keys_lt(b, a),
{
    lemma_orders_strict_total();
    let l = |a: Seq<Seq<char>>, b: Seq<Seq<char>>| keys_lt(a, b);
    assert forall|a: Seq<Seq<char>>| !#[trigger] keys_lt(a, a) by {
        assert(!l(a, a));
    }
    assert forall|a: Seq<Seq<char>>, b: Seq<Seq<char>>, c: Seq<Seq<char>>|
        #[trigger] keys_lt(a, b) && #[trigger] keys_lt(b, c) implies keys_lt(a, c) by {
        assert(l(a, b) && l(b, c));
    }
    assert forall|a: Seq<Seq<char>>, b: Seq<Seq<char>>|
        #![trigger keys_lt(a, b)]
        keys_lt(a, b) || a == b || keys_lt(b, a) by {
        assert(l(a, b) || a == b || l(b, a));
    }
}

/// Whether `a` comes strictly before `b` in the order of `str`.
pub fn str_precedes(a: &Vec<char>, b: &Vec<char>) -> (r: bool)
    ensures
        r == str_lt(a@, b@),
{
    let mut i: usize = 0;
    assert(a@.skip(0) =~= a@);
    assert(b@.skip(0) =~= b@);
    while i < a.len() && i < b.len()
        invariant
            i <= a.len(),
            i <= b.len(),
            str_lt(a@, b@) == str_lt(a@.skip(i as int), b@.skip(i as int)),
        decreases a.len() - i,
    {
        if a[i] < b[i] {
            return true;
        }
        if a[i] != b[i] {
            return false;
        }
        assert(a@.skip(i as int).drop_first() =~= a@.skip(i + 1));
        assert(b@.skip(i as int).drop_first() =~= b@.skip(i + 1));
        i = i + 1;
    }
    i < b.len()
}

} // verus!
