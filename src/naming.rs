//! Canonical names: how a requested name is disambiguated with a numeric suffix
//! so that every name in the shared state stays unique.

use vstd::prelude::*;
use vstd::set_lib::{lemma_int_range, lemma_len_subset, lemma_map_size, set_int_range};

verus! {

/// The decimal digit for `d < 10`.
pub open spec fn digit_char(d: nat) -> char {
    if d == 0 {
        '0'
    } else if d == 1 {
        '1'
    } else if d == 2 {
        '2'
    } else if d == 3 {
        '3'
    } else if d == 4 {
        '4'
    } else if d == 5 {
        '5'
    } else if d == 6 {
        '6'
    } else if d == 7 {
        '7'
    } else if d == 8 {
        '8'
    } else {
        '9'
    }
}

/// The decimal notation of `n`, without leading zeros.
pub open spec fn decimal(n: nat) -> Seq<char>
    decreases n,
{
    if n < 10 {
        seq![digit_char(n)]
    } else {
        decimal(n / 10).push(digit_char(n % 10))
    }
}

/// `base` followed by a dash and the decimal notation of `k`.
pub open spec fn suffixed_name(base: Seq<char>, k: nat) -> Seq<char> {
    base + seq!['-'] + decimal(k)
}

/// Some existing name begins with `base` (or is `base`).
pub open spec fn collides(names: Seq<Seq<char>>, base: Seq<char>) -> bool {
    exists|i: int| 0 <= i < names.len() && base.is_prefix_of(#[trigger] names[i])
}

/// `k` is the smallest suffix from 2 on whose suffixed name is not taken.
pub open spec fn is_first_free_suffix(names: Seq<Seq<char>>, base: Seq<char>, k: nat) -> bool {
    &&& k >= 2
    &&& !names.contains(suffixed_name(base, k))
    &&& forall|j: nat| 2 <= j < k ==> names.contains(#[trigger] suffixed_name(base, j))
}

/// The name that a request for `base` gets when `names` are taken: `base` itself
/// when it collides with no name, else `base-k` for the smallest free `k` from 2 on.
pub open spec fn canonical_name(names: Seq<Seq<char>>, base: Seq<char>) -> Seq<char> {
    if !collides(names, base) {
        base
    } else {
        suffixed_name(base, choose|k: nat| is_first_free_suffix(names, base, k))
    }
}

proof fn lemma_digit_injective(a: nat, b: nat)
    requires
        a < 10,
        b < 10,
        digit_char(a) == digit_char(b),
    ensures
        a == b,
{
}

proof fn lemma_decimal_nonempty(n: nat)
    ensures
        decimal(n).len() >= 1,
        n >= 10 ==> decimal(n).len() >= 2,
    decreases n,
{
    if n >= 10 {
        lemma_decimal_nonempty(n / 10);
    }
}

/// Different numbers have different decimal notations.
pub proof fn lemma_decimal_injective(a: nat, b: nat)
    requires
        decimal(a) == decimal(b),
    ensures
        a == b,
    decreases a,
{
    lemma_decimal_nonempty(a);
    lemma_decimal_nonempty(b);
    if a < 10 && b < 10 {
        assert(decimal(a)[0] == digit_char(a));
        assert(decimal(b)[0] == digit_char(b));
        lemma_digit_injective(a, b);
    } else if a >= 10 && b >= 10 {
        let da = decimal(a / 10);
        let db = decimal(b / 10);
        assert(decimal(a).drop_last() == da);
        assert(decimal(b).drop_last() == db);
        assert(decimal(a).last() == digit_char(a % 10));
        assert(decimal(b).last() == digit_char(b % 10));
        lemma_digit_injective(a % 10, b % 10);
        lemma_decimal_injective(a / 10, b / 10);
    } else {
        assert(decimal(a).len() != decimal(b).len());
    }
}

/// Different suffixes give different suffixed names.
pub proof fn lemma_suffixed_injective(base: Seq<char>, a: nat, b: nat)
    requires
        suffixed_name(base, a) == suffixed_name(base, b),
    ensures
        a == b,
{
    let pa = base + seq!['-'];
    assert(suffixed_name(base, a).subrange(pa.len() as int, suffixed_name(base, a).len() as int)
        =~= decimal(a));
    assert(suffixed_name(base, b).subrange(pa.len() as int, suffixed_name(base, b).len() as int)
        =~= decimal(b));
    lemma_decimal_injective(a, b);
}

/// Among the suffixes 2 to `names.len() + 2`, at least one is free.
pub proof fn lemma_some_suffix_free(names: Seq<Seq<char>>, base: Seq<char>)
    ensures
        exists|k: nat| 2 <= k <= names.len() + 2 && !names.contains(#[trigger] suffixed_name(base, k)),
{
    if forall|k: nat| 2 <= k <= names.len() + 2 ==> names.contains(#[trigger] suffixed_name(base, k)) {
        let lo: int = 2;
        let hi: int = names.len() as int + 3;
        let f = |k: int| suffixed_name(base, k as nat);
        let range = set_int_range(lo, hi);
        lemma_int_range(lo, hi);
        assert forall|x: int, y: int| range.contains(x) && range.contains(y) && #[trigger] f(x) == #[trigger] f(y)
            implies x == y by {
            lemma_suffixed_injective(base, x as nat, y as nat);
        }
        let image = range.map(f);
        lemma_map_size(range, image, f);
        assert forall|s: Seq<char>| image.contains(s) implies names.to_set().contains(s) by {
            let x = choose|x: int| range.contains(x) && f(x) == s;
            assert(names.contains(suffixed_name(base, x as nat)));
        }
        names.lemma_cardinality_of_set();
        lemma_len_subset(image, names.to_set());
    }
}

/// The smallest free suffix is unique.
pub proof fn lemma_first_free_suffix_unique(names: Seq<Seq<char>>, base: Seq<char>, k: nat)
    requires
        is_first_free_suffix(names, base, k),
    ensures
        (choose|j: nat| is_first_free_suffix(names, base, j)) == k,
{
    let j = choose|j: nat| is_first_free_suffix(names, base, j);
    assert(is_first_free_suffix(names, base, j));
    if j < k {
        assert(names.contains(suffixed_name(base, j)));
    } else if k < j {
        assert(names.contains(suffixed_name(base, k)));
    }
}

/// The canonical name is never one of the names already taken.
pub proof fn lemma_canonical_name_is_new(names: Seq<Seq<char>>, base: Seq<char>)
    ensures
        !names.contains(canonical_name(names, base)),
{
    if !collides(names, base) {
        if names.contains(base) {
            let i = choose|i: int| 0 <= i < names.len() && names[i] == base;
            assert(base.is_prefix_of(names[i]));
        }
    } else {
        lemma_some_suffix_free(names, base);
        let k0 = choose|k: nat| 2 <= k <= names.len() + 2 && !names.contains(#[trigger] suffixed_name(base, k));
        lemma_first_free_exists(names, base, k0);
        let k = choose|k: nat| is_first_free_suffix(names, base, k);
        assert(is_first_free_suffix(names, base, k));
    }
}

/// A free suffix at or above 2 means some smallest free suffix exists.
pub proof fn lemma_first_free_exists(names: Seq<Seq<char>>, base: Seq<char>, k0: nat)
    requires
        k0 >= 2,
        !names.contains(suffixed_name(base, k0)),
    ensures
        exists|k: nat| is_first_free_suffix(names, base, k),
    decreases k0,
{
    if forall|j: nat| 2 <= j < k0 ==> names.contains(#[trigger] suffixed_name(base, j)) {
        assert(is_first_free_suffix(names, base, k0));
    } else {
        let j = choose|j: nat| 2 <= j < k0 && !names.contains(#[trigger] suffixed_name(base, j));
        lemma_first_free_exists(names, base, j);
    }
}

/// Whether `p` is a prefix of `s`.
pub fn starts_with(s: &str, p: &str) -> (r: bool)
    ensures
        r == p@.is_prefix_of(s@),
{
    let sl = s.unicode_len();
    let pl = p.unicode_len();
    if pl > sl {
        return false;
    }
    let mut i: usize = 0;
    while i < pl
        invariant
            pl == p@.len(),
            sl == s@.len(),
            pl <= sl,
            i <= pl,
            forall|j: int| 0 <= j < i ==> p@[j] == s@[j],
        decreases pl - i,
    {
        if p.get_char(i) != s.get_char(i) {
            return false;
        }
        i = i + 1;
    }
    true
}

fn digit_str(d: u128) -> (r: &'static str)
    requires
        d < 10,
    ensures
        r@ == seq![digit_char(d as nat)],
{
    proof {
        reveal_strlit("0");
        reveal_strlit("1");
        reveal_strlit("2");
        reveal_strlit("3");
        reveal_strlit("4");
        reveal_strlit("5");
        reveal_strlit("6");
        reveal_strlit("7");
        reveal_strlit("8");
        reveal_strlit("9");
    }
    if d == 0 {
        "0"
    } else if d == 1 {
        "1"
    } else if d == 2 {
        "2"
    } else if d == 3 {
        "3"
    } else if d == 4 {
        "4"
    } else if d == 5 {
        "5"
    } else if d == 6 {
        "6"
    } else if d == 7 {
        "7"
    } else if d == 8 {
        "8"
    } else {
        "9"
    }
}

/// Appends the decimal notation of `n` to `s`.
fn push_decimal(s: &mut String, n: u128)
    ensures
        final(s)@ == old(s)@ + decimal(n as nat),
    decreases n,
{
    if n >= 10 {
        push_decimal(s, n / 10);
    }
    s.append(digit_str(n % 10));
    assert(final(s)@ =~= old(s)@ + decimal(n as nat)) by {
        if n >= 10 {
            assert(decimal(n as nat) == decimal((n / 10) as nat).push(digit_char((n % 10) as nat)));
        }
    }
}

/// The name `base-k`.
pub fn suffixed(base: &str, k: u128) -> (r: String)
    ensures
        r@ == suffixed_name(base@, k as nat),
{
    let mut s = String::from_str(base);
    proof {
        reveal_strlit("-");
    }
    s.append("-");
    push_decimal(&mut s, k);
    assert(s@ =~= suffixed_name(base@, k as nat));
    s
}

} // verus!
