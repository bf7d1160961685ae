//! Small operations on strings and optional strings, with their meaning over
//! character sequences.
use vstd::prelude::*;

verus! {

/// The characters of an optional string.
pub open spec fn opt_str(o: Option<String>) -> Option<Seq<char>> {
    match o {
        Some(s) => Some(s@),
        None => None,
    }
}

/// The characters of every string in a list.
pub open spec fn strs(v: Seq<String>) -> Seq<Seq<char>> {
    v.map_values(|s: String| s@)
}

/// The protocol's empty-means-absent reading of a string field.
pub open spec fn spec_string_to_option(value: Seq<char>) -> Option<Seq<char>> {
    if value.len() == 0 {
        None
    } else {
        Some(value)
    }
}

/// An absent string read as the empty one.
pub open spec fn spec_unwrap_or_empty(o: Option<Seq<char>>) -> Seq<char> {
    match o {
        Some(s) => s,
        None => Seq::empty(),
    }
}

/// A copy of an optional string.
pub fn clone_opt_string(o: &Option<String>) -> (r: Option<String>)
    ensures
        r == *o,
{
    match o {
        Some(s) => Some(s.clone()),
        None => None,
    }
}

/// A copy of a list of strings.
pub fn clone_strings(v: &Vec<String>) -> (r: Vec<String>)
    ensures
        r@ == v@,
{
    let mut out: Vec<String> = Vec::new();
    let mut i: usize = 0;
    while i < v.len()
        invariant
            i <= v.len(),
            out@ == v@.take(i as int),
        decreases v.len() - i,
    {
        out.push(v[i].clone());
        i = i + 1;
        proof {
            assert(out@ =~= v@.take(i as int));
        }
    }
    proof {
        assert(v@.take(v.len() as int) =~= v@);
    }
    out
}

/// Whether two optional strings hold the same text.
pub fn opt_string_eq(a: &Option<String>, b: &Option<String>) -> (r: bool)
    ensures
        r == (opt_str(*a) == opt_str(*b)),
{
    match a {
        Some(x) => match b {
            Some(y) => {
                let same = x.eq(y);
                same
            },
            None => false,
        },
        None => b.is_none(),
    }
}

/// An optional string, with the empty string for absent.
pub fn unwrap_or_empty(o: &Option<String>) -> (r: String)
    ensures
        r@ == spec_unwrap_or_empty(opt_str(*o)),
        o matches Some(s) ==> r == s,
{
    match o {
        Some(s) => s.clone(),
        None => String::new(),
    }
}

/// Strict order on texts: the first differing character decides, by code
/// point, and a proper prefix comes first. This is how `str`'s `Ord`
/// compares (byte order of UTF-8 follows code point order).
pub open spec fn text_lt(a: Seq<char>, b: Seq<char>) -> bool
    decreases a.len(),
{
    if a.len() == 0 {
        b.len() > 0
    } else if b.len() == 0 {
        false
    } else if a[0] != b[0] {
        (a[0] as int) < (b[0] as int)
    } else {
        text_lt(a.drop_first(), b.drop_first())
    }
}

/// No text comes before itself.
pub proof fn lemma_text_lt_irreflexive(a: Seq<char>)
    ensures
        !text_lt(a, a),
    decreases a.len(),
{
    if a.len() > 0 {
        lemma_text_lt_irreflexive(a.drop_first());
    }
}

/// Of two different texts, one comes first, and never both.
pub proof fn lemma_text_lt_total(a: Seq<char>, b: Seq<char>)
    ensures
        a != b ==> (text_lt(a, b) || text_lt(b, a)),
        !(text_lt(a, b) && text_lt(b, a)),
    decreases a.len(),
{
    if a.len() > 0 && b.len() > 0 {
        if a[0] == b[0] {
            lemma_text_lt_total(a.drop_first(), b.drop_first());
            if a.drop_first() == b.drop_first() {
                assert(a =~= seq![a[0]] + a.drop_first());
                assert(b =~= seq![b[0]] + b.drop_first());
            }
        }
    } else if a.len() == 0 && b.len() == 0 {
        assert(a =~= b);
    }
}

/// The order on texts is transitive.
pub proof fn lemma_text_lt_transitive(a: Seq<char>, b: Seq<char>, c: Seq<char>)
    requires
        text_lt(a, b),
        text_lt(b, c),
    ensures
        text_lt(a, c),
    decreases a.len(),
{
    if a.len() > 0 && b.len() > 0 && c.len() > 0 {
        if a[0] == b[0] && b[0] == c[0] {
            lemma_text_lt_transitive(a.drop_first(), b.drop_first(), c.drop_first());
        }
    }
}

/// Whether `a` comes strictly before `b` in text order.
pub fn text_less(a: &str, b: &str) -> (r: bool)
    ensures
        r == text_lt(a@, b@),
{
    let la = a.unicode_len();
    let lb = b.unicode_len();
    let mut i: usize = 0;
    proof {
        assert(a@.skip(0) =~= a@);
        assert(b@.skip(0) =~= b@);
    }
    while i < la && i < lb
        invariant
            la == a@.len(),
            lb == b@.len(),
            i <= la,
            i <= lb,
            text_lt(a@, b@) == text_lt(a@.skip(i as int), b@.skip(i as int)),
        decreases la - i,
    {
        let ca = a.get_char(i);
        let cb = b.get_char(i);
        proof {
            assert(a@.skip(i as int)[0] == ca);
            assert(b@.skip(i as int)[0] == cb);
        }
        if ca != cb {
            return (ca as u32) < (cb as u32);
        }
        proof {
            assert(a@.skip(i as int).drop_first() =~= a@.skip(i + 1));
            assert(b@.skip(i as int).drop_first() =~= b@.skip(i + 1));
        }
        i = i + 1;
    }
    la < lb
}

/// Whether two texts are equal.
pub fn same_text(a: &str, b: &str) -> (r: bool)
    ensures
        r == (a@ == b@),
{
    let lt = text_less(a, b);
    let gt = text_less(b, a);
    proof {
        lemma_text_lt_total(a@, b@);
        if a@ == b@ {
            lemma_text_lt_irreflexive(a@);
        }
    }
    !lt && !gt
}

/// Texts in strictly increasing text order.
pub open spec fn sorted_texts(s: Seq<Seq<char>>) -> bool {
    forall|i: int, j: int| 0 <= i < j < s.len() ==> text_lt(#[trigger] s[i], #[trigger] s[j])
}

/// Adds `x` to a list of texts kept in strictly increasing order, unless it
/// is there already.
pub fn insert_sorted_text(ids: &mut Vec<String>, x: String)
    requires
        sorted_texts(strs(old(ids)@)),
    ensures
        sorted_texts(strs(final(ids)@)),
        forall|t: Seq<char>|
            strs(final(ids)@).contains(t) <==> (strs(old(ids)@).contains(t) || t == x@),
{
    let ghost old_ids = strs(ids@);
    let mut p: usize = 0;
    while p < ids.len() && text_less(ids[p].as_str(), x.as_str())
        invariant
            p <= ids@.len(),
            old_ids == strs(ids@),
            forall|i: int| 0 <= i < p ==> text_lt(#[trigger] old_ids[i], x@),
        decreases ids@.len() - p,
    {
        p = p + 1;
    }
    if p < ids.len() && ids[p] == x {
        proof {
            assert(old_ids[p as int] == x@);
        }
        return;
    }
    proof {
        if p < ids@.len() {
            assert(!text_lt(old_ids[p as int], x@));
            lemma_text_lt_total(old_ids[p as int], x@);
        }
    }
    ids.insert(p, x);
    proof {
        let new_ids = strs(ids@);
        assert(new_ids =~= old_ids.insert(p as int, x@));
        assert forall|i: int, j: int| 0 <= i < j < new_ids.len() implies text_lt(
            #[trigger] new_ids[i],
            #[trigger] new_ids[j],
        ) by {
            if j < p {
                assert(text_lt(old_ids[i], old_ids[j]));
            } else if j == p {
                assert(text_lt(old_ids[i], x@));
            } else if i < p {
                assert(text_lt(old_ids[i], old_ids[j - 1]));
            } else if i == p {
                if j - 1 > p {
                    assert(text_lt(old_ids[p as int], old_ids[j - 1]));
                    lemma_text_lt_transitive(x@, old_ids[p as int], old_ids[j - 1]);
                }
            } else {
                assert(text_lt(old_ids[i - 1], old_ids[j - 1]));
            }
        }
        assert forall|t: Seq<char>| new_ids.contains(t) <==> (old_ids.contains(t) || t == x@) by {
            if new_ids.contains(t) {
                let k = choose|k: int| 0 <= k < new_ids.len() && new_ids[k] == t;
                if k < p {
                    assert(old_ids[k] == t);
                } else if k > p {
                    assert(old_ids[k - 1] == t);
                }
            }
            if old_ids.contains(t) {
                let k = choose|k: int| 0 <= k < old_ids.len() && old_ids[k] == t;
                if k < p {
                    assert(new_ids[k] == t);
                } else {
                    assert(new_ids[k + 1] == t);
                }
            }
            if t == x@ {
                assert(new_ids[p as int] == t);
            }
        }
    }
}

/// The decimal digit character for `d`.
pub open spec fn digit_char(d: nat) -> char {
    if d == 0 {
        '0'
    } else if d == 1 {
        '1'
    } else if d == 2 {
        '2'
    } else if d == 3 {
        '3'
    } else if d == 4 {
        '4'
    } else if d == 5 {
        '5'
    } else if d == 6 {
        '6'
    } else if d == 7 {
        '7'
    } else if d == 8 {
        '8'
    } else {
        '9'
    }
}

/// The decimal digits of `n`, without leading zeros (`"0"` for zero).
pub open spec fn decimal_digits(n: nat) -> Seq<char>
    decreases n,
{
    if n < 10 {
        seq![digit_char(n)]
    } else {
        decimal_digits(n / 10).push(digit_char(n % 10))
    }
}

/// The decimal text of `n`, as `i32::to_string` writes it.
pub open spec fn decimal_text(n: int) -> Seq<char> {
    if n < 0 {
        seq!['-'] + decimal_digits((-n) as nat)
    } else {
        decimal_digits(n as nat)
    }
}

fn digit_string(d: u64) -> (s: String)
    requires
        d < 10,
    ensures
        s@ == seq![digit_char(d as nat)],
{
    let lit = if d == 0 {
        "0"
    } else if d == 1 {
        "1"
    } else if d == 2 {
        "2"
    } else if d == 3 {
        "3"
    } else if d == 4 {
        "4"
    } else if d == 5 {
        "5"
    } else if d == 6 {
        "6"
    } else if d == 7 {
        "7"
    } else if d == 8 {
        "8"
    } else {
        "9"
    };
    proof {
        reveal_strlit("0");
        reveal_strlit("1");
        reveal_strlit("2");
        reveal_strlit("3");
        reveal_strlit("4");
        reveal_strlit("5");
        reveal_strlit("6");
        reveal_strlit("7");
        reveal_strlit("8");
        reveal_strlit("9");
    }
    let s = String::from_str(lit);
    proof {
        assert(s@ =~= seq![digit_char(d as nat)]);
    }
    s
}

fn decimal_digits_exec(n: u64) -> (s: String)
    ensures
        s@ == decimal_digits(n as nat),
    decreases n,
{
    if n < 10 {
        digit_string(n)
    } else {
        let mut s = decimal_digits_exec(n / 10);
        let d = digit_string(n % 10);
        s.append(d.as_str());
        proof {
            assert(s@ =~= decimal_digits(n as nat));
        }
        s
    }
}

/// `i32::to_string`: the decimal text of `n`.
pub fn i32_to_decimal(n: i32) -> (s: String)
    ensures
        s@ == decimal_text(n as int),
{
    if n < 0 {
        let mag: u64 = (-(n as i64)) as u64;
        let mut s = String::from_str("-");
        let digits = decimal_digits_exec(mag);
        s.append(digits.as_str());
        proof {
            reveal_strlit("-");
            assert(s@ =~= decimal_text(n as int));
        }
        s
    } else {
        decimal_digits_exec(n as u64)
    }
}

} // verus!
