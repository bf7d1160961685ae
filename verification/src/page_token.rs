//! Offset pagination with opaque page tokens.
//!
//! A page token is the standard base64 text of the 8 big-endian bytes of the
//! offset at which the next page starts. A missing token, one that does not
//! decode, and one that decodes to a length other than 8 all mean offset 0.
use base64::engine::general_purpose;
use base64::Engine as _;
use vstd::arithmetic::div_mod::{lemma_fundamental_div_mod, lemma_mod_breakdown};
use vstd::prelude::*;

verus! {

/// Rows per page when the caller asks for none or for zero.
pub const DEFAULT_PAGE_SIZE: u64 = 100;

/// `256` to the power `k`.
pub open spec fn pow256(k: nat) -> nat
    decreases k,
{
    if k == 0 {
        1
    } else {
        256 * pow256((k - 1) as nat)
    }
}

/// The number whose big-endian base-256 digits are `s`.
pub open spec fn be_value(s: Seq<u8>) -> nat
    decreases s.len(),
{
    if s.len() == 0 {
        0
    } else {
        be_value(s.drop_last()) * 256 + s.last() as nat
    }
}

/// The `k` low base-256 digits of `n`, most significant first.
pub open spec fn be_digits(n: nat, k: nat) -> Seq<u8>
    decreases k,
{
    if k == 0 {
        Seq::empty()
    } else {
        be_digits(n / 256, (k - 1) as nat).push((n % 256) as u8)
    }
}

/// The 8 big-endian bytes of `n`, as `u64::to_be_bytes` gives them.
pub open spec fn u64_be_bytes(n: u64) -> Seq<u8> {
    be_digits(n as nat, 8)
}

/// What the standard base64 engine encodes `bytes` to.
pub uninterp spec fn base64_standard_encoding(bytes: Seq<u8>) -> Seq<char>;

/// What the standard base64 engine decodes `text` to (`None` when it rejects it).
pub uninterp spec fn base64_standard_decoding(text: Seq<char>) -> Option<Seq<u8>>;

/// `base64::engine::general_purpose::STANDARD.encode`.
///
/// Trusted: the text is the engine's encoding of `bytes`, four characters for
/// each started group of three bytes (the standard engine pads), and the same
/// engine decodes that text back to `bytes` (the engine pads canonically and
/// decodes what it encodes).
#[verifier::external_body]
fn base64_encode(bytes: &[u8]) -> (text: String)
    ensures
        text@ == base64_standard_encoding(bytes@),
        text@.len() == 4 * ((bytes@.len() + 2) / 3),
        base64_standard_decoding(text@) == Some(bytes@),
{
    general_purpose::STANDARD.encode(bytes)
}

/// `base64::engine::general_purpose::STANDARD.decode`, with its error mapped to `None`.
///
/// Trusted: the result is the engine's decoding of `text`.
#[verifier::external_body]
fn base64_decode(text: &str) -> (bytes: Option<Vec<u8>>)
    ensures
        match bytes {
            Some(b) => base64_standard_decoding(text@) == Some(b@),
            None => base64_standard_decoding(text@) is None,
        },
{
    general_purpose::STANDARD.decode(text).ok()
}

/// The offset that a page token stands for.
pub open spec fn token_offset(token: Option<Seq<char>>) -> u64 {
    match token {
        None => 0,
        Some(t) => match base64_standard_decoding(t) {
            Some(b) => if b.len() == 8 {
                be_value(b) as u64
            } else {
                0
            },
            None => 0,
        },
    }
}

/// The rows per page for a requested page size.
pub open spec fn spec_page_limit(page_size: Option<u32>) -> u64 {
    match page_size {
        Some(sz) => if sz == 0 {
            DEFAULT_PAGE_SIZE
        } else {
            sz as u64
        },
        None => DEFAULT_PAGE_SIZE,
    }
}

/// A number written with `k` base-256 digits is below `256` to the `k`.
pub proof fn lemma_be_value_bound(s: Seq<u8>)
    ensures
        be_value(s) < pow256(s.len()),
    decreases s.len(),
{
    if s.len() > 0 {
        lemma_be_value_bound(s.drop_last());
        let a = be_value(s.drop_last());
        let p = pow256(s.drop_last().len());
        let b = s.last() as nat;
        assert(a * 256 + b < 256 * p) by (nonlinear_arith)
            requires
                a < p,
                b < 256,
        ;
    }
}

/// Powers of 256 are positive.
pub proof fn lemma_pow256_positive(k: nat)
    ensures
        pow256(k) > 0,
    decreases k,
{
    if k > 0 {
        lemma_pow256_positive((k - 1) as nat);
    }
}

/// Powers of 256 grow with the exponent.
pub proof fn lemma_pow256_monotone(i: nat, j: nat)
    requires
        i <= j,
    ensures
        pow256(i) <= pow256(j),
    decreases j - i,
{
    if i < j {
        lemma_pow256_monotone(i, (j - 1) as nat);
    }
}

/// The `k` low base-256 digits of a number read back as the number modulo
/// `256` to the `k`.
pub proof fn lemma_be_digits(n: nat, k: nat)
    ensures
        be_digits(n, k).len() == k,
        be_value(be_digits(n, k)) == n % pow256(k),
    decreases k,
{
    if k > 0 {
        let k1 = (k - 1) as nat;
        lemma_be_digits(n / 256, k1);
        lemma_pow256_positive(k1);
        let d = be_digits(n, k);
        assert(d.drop_last() == be_digits(n / 256, k1));
        lemma_mod_breakdown(n as int, 256, pow256(k1) as int);
        assert(be_value(d) == ((n / 256) % pow256(k1)) * 256 + n % 256);
        assert(((n / 256) % pow256(k1)) * 256 == 256 * ((n / 256) % pow256(k1))) by (nonlinear_arith);
    }
}

/// A `u64` survives the trip through its 8 big-endian bytes.
pub proof fn lemma_u64_be_bytes_value(n: u64)
    ensures
        u64_be_bytes(n).len() == 8,
        be_value(u64_be_bytes(n)) == n,
{
    lemma_be_digits(n as nat, 8);
    assert(pow256(8) == 0x1_0000_0000_0000_0000) by {
        reveal_with_fuel(pow256, 9);
    }
}

/// `u64::from_be_bytes` on an 8-byte slice.
pub fn u64_from_be_bytes(bytes: &[u8]) -> (n: u64)
    requires
        bytes@.len() == 8,
    ensures
        n == be_value(bytes@),
{
    let mut acc: u64 = 0;
    let mut i: usize = 0;
    proof {
        assert(bytes@.take(0) =~= Seq::<u8>::empty());
    }
    while i < 8
        invariant
            bytes@.len() == 8,
            i <= 8,
            acc == be_value(bytes@.take(i as int)),
        decreases 8 - i,
    {
        proof {
            lemma_be_value_bound(bytes@.take(i as int));
            let a = acc as nat;
            let p = pow256(i as nat);
            assert(pow256(7) == 0x100_0000_0000_0000) by {
                reveal_with_fuel(pow256, 8);
            }
            lemma_pow256_monotone(i as nat, 7);
            assert(a * 256 + 255 < 0x1_0000_0000_0000_0000) by (nonlinear_arith)
                requires
                    a < p,
                    p <= 0x100_0000_0000_0000,
            ;
            assert(bytes@.take(i + 1).drop_last() =~= bytes@.take(i as int));
        }
        acc = acc * 256 + bytes[i] as u64;
        i = i + 1;
    }
    proof {
        assert(bytes@.take(8) =~= bytes@);
    }
    acc
}

fn be_digits_exec(n: u64, k: u64) -> (v: Vec<u8>)
    ensures
        v@ == be_digits(n as nat, k as nat),
    decreases k,
{
    if k == 0 {
        Vec::new()
    } else {
        let mut v = be_digits_exec(n / 256, k - 1);
        v.push((n % 256) as u8);
        v
    }
}

/// `u64::to_be_bytes`, as a vector.
pub fn u64_to_be_bytes(n: u64) -> (bytes: Vec<u8>)
    ensures
        bytes@ == u64_be_bytes(n),
        bytes@.len() == 8,
        be_value(bytes@) == n,
{
    proof {
        lemma_u64_be_bytes_value(n);
    }
    be_digits_exec(n, 8)
}

/// The offset at which a page starts, read from the caller's page token.
pub fn decode_page_token(token: Option<String>) -> (offset: u64)
    ensures
        offset == token_offset(
            match token {
                Some(t) => Some(t@),
                None => None,
            },
        ),
{
    match token {
        None => 0,
        Some(t) => match base64_decode(t.as_str()) {
            Some(bytes) => {
                if bytes.len() == 8 {
                    u64_from_be_bytes(bytes.as_slice())
                } else {
                    0
                }
            },
            None => 0,
        },
    }
}

/// The page token that stands for `offset`.
pub fn encode_page_token(offset: u64) -> (token: String)
    ensures
        token@ == base64_standard_encoding(u64_be_bytes(offset)),
        token@.len() == 12,
        token_offset(Some(token@)) == offset,
{
    let bytes = u64_to_be_bytes(offset);
    base64_encode(bytes.as_slice())
}

/// The rows per page for a requested page size: 100 for none or zero.
pub fn page_limit(page_size: Option<u32>) -> (limit: u64)
    ensures
        limit == spec_page_limit(page_size),
        limit >= 1,
{
    match page_size {
        Some(0) | None => DEFAULT_PAGE_SIZE,
        Some(sz) => sz as u64,
    }
}

/// How many rows to ask the store for: one more than the page holds, so that
/// the caller learns whether another page follows.
pub fn page_query_limit(limit: u64) -> (query_limit: u64)
    ensures
        query_limit == if limit == u64::MAX {
            u64::MAX as int
        } else {
            limit + 1
        },
{
    limit.saturating_add(1)
}

/// The offset of the page after the one at `offset` with `limit` rows.
pub open spec fn next_offset(offset: u64, limit: u64) -> u64 {
    if offset + limit > u64::MAX {
        u64::MAX
    } else {
        (offset + limit) as u64
    }
}

/// Turns the rows fetched for a page (at most `limit + 1` of them, starting at
/// `offset`) into the page itself and the token of the next page.
///
/// When more than `limit` rows came back, the page is the first `limit` of
/// them and the token encodes `offset + limit` (saturating); otherwise the page
/// is every row and the token is empty. So the token is empty exactly on the
/// last page.
pub fn finish_page<T>(rows: Vec<T>, offset: u64, limit: u64) -> (page: (Vec<T>, String))
    ensures
        (page.1@.len() == 0) <==> (rows@.len() <= limit),
        rows@.len() > limit ==> {
            &&& page.0@ == rows@.take(limit as int)
            &&& page.1@ == base64_standard_encoding(u64_be_bytes(next_offset(offset, limit)))
            &&& page.1@.len() == 12
            &&& token_offset(Some(page.1@)) == next_offset(offset, limit)
        },
        rows@.len() <= limit ==> {
            &&& page.0@ == rows@
            &&& page.1@ == Seq::<char>::empty()
        },
{
    let mut rows = rows;
    let has_next = rows.len() as u64 > limit;
    if has_next {
        rows.truncate(limit as usize);
        let token = encode_page_token(offset.saturating_add(limit));
        (rows, token)
    } else {
        (rows, String::new())
    }
}

/// The rows a store holding `all` hands back for a query at `offset` with room
/// for `query_limit` rows.
pub open spec fn store_window<T>(all: Seq<T>, offset: nat, query_limit: nat) -> Seq<T> {
    let start = if offset < all.len() {
        offset
    } else {
        all.len()
    };
    let end = if start + query_limit < all.len() {
        start + query_limit
    } else {
        all.len()
    };
    all.subrange(start as int, end as int)
}

/// The pages read one after the other from `offset` on, joined.
pub open spec fn pages_from<T>(all: Seq<T>, offset: nat, limit: nat) -> Seq<T>
    decreases all.len() - offset,
    when limit >= 1
{
    if offset >= all.len() {
        Seq::empty()
    } else {
        let end: nat = if offset + limit < all.len() {
            offset + limit
        } else {
            all.len()
        };
        all.subrange(offset as int, end as int) + pages_from(all, end, limit)
    }
}

/// Against a store that holds `all`, a page fetched at `offset` with
/// `limit + 1` rows of room and finished by `finish_page` holds the rows from
/// `offset` up to `offset + limit`, and a next token comes exactly when rows
/// remain after them.
pub proof fn lemma_page_window<T>(all: Seq<T>, offset: u64, limit: u64)
    requires
        limit >= 1,
        limit < u64::MAX,
        all.len() + limit <= u64::MAX,
        offset <= all.len(),
    ensures
        ({
            let fetched = store_window(all, offset as nat, (limit + 1) as nat);
            &&& (fetched.len() > limit) <==> (offset + limit < all.len())
            &&& fetched.len() > limit ==> fetched.take(limit as int) == all.subrange(
                offset as int,
                offset + limit,
            )
            &&& fetched.len() > limit ==> next_offset(offset, limit) == offset + limit
            &&& fetched.len() <= limit ==> fetched == all.subrange(offset as int, all.len() as int)
        }),
{
    let fetched = store_window(all, offset as nat, (limit + 1) as nat);
    assert(fetched.len() > limit ==> fetched.take(limit as int) =~= all.subrange(
        offset as int,
        offset + limit,
    ));
}

/// Reading page after page from offset 0, each page starting where the token
/// of the one before points, returns every row of the store once, in order.
pub proof fn lemma_pages_cover_all<T>(all: Seq<T>, offset: nat, limit: nat)
    requires
        limit >= 1,
        offset <= all.len(),
    ensures
        pages_from(all, offset, limit) == all.subrange(offset as int, all.len() as int),
    decreases all.len() - offset,
{
    if offset < all.len() {
        let end = if offset + limit < all.len() {
            offset + limit
        } else {
            all.len()
        };
        lemma_pages_cover_all(all, end, limit);
        assert(all.subrange(offset as int, end as int) + all.subrange(end as int, all.len() as int)
            =~= all.subrange(offset as int, all.len() as int));
    } else {
        assert(all.subrange(offset as int, all.len() as int) =~= Seq::<T>::empty());
    }
}


/// The rows a client reads by walking the pages of a store that holds `all`:
/// it fetches the page at `offset` with one row of room to spare and finishes
/// it with `finish_page`; when the token is not empty (by `finish_page`,
/// exactly when more than `limit` rows came back) it goes on at the offset
/// that token stands for (by `finish_page`, `next_offset(offset, limit)`), and
/// at the empty token it stops.
pub open spec fn token_walk<T>(all: Seq<T>, offset: u64, limit: u64) -> Seq<T>
    decreases all.len() - offset,
    when limit >= 1 && limit < u64::MAX && all.len() + limit <= u64::MAX && offset <= all.len()
{
    let fetched = store_window(all, offset as nat, (limit + 1) as nat);
    if fetched.len() > limit {
        fetched.take(limit as int) + token_walk(all, next_offset(offset, limit), limit)
    } else {
        fetched
    }
}

/// Walking the pages by their tokens from `offset` until the empty token reads
/// every row from `offset` on exactly once, in order; from the absent token
/// (offset 0) it reads the whole store.
pub proof fn lemma_token_walk_reads_all<T>(all: Seq<T>, offset: u64, limit: u64)
    requires
        limit >= 1,
        limit < u64::MAX,
        all.len() + limit <= u64::MAX,
        offset <= all.len(),
    ensures
        token_walk(all, offset, limit) == all.subrange(offset as int, all.len() as int),
    decreases all.len() - offset,
{
    lemma_page_window(all, offset, limit);
    let fetched = store_window(all, offset as nat, (limit + 1) as nat);
    if fetched.len() > limit {
        let next = next_offset(offset, limit);
        lemma_token_walk_reads_all(all, next, limit);
        assert(all.subrange(offset as int, next as int) + all.subrange(next as int, all.len() as int)
            =~= all.subrange(offset as int, all.len() as int));
    }
}


/// How many pages the walk of `token_walk` fetches from `offset` on, the last
/// one (with the empty token) included.
pub open spec fn token_walk_calls<T>(all: Seq<T>, offset: u64, limit: u64) -> nat
    decreases all.len() - offset,
    when limit >= 1 && limit < u64::MAX && all.len() + limit <= u64::MAX && offset <= all.len()
{
    let fetched = store_window(all, offset as nat, (limit + 1) as nat);
    if fetched.len() > limit {
        1 + token_walk_calls(all, next_offset(offset, limit), limit)
    } else {
        1
    }
}

/// The walk of the pages from `offset` takes one call per started page of
/// the rows left, and one call when none is left: from the absent token,
/// `max(1, ⌈n / limit⌉)` calls for a store of `n` rows.
pub proof fn lemma_token_walk_calls<T>(all: Seq<T>, offset: u64, limit: u64)
    requires
        limit >= 1,
        limit < u64::MAX,
        all.len() + limit <= u64::MAX,
        offset <= all.len(),
    ensures
        token_walk_calls(all, offset, limit) == if all.len() == offset {
            1
        } else {
            (all.len() - offset + limit - 1) as nat / (limit as nat)
        },
    decreases all.len() - offset,
{
    lemma_page_window(all, offset, limit);
    let fetched = store_window(all, offset as nat, (limit + 1) as nat);
    let rem: int = all.len() - offset;
    let l: int = limit as int;
    if fetched.len() > limit {
        let next = next_offset(offset, limit);
        lemma_token_walk_calls(all, next, limit);
        assert(all.len() - next == rem - l);
        assert((rem - l + l - 1) / l + 1 == (rem + l - 1) / l) by (nonlinear_arith)
            requires
                l >= 1,
                rem > l,
        {
            assert(rem + l - 1 == (rem - 1) + l);
            assert((rem - 1 + l) / l == (rem - 1) / l + 1) by (nonlinear_arith)
                requires
                    l >= 1,
                    rem - 1 >= 0,
            {
                let q = (rem - 1) / l;
                let r = (rem - 1) % l;
                assert(rem - 1 == q * l + r && 0 <= r < l);
                assert(rem - 1 + l == (q + 1) * l + r);
            }
        }
    } else {
        if rem > 0 {
            assert((rem + l - 1) / l == 1) by (nonlinear_arith)
                requires
                    l >= 1,
                    0 < rem <= l,
            ;
        }
    }
}

} // verus!
