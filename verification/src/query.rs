use vstd::prelude::*;
use vstd::slice::{slice_subrange, slice_to_vec};
use vstd::string::StringSliceAdditionalSpecFns;
use vstd::utf8::{decode_utf8, valid_utf8};

use crate::errors::Error;
use crate::store::opt_str_view;

verus! {

/// The typed filter a list request's query string binds to.
pub struct GetUsersQuery {
    pub name: Option<String>,
    pub email: Option<String>,
}

/// The mathematical value of a filter.
pub ghost struct QueryView {
    pub name: Option<Seq<char>>,
    pub email: Option<Seq<char>>,
}

impl View for GetUsersQuery {
    type V = QueryView;

    open spec fn view(&self) -> QueryView {
        QueryView { name: opt_str_view(self.name), email: opt_str_view(self.email) }
    }
}

/// The filter with no field given.
pub open spec fn empty_query() -> QueryView {
    QueryView { name: None, email: None }
}

/// The key bytes that bind the name filter.
pub open spec fn name_key() -> Seq<u8> {
    seq![110u8, 97u8, 109u8, 101u8]
}

/// The key bytes that bind the email filter.
pub open spec fn email_key() -> Seq<u8> {
    seq![101u8, 109u8, 97u8, 105u8, 108u8]
}

/// Whether a byte is a hexadecimal digit.
pub open spec fn is_hex_digit(b: u8) -> bool {
    ||| 48u8 <= b <= 57u8
    ||| 97u8 <= b <= 102u8
    ||| 65u8 <= b <= 70u8
}

/// The value of a hexadecimal digit byte.
pub open spec fn hex_val(b: u8) -> u8 {
    if 48u8 <= b <= 57u8 {
        (b - 48u8) as u8
    } else if 97u8 <= b <= 102u8 {
        (b - 97u8 + 10) as u8
    } else {
        (b - 65u8 + 10) as u8
    }
}

/// Percent-decoding of one query-string component, at the byte level: `%`
/// followed by two hexadecimal digits stands for the byte with that value
/// (a multi-byte UTF-8 sequence arrives as one such escape per byte), `+`
/// stands for a space, and any other byte — the `%` of a truncated or
/// non-hexadecimal escape among them — passes through as itself.
pub open spec fn percent_decoded(s: Seq<u8>) -> Seq<u8>
    decreases s.len(),
{
    if s.len() == 0 {
        Seq::empty()
    } else if s[0] == 37u8 && s.len() >= 3 && is_hex_digit(s[1]) && is_hex_digit(s[2]) {
        seq![(16 * hex_val(s[1]) + hex_val(s[2])) as u8] + percent_decoded(s.skip(3))
    } else if s[0] == 43u8 {
        seq![32u8] + percent_decoded(s.skip(1))
    } else {
        seq![s[0]] + percent_decoded(s.skip(1))
    }
}

/// The length of the prefix of `s` before the first occurrence of `b`, or
/// the length of `s` when `b` does not occur.
pub open spec fn prefix_until(s: Seq<u8>, b: u8) -> nat
    decreases s.len(),
{
    if s.len() == 0 {
        0
    } else if s[0] == b {
        0
    } else {
        1 + prefix_until(s.skip(1), b)
    }
}

/// `s` split on `b`: the pieces between the separators, in order. Splitting
/// the empty string gives one empty piece.
pub open spec fn split_on(s: Seq<u8>, b: u8) -> Seq<Seq<u8>>
    decreases s.len(),
{
    let i = prefix_until(s, b);
    if i >= s.len() {
        seq![s]
    } else {
        seq![s.take(i as int)] + split_on(s.skip(i as int + 1), b)
    }
}

/// The key of one `key=value` pair: what stands before the first `=`, or the
/// whole pair when there is none.
pub open spec fn key_of(pair: Seq<u8>) -> Seq<u8> {
    pair.take(prefix_until(pair, 61u8) as int)
}

/// The raw (still encoded) value of one pair: what stands after the first
/// `=`, or the empty string when there is none.
pub open spec fn raw_value_of(pair: Seq<u8>) -> Seq<u8> {
    if prefix_until(pair, 61u8) < pair.len() {
        pair.skip(prefix_until(pair, 61u8) as int + 1)
    } else {
        Seq::empty()
    }
}

/// The value a raw component binds: its percent-decoded bytes read as UTF-8,
/// or nothing when they are not a valid encoding.
pub open spec fn decoded_value(raw: Seq<u8>) -> Option<Seq<char>> {
    if valid_utf8(percent_decoded(raw)) {
        Some(decode_utf8(percent_decoded(raw)))
    } else {
        None
    }
}

/// Whether a (decoded) key addresses the scalar field named `field` with the
/// nested (bracket) convention, e.g. `name[]` or `name[0]`. The filter's
/// fields are scalars, so such a key is malformed.
pub open spec fn is_bracketed(key: Seq<u8>, field: Seq<u8>) -> bool {
    &&& key.len() > field.len()
    &&& key.take(field.len() as int) == field
    &&& key[field.len() as int] == 91u8
}

/// Folds one pair into the filter built so far. Keys are percent-decoded
/// before they are recognized. A recognized key binds its decoded value;
/// binding it twice, giving it a value that does not decode to UTF-8, or
/// addressing it with the bracket convention is malformed; an unrecognized
/// key is ignored. `None` marks a malformed query string.
pub open spec fn apply_pair(acc: Option<QueryView>, pair: Seq<u8>) -> Option<QueryView> {
    match acc {
        None => None,
        Some(q) => {
            let key = percent_decoded(key_of(pair));
            if key == name_key() {
                match decoded_value(raw_value_of(pair)) {
                    Some(v) => if q.name is Some {
                        None
                    } else {
                        Some(QueryView { name: Some(v), ..q })
                    },
                    None => None,
                }
            } else if key == email_key() {
                match decoded_value(raw_value_of(pair)) {
                    Some(v) => if q.email is Some {
                        None
                    } else {
                        Some(QueryView { email: Some(v), ..q })
                    },
                    None => None,
                }
            } else if is_bracketed(key, name_key()) || is_bracketed(key, email_key()) {
                None
            } else {
                Some(q)
            }
        },
    }
}

/// Folds a sequence of pairs, left to right.
pub open spec fn fold_pairs(acc: Option<QueryView>, pairs: Seq<Seq<u8>>) -> Option<QueryView>
    decreases pairs.len(),
{
    if pairs.len() == 0 {
        acc
    } else {
        fold_pairs(apply_pair(acc, pairs[0]), pairs.skip(1))
    }
}

/// What a query string's bytes mean: its `&`-separated pairs folded into a
/// filter, starting from the empty one. `None` marks a malformed query
/// string.
pub open spec fn spec_parse_query(s: Seq<u8>) -> Option<QueryView> {
    fold_pairs(Some(empty_query()), split_on(s, 38u8))
}

/// `prefix_until` is pinned down by a witness: `k` bytes that are not `b`,
/// followed by `b` or the end of the sequence.
pub proof fn lemma_prefix_until_exact(s: Seq<u8>, b: u8, k: int)
    requires
        0 <= k <= s.len(),
        forall|j: int| 0 <= j < k ==> s[j] != b,
        k < s.len() ==> s[k] == b,
    ensures
        prefix_until(s, b) == k,
    decreases k,
{
    if k > 0 {
        assert(forall|j: int| 0 <= j < k - 1 ==> s.skip(1)[j] == s[j + 1]);
        if k - 1 < s.skip(1).len() {
            assert(s.skip(1)[k - 1] == s[k]);
        }
        lemma_prefix_until_exact(s.skip(1), b, k - 1);
    }
}

/// A malformed prefix stays malformed whatever pairs follow.
pub proof fn lemma_fold_pairs_none(pairs: Seq<Seq<u8>>)
    ensures
        fold_pairs(None, pairs) is None,
    decreases pairs.len(),
{
    if pairs.len() > 0 {
        lemma_fold_pairs_none(pairs.skip(1));
    }
}

/// Relies on String::from_utf8: bytes that form a valid UTF-8 encoding
/// become the string they encode; any others are reported invalid.
#[verifier::external_body]
fn string_from_utf8(v: Vec<u8>) -> (r: Option<String>)
    ensures
        match r {
            Some(s) => valid_utf8(v@) && s@ == decode_utf8(v@),
            None => !valid_utf8(v@),
        },
{
    match String::from_utf8(v) {
        Ok(s) => Some(s),
        Err(_) => None,
    }
}

/// The value of a hexadecimal digit byte, or `None` for any other byte.
fn hex_digit_value(b: u8) -> (r: Option<u8>)
    ensures
        match r {
            Some(v) => is_hex_digit(b) && v == hex_val(b) && v < 16,
            None => !is_hex_digit(b),
        },
{
    if 48u8 <= b && b <= 57u8 {
        Some(b - 48u8)
    } else if 97u8 <= b && b <= 102u8 {
        Some(b - 97u8 + 10)
    } else if 65u8 <= b && b <= 70u8 {
        Some(b - 65u8 + 10)
    } else {
        None
    }
}

/// Percent-decodes one component's bytes; total, since malformed escapes
/// pass through literally.
fn decode_bytes(raw: &Vec<u8>) -> (out: Vec<u8>)
    ensures
        out@ =~= percent_decoded(raw@),
{
    let n = raw.len();
    let mut out: Vec<u8> = Vec::new();
    let mut i: usize = 0;
    proof {
        assert(raw@.skip(0) =~= raw@);
    }
    while i < n
        invariant
            n == raw@.len(),
            i <= n,
            percent_decoded(raw@) =~= out@ + percent_decoded(raw@.skip(i as int)),
        decreases n - i,
    {
        let ghost out0 = out@;
        proof {
            assert(raw@.skip(i as int)[0] == raw@[i as int]);
        }
        let b = raw[i];
        let mut escaped = false;
        if b == 37u8 && n - i >= 3 {
            proof {
                assert(raw@.skip(i as int)[1] == raw@[i + 1 as int]);
                assert(raw@.skip(i as int)[2] == raw@[i + 2 as int]);
            }
            match (hex_digit_value(raw[i + 1]), hex_digit_value(raw[i + 2])) {
                (Some(hi), Some(lo)) => {
                    out.push(16 * hi + lo);
                    proof {
                        assert(raw@.skip(i as int).skip(3) =~= raw@.skip(i + 3 as int));
                        assert(out0 + (seq![(16 * hi + lo) as u8] + percent_decoded(
                            raw@.skip(i + 3 as int),
                        )) =~= out@ + percent_decoded(raw@.skip(i + 3 as int)));
                    }
                    i = i + 3;
                    escaped = true;
                },
                _ => {},
            }
        }
        if !escaped {
            let d = if b == 43u8 {
                32u8
            } else {
                b
            };
            out.push(d);
            proof {
                assert(raw@.skip(i as int).skip(1) =~= raw@.skip(i + 1 as int));
                assert(out0 + (seq![d] + percent_decoded(raw@.skip(i + 1 as int))) =~= out@
                    + percent_decoded(raw@.skip(i + 1 as int)));
            }
            i = i + 1;
        }
    }
    proof {
        assert(raw@.skip(n as int) =~= Seq::<u8>::empty());
        assert(out@ + Seq::<u8>::empty() =~= out@);
    }
    out
}

/// Percent-decodes one component and reads the bytes as UTF-8; rejects
/// exactly the components `decoded_value` marks malformed.
fn decode_component(raw: &Vec<u8>) -> (r: Result<String, Error>)
    ensures
        match r {
            Ok(out) => decoded_value(raw@) == Some(out@),
            Err(e) => e == Error::BadQuery && decoded_value(raw@) is None,
        },
{
    let bytes = decode_bytes(raw);
    match string_from_utf8(bytes) {
        Some(s) => Ok(s),
        None => Err(Error::BadQuery),
    }
}

/// The `&`-separated pieces of the query string's bytes, in order.
fn split_query(bytes: &Vec<u8>) -> (pieces: Vec<Vec<u8>>)
    ensures
        pieces@.map_values(|p: Vec<u8>| p@) =~= split_on(bytes@, 38u8),
{
    let ghost sv = bytes@;
    let n = bytes.len();
    let mut pieces: Vec<Vec<u8>> = Vec::new();
    let mut start: usize = 0;
    let mut i: usize = 0;
    proof {
        assert(sv.skip(0) =~= sv);
    }
    while i < n
        invariant
            sv == bytes@,
            n == sv.len(),
            start <= i <= n,
            forall|j: int| start <= j < i ==> sv[j] != 38u8,
            pieces@.map_values(|p: Vec<u8>| p@) + split_on(sv.skip(start as int), 38u8) =~= split_on(
                sv,
                38u8,
            ),
        decreases n - i,
    {
        if bytes[i] == 38u8 {
            let piece = slice_to_vec(slice_subrange(bytes.as_slice(), start, i));
            let ghost pieces0 = pieces@;
            proof {
                assert(forall|j: int|
                    0 <= j < i - start ==> sv.skip(start as int)[j] == sv[start + j]);
                assert(sv.skip(start as int)[i - start] == sv[i as int]);
                lemma_prefix_until_exact(sv.skip(start as int), 38u8, i - start);
                assert(sv.skip(start as int).take(i - start) =~= sv.subrange(
                    start as int,
                    i as int,
                ));
                assert(sv.skip(start as int).skip(i - start + 1) =~= sv.skip(i + 1 as int));
            }
            pieces.push(piece);
            proof {
                assert(pieces@.map_values(|p: Vec<u8>| p@) =~= pieces0.map_values(
                    |p: Vec<u8>| p@,
                ).push(piece@));
                assert(pieces@.map_values(|p: Vec<u8>| p@) + split_on(sv.skip(i + 1 as int), 38u8)
                    =~= pieces0.map_values(|p: Vec<u8>| p@) + split_on(
                    sv.skip(start as int),
                    38u8,
                ));
            }
            start = i + 1;
        }
        i = i + 1;
    }
    let piece = slice_to_vec(slice_subrange(bytes.as_slice(), start, n));
    let ghost pieces0 = pieces@;
    proof {
        assert(forall|j: int| 0 <= j < n - start ==> sv.skip(start as int)[j] == sv[start + j]);
        lemma_prefix_until_exact(sv.skip(start as int), 38u8, n - start);
        assert(sv.skip(start as int) =~= sv.subrange(start as int, n as int));
    }
    pieces.push(piece);
    proof {
        assert(pieces@.map_values(|p: Vec<u8>| p@) =~= pieces0.map_values(|p: Vec<u8>| p@).push(
            piece@,
        ));
        assert(pieces0.map_values(|p: Vec<u8>| p@) + seq![sv.skip(start as int)]
            =~= pieces0.map_values(|p: Vec<u8>| p@).push(piece@));
    }
    pieces
}

/// Whether the first four bytes of the decoded key spell the name field.
fn starts_name(key: &Vec<u8>) -> (b: bool)
    ensures
        b == (key@.len() >= 4 && key@.take(4) == name_key()),
{
    if key.len() >= 4 {
        let b = key[0] == 110u8 && key[1] == 97u8 && key[2] == 109u8 && key[3] == 101u8;
        proof {
            if b {
                assert(key@.take(4) =~= name_key());
            } else {
                if key@.take(4) == name_key() {
                    assert(key@.take(4)[0] == 110u8 && key@.take(4)[1] == 97u8 && key@.take(4)[2]
                        == 109u8 && key@.take(4)[3] == 101u8);
                    assert(key@[0] == 110u8 && key@[1] == 97u8 && key@[2] == 109u8 && key@[3]
                        == 101u8);
                }
            }
        }
        b
    } else {
        false
    }
}

/// Whether the first five bytes of the decoded key spell the email field.
fn starts_email(key: &Vec<u8>) -> (b: bool)
    ensures
        b == (key@.len() >= 5 && key@.take(5) == email_key()),
{
    if key.len() >= 5 {
        let b = key[0] == 101u8 && key[1] == 109u8 && key[2] == 97u8 && key[3] == 105u8 && key[4]
            == 108u8;
        proof {
            if b {
                assert(key@.take(5) =~= email_key());
            } else {
                if key@.take(5) == email_key() {
                    assert(key@.take(5)[0] == 101u8 && key@.take(5)[1] == 109u8 && key@.take(5)[2]
                        == 97u8 && key@.take(5)[3] == 105u8 && key@.take(5)[4] == 108u8);
                    assert(key@[0] == 101u8 && key@[1] == 109u8 && key@[2] == 97u8 && key@[3] == 105u8
                        && key@[4] == 108u8);
                }
            }
        }
        b
    } else {
        false
    }
}

/// How one (decoded) key of a pair is handled.
enum KeyKind {
    /// The scalar name field.
    Name,
    /// The scalar email field.
    Email,
    /// A recognized field addressed with the bracket convention: malformed.
    Bracket,
    /// An unrecognized key: ignored.
    Other,
}

/// Classifies a decoded key.
fn classify_key(key: &Vec<u8>) -> (k: KeyKind)
    ensures
        (k is Name) == (key@ == name_key()),
        (k is Email) == (key@ == email_key()),
        (k is Bracket) == (is_bracketed(key@, name_key()) || is_bracketed(key@, email_key())),
{
    let n = key.len();
    let name4 = starts_name(key);
    let email5 = starts_email(key);
    proof {
        if name4 && n == 4 {
            assert(key@.take(4) =~= key@);
        }
        if email5 && n == 5 {
            assert(key@.take(5) =~= key@);
        }
        if key@ == name_key() {
            assert(key@.take(4) =~= key@);
        }
        if key@ == email_key() {
            assert(key@.take(5) =~= key@);
        }
    }
    if name4 && n == 4 {
        KeyKind::Name
    } else if email5 && n == 5 {
        KeyKind::Email
    } else if name4 && n > 4 && key[4] == 91u8 {
        KeyKind::Bracket
    } else if email5 && n > 5 && key[5] == 91u8 {
        KeyKind::Bracket
    } else {
        KeyKind::Other
    }
}

/// Folds one `key=value` pair into the filter built so far; rejects exactly
/// the pairs `apply_pair` marks malformed.
fn parse_pair(q: GetUsersQuery, pair: &Vec<u8>) -> (r: Result<GetUsersQuery, Error>)
    ensures
        match r {
            Ok(q2) => apply_pair(Some(q@), pair@) == Some(q2@),
            Err(e) => e == Error::BadQuery && apply_pair(Some(q@), pair@) is None,
        },
{
    let ghost pv = pair@;
    let n = pair.len();
    let mut eq_pos: usize = n;
    let mut i: usize = 0;
    while i < n && eq_pos == n
        invariant
            pv == pair@,
            n == pv.len(),
            i <= n,
            eq_pos <= n,
            eq_pos == n ==> forall|j: int| 0 <= j < i ==> pv[j] != 61u8,
            eq_pos < n ==> pv[eq_pos as int] == 61u8 && (forall|j: int|
                0 <= j < eq_pos ==> pv[j] != 61u8),
        decreases n - i,
    {
        if pair[i] == 61u8 {
            eq_pos = i;
        }
        i = i + 1;
    }
    proof {
        lemma_prefix_until_exact(pv, 61u8, eq_pos as int);
    }
    let key_raw = slice_to_vec(slice_subrange(pair.as_slice(), 0, eq_pos));
    let raw = if eq_pos < n {
        slice_to_vec(slice_subrange(pair.as_slice(), eq_pos + 1, n))
    } else {
        slice_to_vec(slice_subrange(pair.as_slice(), n, n))
    };
    proof {
        assert(key_raw@ =~= key_of(pv));
        assert(raw@ =~= raw_value_of(pv));
    }
    let key = decode_bytes(&key_raw);
    match classify_key(&key) {
        KeyKind::Name => {
            match decode_component(&raw) {
                Ok(val) => {
                    match q.name {
                        Some(_) => Err(Error::BadQuery),
                        None => Ok(GetUsersQuery { name: Some(val), email: q.email }),
                    }
                },
                Err(_) => Err(Error::BadQuery),
            }
        },
        KeyKind::Email => {
            match decode_component(&raw) {
                Ok(val) => {
                    match q.email {
                        Some(_) => Err(Error::BadQuery),
                        None => Ok(GetUsersQuery { name: q.name, email: Some(val) }),
                    }
                },
                Err(_) => Err(Error::BadQuery),
            }
        },
        KeyKind::Bracket => Err(Error::BadQuery),
        KeyKind::Other => Ok(q),
    }
}

impl GetUsersQuery {
    /// Binds a request's raw query string to the typed filter; rejects with
    /// `BadQuery` exactly the strings whose bytes `spec_parse_query` marks
    /// malformed. Parse failure is the only validation: no length or content
    /// check stands between the wire and the filter.
    pub fn from_request(query_string: &str) -> (r: Result<GetUsersQuery, Error>)
        ensures
            match r {
                Ok(q) => spec_parse_query(query_string.spec_bytes()) == Some(q@),
                Err(e) => e == Error::BadQuery && spec_parse_query(query_string.spec_bytes())
                    is None,
            },
    {
        let bytes = query_string.as_bytes_vec();
        let pieces = split_query(&bytes);
        let ghost pvs = pieces@.map_values(|p: Vec<u8>| p@);
        let mut q = GetUsersQuery { name: None, email: None };
        let mut p: usize = 0;
        let m = pieces.len();
        proof {
            assert(q@ == empty_query());
            assert(pvs.skip(0) =~= pvs);
        }
        while p < m
            invariant
                m == pieces.len(),
                pvs =~= pieces@.map_values(|p: Vec<u8>| p@),
                pvs =~= split_on(query_string.spec_bytes(), 38u8),
                p <= m,
                fold_pairs(Some(q@), pvs.skip(p as int)) == spec_parse_query(
                    query_string.spec_bytes(),
                ),
            decreases m - p,
        {
            proof {
                assert(pvs.skip(p as int)[0] == pvs[p as int]);
                assert(pvs.skip(p as int).skip(1) =~= pvs.skip(p + 1 as int));
            }
            match parse_pair(q, &pieces[p]) {
                Ok(q2) => {
                    q = q2;
                },
                Err(e) => {
                    proof {
                        lemma_fold_pairs_none(pvs.skip(p + 1 as int));
                    }
                    return Err(e);
                },
            }
            p = p + 1;
        }
        proof {
            assert(pvs.skip(m as int) =~= Seq::<Seq<u8>>::empty());
        }
        Ok(q)
    }
}

} // verus!
