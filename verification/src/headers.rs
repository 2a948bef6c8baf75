//! The boundary with `http::HeaderMap`, and the layering of header maps.

use vstd::prelude::*;
use vstd::utf8::encode_utf8;
use crate::error::{ConversionError, ConversionErrorV};
use crate::scan::{chars_of, string_of};

verus! {

#[verifier::external_type_specification]
#[verifier::external_body]
#[verifier::reject_recursive_types(T)]
pub struct ExHeaderMap<T>(http::HeaderMap<T>);

#[verifier::external_type_specification]
#[verifier::external_body]
pub struct ExHeaderName(http::HeaderName);

#[verifier::external_type_specification]
#[verifier::external_body]
pub struct ExHeaderValue(http::HeaderValue);

/// The values that a header map holds under a (lower-case) name, in the order
/// in which they were added.
pub uninterp spec fn header_values(h: http::HeaderMap, name: Seq<char>) -> Seq<Seq<u8>>;

/// The (lower-case) text of a header name.
pub uninterp spec fn header_name(n: http::HeaderName) -> Seq<char>;

/// The bytes of a header value.
pub uninterp spec fn header_bytes(v: http::HeaderValue) -> Seq<u8>;

/// The number of values that a header map holds.
pub uninterp spec fn header_count(h: http::HeaderMap) -> nat;

/// The values among the first `n` pairs whose name is `name`, in order.
pub open spec fn named_values(
    s: Seq<(http::HeaderName, http::HeaderValue)>,
    name: Seq<char>,
    n: nat,
) -> Seq<Seq<u8>>
    decreases n,
{
    if n == 0 || n > s.len() {
        Seq::empty()
    } else if header_name(s[n - 1].0) == name {
        named_values(s, name, (n - 1) as nat).push(header_bytes(s[n - 1].1))
    } else {
        named_values(s, name, (n - 1) as nat)
    }
}

/// `HeaderMap::new`: a map without headers.
#[verifier::external_body]
pub(crate) fn no_headers() -> (r: http::HeaderMap)
    ensures
        forall|k: Seq<char>| #[trigger] header_values(r, k) == Seq::<Seq<u8>>::empty(),
        header_count(r) == 0,
{
    http::HeaderMap::new()
}

/// `HeaderMap::clone`, which copies every field: the same headers in the same
/// order.
#[verifier::external_body]
pub(crate) fn clone_headers(h: &http::HeaderMap) -> (r: http::HeaderMap)
    ensures
        r == *h,
{
    h.clone()
}

/// `HeaderMap::iter`: every name once per value, the values of one name in
/// the order in which they were added.
#[verifier::external_body]
pub(crate) fn header_entries(h: &http::HeaderMap) -> (r: Vec<(http::HeaderName, http::HeaderValue)>)
    ensures
        forall|k: Seq<char>| #[trigger] named_values(r@, k, r@.len()) == header_values(*h, k),
        r@.len() == header_count(*h),
{
    h.iter().map(|(n, v)| (n.clone(), v.clone())).collect()
}

/// `HeaderMap::is_empty`: no name has a value.
#[verifier::external_body]
pub(crate) fn headers_empty(h: &http::HeaderMap) -> (r: bool)
    ensures
        r <==> (forall|k: Seq<char>| #[trigger] header_values(*h, k).len() == 0),
{
    h.is_empty()
}

/// `HeaderMap::remove`: all values of the name go, other names stay.
#[verifier::external_body]
fn remove_header(h: &mut http::HeaderMap, n: &http::HeaderName)
    ensures
        forall|k: Seq<char>| #[trigger]
            header_values(*final(h), k) == if k == header_name(*n) {
                Seq::empty()
            } else {
                header_values(*old(h), k)
            },
        header_count(*final(h)) <= header_count(*old(h)),
{
    let _ = h.remove(n);
}

/// The number of values below which a header map is never full. A map of at
/// most 32768 slots refuses to grow once a fifth of them is taken, at the
/// earliest.
pub open spec fn header_room() -> nat {
    6554
}

/// `HeaderMap::try_append`: the value goes behind those of its name, other
/// names stay; `false` and no change when the map is full, which a map of fewer
/// than `header_room()` values never is.
#[verifier::external_body]
fn append_header(h: &mut http::HeaderMap, n: &http::HeaderName, v: &http::HeaderValue) -> (r: bool)
    ensures
        forall|k: Seq<char>| #[trigger]
            header_values(*final(h), k) == if r && k == header_name(*n) {
                header_values(*old(h), k).push(header_bytes(*v))
            } else {
                header_values(*old(h), k)
            },
        header_count(*old(h)) < header_room() ==> r,
        header_count(*final(h)) <= header_count(*old(h)) + 1,
{
    h.try_append(n, v.clone()).is_ok()
}

/// Appends one header; `false` and no change when the map is full, which a map
/// of fewer than `header_room()` values never is.
pub fn append_owned(h: http::HeaderMap, n: &http::HeaderName, v: &http::HeaderValue) -> (r: (http::HeaderMap, bool))
    ensures
        forall|k: Seq<char>| #[trigger]
            header_values(r.0, k) == if r.1 && k == header_name(*n) {
                header_values(h, k).push(header_bytes(*v))
            } else {
                header_values(h, k)
            },
        header_count(h) < header_room() ==> r.1,
        header_count(r.0) <= header_count(h) + 1,
{
    let mut out = h;
    let room = append_header(&mut out, n, v);
    (out, room)
}

/// `HeaderMap::try_insert`: the value replaces those of its name, other names
/// stay; `false` and no change when the map is full, which a map of fewer than
/// `header_room()` values never is.
#[verifier::external_body]
pub(crate) fn insert_header(h: &mut http::HeaderMap, name: &http::HeaderName, v: http::HeaderValue) -> (r: bool)
    ensures
        forall|k: Seq<char>| #[trigger]
            header_values(*final(h), k) == if r && k == header_name(*name) {
                seq![header_bytes(v)]
            } else {
                header_values(*old(h), k)
            },
        header_count(*old(h)) < header_room() ==> r,
        header_count(*final(h)) <= header_count(*old(h)) + 1,
{
    h.try_insert(name, v).is_ok()
}

/// A lower-case letter or a hyphen.
pub open spec fn is_name_char(c: char) -> bool {
    ('a' <= c && c <= 'z') || c == '-'
}

/// `HeaderName::from_static`, which takes lower-case names and panics on
/// others: the name with that text.
#[verifier::external_body]
pub(crate) fn static_name(s: &'static str) -> (r: http::HeaderName)
    requires
        0 < s@.len() < 100,
        forall|i: int| 0 <= i < s@.len() ==> is_name_char(#[trigger] s@[i]),
    ensures
        header_name(r) == s@,
{
    http::HeaderName::from_static(s)
}

/// A byte that a header value may hold.
pub open spec fn is_value_byte(b: u8) -> bool {
    (b >= 32 && b != 127) || b == 9
}

/// The text can be a header value.
pub open spec fn is_value_text(s: Seq<char>) -> bool {
    forall|i: int| 0 <= i < encode_utf8(s).len() ==> is_value_byte(#[trigger] encode_utf8(s)[i])
}

/// `HeaderValue::from_str`: the value with the bytes of the text; nothing when
/// one of them is a control character other than a tab.
#[verifier::external_body]
pub(crate) fn header_value(s: &str) -> (r: Option<http::HeaderValue>)
    ensures
        match r {
            Some(v) => is_value_text(s@) && header_bytes(v) == encode_utf8(s@),
            None => !is_value_text(s@),
        },
{
    http::HeaderValue::from_str(s).ok()
}

/// `HeaderMap::get` of `retry-after`: the first value of that name.
#[verifier::external_body]
fn retry_after_value(h: &http::HeaderMap) -> (r: Option<http::HeaderValue>)
    ensures
        match r {
            Some(v) => header_values(*h, "retry-after"@).len() > 0 && header_bytes(v) == header_values(
                *h,
                "retry-after"@,
            )[0],
            None => header_values(*h, "retry-after"@).len() == 0,
        },
{
    h.get(http::header::RETRY_AFTER).cloned()
}

/// Printable ASCII, or a tab.
pub open spec fn is_visible(b: u8) -> bool {
    (32 <= b < 127) || b == 9
}

/// `HeaderValue::to_str`: the text of a value of visible ASCII; nothing for
/// any other value.
#[verifier::external_body]
fn header_text(v: &http::HeaderValue) -> (r: Option<String>)
    ensures
        match r {
            Some(s) => (forall|i: int| 0 <= i < header_bytes(*v).len() ==> is_visible(#[trigger] header_bytes(*v)[i]))
                && s@ == header_bytes(*v).map_values(|b: u8| b as char),
            None => exists|i: int| 0 <= i < header_bytes(*v).len() && !is_visible(#[trigger] header_bytes(*v)[i]),
        },
{
    v.to_str().ok().map(|s| s.to_owned())
}

/// The layered map holds under `k` the values of the layer if it has any, else
/// those of the base.
pub open spec fn layered(base: Seq<Seq<u8>>, layer: Seq<Seq<u8>>) -> Seq<Seq<u8>> {
    if layer.len() > 0 {
        layer
    } else {
        base
    }
}

proof fn named_values_nonempty(s: Seq<(http::HeaderName, http::HeaderValue)>, i: int, n: nat)
    requires
        0 <= i < n <= s.len(),
    ensures
        named_values(s, header_name(s[i].0), n).len() > 0,
    decreases n,
{
    if i < n - 1 {
        named_values_nonempty(s, i, (n - 1) as nat);
    }
}

proof fn named_values_absent(s: Seq<(http::HeaderName, http::HeaderValue)>, k: Seq<char>, n: nat)
    requires
        n <= s.len(),
        forall|i: int| 0 <= i < n ==> header_name(#[trigger] s[i].0) != k,
    ensures
        named_values(s, k, n) == Seq::<Seq<u8>>::empty(),
    decreases n,
{
    if n > 0 {
        named_values_absent(s, k, (n - 1) as nat);
    }
}

/// The error for a header map that cannot take another header.
pub open spec fn headers_full() -> ConversionErrorV {
    ConversionErrorV::Other { message: "too many headers"@ }
}

/// Layers one header map onto another: same-name entries replace, other names
/// add. This fails only when the map is full, never with up to `header_room()`
/// values in all.
pub fn layer_headers(base: &mut http::HeaderMap, layer: &http::HeaderMap) -> (r: Result<(), ConversionError>)
    ensures
        match r {
            Ok(_) => forall|k: Seq<char>| #[trigger]
                header_values(*final(base), k) == layered(header_values(*old(base), k), header_values(*layer, k)),
            Err(e) => e@ == headers_full(),
        },
        header_count(*old(base)) + header_count(*layer) <= header_room() ==> r is Ok,
        r is Ok ==> header_count(*final(base)) <= header_count(*old(base)) + header_count(*layer),
{
    let entries = header_entries(layer);
    let ghost all = entries@;
    let ghost b0 = *base;
    let mut i: usize = 0;
    while i < entries.len()
        invariant
            i <= entries@.len(),
            all == entries@,
            b0 == *old(base),
            forall|k: Seq<char>| #[trigger] named_values(all, k, all.len()) == header_values(*layer, k),
            forall|k: Seq<char>| (forall|j: int| 0 <= j < i ==> header_name(#[trigger] all[j].0) != k) ==> #[trigger]
                header_values(*base, k) == header_values(b0, k),
            forall|j: int, k: Seq<char>|
                0 <= j < i && header_name(#[trigger] all[j].0) == k ==> #[trigger] header_values(*base, k)
                    == Seq::<Seq<u8>>::empty(),
            header_count(*base) <= header_count(b0),
        decreases entries@.len() - i,
    {
        remove_header(base, &entries[i].0);
        i += 1;
    }
    let ghost b1 = *base;
    proof {
        assert forall|k: Seq<char>| header_values(*layer, k).len() > 0 implies #[trigger] header_values(b1, k)
            == Seq::<Seq<u8>>::empty() by {
            assert(named_values(all, k, all.len()) == header_values(*layer, k));
            if forall|j: int| 0 <= j < all.len() ==> header_name(#[trigger] all[j].0) != k {
                named_values_absent(all, k, all.len());
            }
        }
        assert forall|k: Seq<char>| header_values(*layer, k).len() == 0 implies #[trigger] header_values(b1, k)
            == header_values(b0, k) by {
            assert(named_values(all, k, all.len()) == header_values(*layer, k));
            assert forall|j: int| 0 <= j < all.len() implies header_name(#[trigger] all[j].0) != k by {
                if header_name(all[j].0) == k {
                    named_values_nonempty(all, j, all.len());
                }
            }
        }
        assert forall|k: Seq<char>| #[trigger] header_values(*base, k) == header_values(b1, k) + named_values(all, k, 0) by {
            assert(header_values(b1, k) + named_values(all, k, 0) =~= header_values(b1, k));
        }
    }
    let mut i: usize = 0;
    while i < entries.len()
        invariant
            i <= entries@.len(),
            all == entries@,
            forall|k: Seq<char>| #[trigger] header_values(*base, k) == header_values(b1, k) + named_values(all, k, i as nat),
            entries@.len() == header_count(*layer),
            header_count(*base) <= header_count(*old(base)) + i,
        decreases entries@.len() - i,
    {
        let ghost before = *base;
        if !append_header(base, &entries[i].0, &entries[i].1) {
            return Err(ConversionError::other("too many headers"));
        }
        proof {
            assert forall|k: Seq<char>| #[trigger] header_values(*base, k) == header_values(b1, k) + named_values(all, k, i as nat + 1) by {
                assert(header_values(before, k) == header_values(b1, k) + named_values(all, k, i as nat));
                assert(header_values(*base, k) =~= header_values(b1, k) + named_values(all, k, i as nat + 1));
            }
        }
        i += 1;
    }
    proof {
        assert forall|k: Seq<char>| #[trigger] header_values(*base, k) == layered(
            header_values(b0, k),
            header_values(*layer, k),
        ) by {
            assert(named_values(all, k, all.len()) == header_values(*layer, k));
            assert(header_values(*base, k) == header_values(b1, k) + named_values(all, k, all.len()));
            if header_values(*layer, k).len() > 0 {
                assert(header_values(b1, k) == Seq::<Seq<u8>>::empty());
                assert(Seq::<Seq<u8>>::empty() + header_values(*layer, k) =~= header_values(*layer, k));
            } else {
                assert(header_values(b1, k) == header_values(b0, k));
                assert(header_values(b0, k) + header_values(*layer, k) =~= header_values(b0, k));
            }
        }
    }
    Ok(())
}


/// A space or a tab.
pub open spec fn is_blank(c: char) -> bool {
    c == ' ' || c == '\t'
}

/// `s` without blanks at its start.
pub open spec fn trimmed_start(s: Seq<char>) -> Seq<char>
    decreases s.len(),
{
    if s.len() > 0 && is_blank(s[0]) {
        trimmed_start(s.drop_first())
    } else {
        s
    }
}

/// `s` without blanks at its end.
pub open spec fn trimmed_back(s: Seq<char>) -> Seq<char>
    decreases s.len(),
{
    if s.len() > 0 && is_blank(s.last()) {
        trimmed_back(s.drop_last())
    } else {
        s
    }
}

/// The value of a decimal digit.
pub open spec fn digit_value(c: char) -> Option<nat> {
    if '0' <= c && c <= '9' {
        Some((c as u32 - '0' as u32) as nat)
    } else {
        None
    }
}

/// The number that the first `n` characters denote, when all are digits and
/// it fits.
pub open spec fn digits_value(s: Seq<char>, n: nat) -> Option<nat>
    decreases n,
{
    if n == 0 || n > s.len() {
        Some(0)
    } else {
        match (digits_value(s, (n - 1) as nat), digit_value(s[n - 1])) {
            (Some(v), Some(d)) => if v * 10 + d <= u64::MAX {
                Some(v * 10 + d)
            } else {
                None
            },
            _ => None,
        }
    }
}

/// The unsigned integer that a text denotes: digits, with a plus sign before
/// them if any.
pub open spec fn unsigned_value(s: Seq<char>) -> Option<nat> {
    let digits = if s.len() > 0 && s[0] == '+' { s.drop_first() } else { s };
    if digits.len() == 0 {
        None
    } else {
        digits_value(digits, digits.len())
    }
}

/// The seconds that the first value of a header denotes.
pub open spec fn header_seconds(values: Seq<Seq<u8>>) -> Option<nat> {
    if values.len() > 0 && (forall|i: int| 0 <= i < values[0].len() ==> is_visible(#[trigger] values[0][i])) {
        unsigned_value(trimmed_back(trimmed_start(values[0].map_values(|b: u8| b as char))))
    } else {
        None
    }
}

fn trim_blanks(s: &str) -> (r: Vec<char>)
    ensures
        r@ == trimmed_back(trimmed_start(s@)),
{
    let v = chars_of(s);
    let mut i: usize = 0;
    proof {
        assert(v@.subrange(0, v@.len() as int) =~= s@);
    }
    while i < v.len() && (v[i] == ' ' || v[i] == '\t')
        invariant
            i <= v@.len(),
            trimmed_start(v@.subrange(i as int, v@.len() as int)) == trimmed_start(s@),
        decreases v@.len() - i,
    {
        proof {
            assert(v@.subrange(i as int, v@.len() as int).drop_first() =~= v@.subrange(i + 1, v@.len() as int));
        }
        i += 1;
    }
    let mut n: usize = v.len();
    let ghost whole = v@.subrange(i as int, v@.len() as int);
    while n > i && (v[n - 1] == ' ' || v[n - 1] == '\t')
        invariant
            i <= n <= v@.len(),
            trimmed_back(v@.subrange(i as int, n as int)) == trimmed_back(whole),
        decreases n,
    {
        proof {
            assert(v@.subrange(i as int, n as int).drop_last() =~= v@.subrange(i as int, n - 1));
        }
        n -= 1;
    }
    chars_of(string_of(&v, i, n).as_str())
}

proof fn digits_none_stays(s: Seq<char>, n: nat, m: nat)
    requires
        n <= m <= s.len(),
        digits_value(s, n) is None,
    ensures
        digits_value(s, m) is None,
    decreases m - n,
{
    if n < m {
        digits_none_stays(s, n, (m - 1) as nat);
    }
}

/// Reads an unsigned integer.
pub fn parse_unsigned(v: &Vec<char>) -> (r: Option<u64>)
    ensures
        match r {
            Some(n) => unsigned_value(v@) == Some(n as nat),
            None => unsigned_value(v@) is None,
        },
{
    let mut start: usize = 0;
    if v.len() > 0 && v[0] == '+' {
        start = 1;
    }
    if start == v.len() {
        return None;
    }
    let ghost digits = v@.subrange(start as int, v@.len() as int);
    proof {
        assert(digits =~= if v@.len() > 0 && v@[0] == '+' { v@.drop_first() } else { v@ });
    }
    let mut total: u64 = 0;
    let mut i: usize = start;
    while i < v.len()
        invariant
            start <= i <= v@.len(),
            digits == v@.subrange(start as int, v@.len() as int),
            digits_value(digits, (i - start) as nat) == Some(total as nat),
            unsigned_value(v@) == digits_value(digits, digits.len()),
        decreases v@.len() - i,
    {
        let c = v[i];
        proof {
            assert(digits[i - start] == c);
        }
        if !('0' <= c && c <= '9') {
            proof {
                digits_none_stays(digits, (i - start + 1) as nat, digits.len());
            }
            return None;
        }
        let d: u64 = c as u64 - '0' as u64;
        if total > (u64::MAX - d) / 10 {
            proof {
                assert(total as nat * 10 + d > u64::MAX);
                digits_none_stays(digits, (i - start + 1) as nat, digits.len());
            }
            return None;
        }
        total = total * 10 + d;
        i += 1;
    }
    Some(total)
}

/// Parses a `Retry-After` header as integer seconds; dates yield nothing.
pub fn retry_after_from_headers(headers: &http::HeaderMap) -> (r: Option<u64>)
    ensures
        match r {
            Some(n) => header_seconds(header_values(*headers, "retry-after"@)) == Some(n as nat),
            None => header_seconds(header_values(*headers, "retry-after"@)) is None,
        },
{
    match retry_after_value(headers) {
        None => None,
        Some(v) => match header_text(&v) {
            None => None,
            Some(s) => parse_unsigned(&trim_blanks(s.as_str())),
        },
    }
}

/// `retry_after_from_headers` as a number of seconds.
pub open spec fn retry_seconds(headers: http::HeaderMap) -> Option<u64> {
    match header_seconds(header_values(headers, "retry-after"@)) {
        Some(n) => Some(n as u64),
        None => None,
    }
}

} // verus!
