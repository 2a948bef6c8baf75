//! Scanning of text: prefixes, searches, replacement, splitting and percent
//! encoding.

use vstd::prelude::*;
use vstd::string::*;
use vstd::utf8::{encode_utf8, encode_utf8_decode_utf8};
use crate::model::{group_views, views};
use crate::text::{joined, joined_upto};

verus! {

broadcast use group_views;

/// The characters of a string.
pub fn chars_of(s: &str) -> (r: Vec<char>)
    ensures
        r@ == s@,
{
    let mut out: Vec<char> = Vec::new();
    for c in it: s.chars()
        invariant
            it.seq() == s@,
            out@ == s@.take(it.index() as int),
    {
        out.push(c);
        proof {
            let i = it.index() as int;
            assert(s@.take(i + 1) =~= s@.take(i).push(s@[i]));
        }
    }
    proof {
        assert(s@.take(s@.len() as int) =~= s@);
    }
    out
}

/// The string of the characters from `from` up to `to`.
pub fn string_of(v: &Vec<char>, from: usize, to: usize) -> (r: String)
    requires
        from <= to <= v@.len(),
    ensures
        r@ == v@.subrange(from as int, to as int),
{
    let mut out = String::new();
    let mut i: usize = from;
    proof {
        assert(v@.subrange(from as int, from as int) =~= Seq::<char>::empty());
    }
    while i < to
        invariant
            from <= i <= to <= v@.len(),
            out@ == v@.subrange(from as int, i as int),
        decreases to - i,
    {
        out.push(v[i]);
        proof {
            assert(v@.subrange(from as int, i as int + 1) =~= v@.subrange(from as int, i as int).push(v@[i as int]));
        }
        i += 1;
    }
    out
}

/// `p` stands in `s` at position `i`.
pub open spec fn occurs_at(s: Seq<char>, p: Seq<char>, i: int) -> bool {
    0 <= i && i + p.len() <= s.len() && s.subrange(i, i + p.len()) == p
}

/// Position of the first occurrence of `p` in `s` at or after `i`.
pub open spec fn find_from(s: Seq<char>, p: Seq<char>, i: int) -> Option<int>
    decreases s.len() + 1 - i,
{
    if i < 0 || i > s.len() {
        None
    } else if occurs_at(s, p, i) {
        Some(i)
    } else {
        find_from(s, p, i + 1)
    }
}

/// `s` starts with `p`.
pub open spec fn starts_with(s: Seq<char>, p: Seq<char>) -> bool {
    occurs_at(s, p, 0)
}

/// `p` occurs somewhere in `s`.
pub open spec fn contains(s: Seq<char>, p: Seq<char>) -> bool {
    find_from(s, p, 0) is Some
}

/// Where the search ends: at the first occurrence, if there is one.
pub proof fn find_from_props(s: Seq<char>, p: Seq<char>, i: int)
    requires
        0 <= i,
    ensures
        match find_from(s, p, i) {
            Some(j) => i <= j && occurs_at(s, p, j) && forall|k: int| i <= k < j ==> !occurs_at(s, p, k),
            None => forall|k: int| i <= k ==> !occurs_at(s, p, k),
        },
    decreases s.len() + 1 - i,
{
    if i <= s.len() && !occurs_at(s, p, i) {
        find_from_props(s, p, i + 1);
    }
}

/// `true` when `p` stands in `s` at position `i`.
pub fn matches_at(s: &Vec<char>, p: &Vec<char>, i: usize) -> (r: bool)
    ensures
        r == occurs_at(s@, p@, i as int),
{
    if s.len() < p.len() || i > s.len() - p.len() {
        return false;
    }
    let n = s.len();
    let mut k: usize = 0;
    while k < p.len()
        invariant
            k <= p@.len(),
            n == s@.len(),
            i + p@.len() <= n,
            forall|j: int| 0 <= j < k ==> s@[i + j] == p@[j],
        decreases p@.len() - k,
    {
        if s[i + k] != p[k] {
            proof {
                assert(s@.subrange(i as int, i + p@.len())[k as int] != p@[k as int]);
            }
            return false;
        }
        k += 1;
    }
    proof {
        assert(s@.subrange(i as int, i + p@.len()) =~= p@);
    }
    true
}

/// Position of the first occurrence of `p` in `s` at or after `from`.
pub fn find(s: &Vec<char>, p: &Vec<char>, from: usize) -> (r: Option<usize>)
    requires
        from <= s@.len(),
    ensures
        match r {
            Some(i) => find_from(s@, p@, from as int) == Some(i as int),
            None => find_from(s@, p@, from as int) is None,
        },
{
    let mut i: usize = from;
    loop
        invariant
            from <= i <= s@.len(),
            find_from(s@, p@, from as int) == find_from(s@, p@, i as int),
        decreases s@.len() - i,
    {
        if matches_at(s, p, i) {
            return Some(i);
        }
        if i == s.len() {
            proof {
                assert(find_from(s@, p@, i + 1) is None);
            }
            return None;
        }
        i += 1;
    }
}

/// `s` from position `i` on, with every occurrence of `p` replaced by `w`,
/// from left to right.
pub open spec fn replaced_from(s: Seq<char>, p: Seq<char>, w: Seq<char>, i: int) -> Seq<char>
    decreases s.len() - i,
{
    if i < 0 || i >= s.len() {
        Seq::empty()
    } else if p.len() > 0 && occurs_at(s, p, i) {
        w + replaced_from(s, p, w, i + p.len())
    } else {
        seq![s[i]] + replaced_from(s, p, w, i + 1)
    }
}

/// `s` with every occurrence of `p` replaced by `w`.
pub open spec fn replaced(s: Seq<char>, p: Seq<char>, w: Seq<char>) -> Seq<char> {
    replaced_from(s, p, w, 0)
}

/// Replaces every occurrence of `p`.
pub fn replace(s: &Vec<char>, p: &Vec<char>, w: &str) -> (r: String)
    requires
        p@.len() > 0,
    ensures
        r@ == replaced(s@, p@, w@),
{
    let mut out = String::new();
    let mut i: usize = 0;
    proof {
        assert(Seq::<char>::empty() + replaced_from(s@, p@, w@, 0) =~= replaced(s@, p@, w@));
    }
    while i < s.len()
        invariant
            p@.len() > 0,
            i <= s@.len(),
            out@ + replaced_from(s@, p@, w@, i as int) == replaced(s@, p@, w@),
        decreases s@.len() - i,
    {
        let ghost before = out@;
        if matches_at(s, p, i) {
            out.append(w);
            proof {
                assert(out@ + replaced_from(s@, p@, w@, i + p@.len()) =~= before + (w@ + replaced_from(
                    s@,
                    p@,
                    w@,
                    i + p@.len(),
                )));
            }
            i += p.len();
        } else {
            out.push(s[i]);
            proof {
                assert(out@ + replaced_from(s@, p@, w@, i + 1) =~= before + (seq![s@[i as int]] + replaced_from(
                    s@,
                    p@,
                    w@,
                    i + 1,
                )));
            }
            i += 1;
        }
    }
    proof {
        assert(out@ + Seq::<char>::empty() =~= out@);
    }
    out
}

/// Position of the first `c` at or after `i`; the length when there is none.
pub open spec fn char_from(s: Seq<char>, c: char, i: int) -> int
    decreases s.len() - i,
{
    if i < 0 || i >= s.len() {
        s.len() as int
    } else if s[i] == c {
        i
    } else {
        char_from(s, c, i + 1)
    }
}

/// `s` up to the first `c`, and what follows it; nothing when there is none.
pub open spec fn split_once(s: Seq<char>, c: char) -> Option<(Seq<char>, Seq<char>)> {
    let i = char_from(s, c, 0);
    if 0 <= i < s.len() {
        Some((s.subrange(0, i), s.subrange(i + 1, s.len() as int)))
    } else {
        None
    }
}

/// Position of the first `c`; the length when there is none.
pub fn find_char(s: &Vec<char>, c: char) -> (r: usize)
    ensures
        r == char_from(s@, c, 0),
        r <= s@.len(),
{
    let mut i: usize = 0;
    while i < s.len()
        invariant
            i <= s@.len(),
            char_from(s@, c, 0) == char_from(s@, c, i as int),
        decreases s@.len() - i,
    {
        if s[i] == c {
            return i;
        }
        i += 1;
    }
    i
}

/// Splits at the first `c`.
pub fn split_at_char(s: &str, c: char) -> (r: Option<(String, String)>)
    ensures
        match r {
            Some(p) => split_once(s@, c) == Some((p.0@, p.1@)),
            None => split_once(s@, c) is None,
        },
{
    let v = chars_of(s);
    let i = find_char(&v, c);
    if i < v.len() {
        Some((string_of(&v, 0, i), string_of(&v, i + 1, v.len())))
    } else {
        None
    }
}

/// The pieces of `s` from position `i` on, separated by `c`.
pub open spec fn split_from(s: Seq<char>, c: char, i: int) -> Seq<Seq<char>>
    decreases s.len() - i,
{
    if i < 0 || i > s.len() {
        Seq::empty()
    } else {
        let j = char_from(s, c, i);
        if i <= j < s.len() {
            seq![s.subrange(i, j)] + split_from(s, c, j + 1)
        } else {
            seq![s.subrange(i, s.len() as int)]
        }
    }
}

/// The pieces of `s`, separated by `c`.
pub open spec fn split(s: Seq<char>, c: char) -> Seq<Seq<char>> {
    split_from(s, c, 0)
}

/// The pieces of `s`, separated by `c`.
pub fn split_chars(s: &str, c: char) -> (r: Vec<String>)
    ensures
        views(r@) == split(s@, c),
{
    let v = chars_of(s);
    let mut out: Vec<String> = Vec::new();
    let mut start: usize = 0;
    let mut i: usize = 0;
    proof {
        assert(Seq::<Seq<char>>::empty() + split_from(s@, c, 0) =~= split(s@, c));
    }
    while i < v.len()
        invariant
            v@ == s@,
            start <= i <= v@.len(),
            char_from(s@, c, start as int) == char_from(s@, c, i as int),
            views(out@) + split_from(s@, c, start as int) == split(s@, c),
        decreases v@.len() - i,
    {
        if v[i] == c {
            let ghost before = views(out@);
            out.push(string_of(&v, start, i));
            proof {
                assert(views(out@) + split_from(s@, c, i + 1) =~= before + (seq![s@.subrange(
                    start as int,
                    i as int,
                )] + split_from(s@, c, i + 1)));
            }
            start = i + 1;
        }
        i += 1;
    }
    let ghost before = views(out@);
    out.push(string_of(&v, start, v.len()));
    proof {
        assert(views(out@) =~= before + split_from(s@, c, start as int));
    }
    out
}

proof fn joined_front(first: Seq<char>, rest: Seq<Seq<char>>, sep: Seq<char>, n: nat)
    requires
        0 < n <= rest.len(),
    ensures
        joined_upto(seq![first] + rest, sep, n + 1) == first + sep + joined_upto(rest, sep, n),
    decreases n,
{
    let all = seq![first] + rest;
    assert(all[n as int] == rest[n - 1]);
    assert(all[0] == first);
    if n == 1 {
        assert(joined_upto(all, sep, 1) == first);
    } else {
        joined_front(first, rest, sep, (n - 1) as nat);
        let mid = joined_upto(rest, sep, (n - 1) as nat);
        assert((first + sep + mid) + sep + rest[n - 1] =~= first + sep + (mid + sep + rest[n - 1]));
    }
}

proof fn char_from_props(s: Seq<char>, c: char, i: int)
    requires
        0 <= i <= s.len(),
    ensures
        i <= char_from(s, c, i) <= s.len(),
        char_from(s, c, i) < s.len() ==> s[char_from(s, c, i)] == c,
    decreases s.len() - i,
{
    if i < s.len() && s[i] != c {
        char_from_props(s, c, i + 1);
    }
}

proof fn split_from_joins(s: Seq<char>, c: char, i: int)
    requires
        0 <= i <= s.len(),
    ensures
        split_from(s, c, i).len() > 0,
        joined(split_from(s, c, i), seq![c]) == s.subrange(i, s.len() as int),
    decreases s.len() - i,
{
    let j = char_from(s, c, i);
    char_from_props(s, c, i);
    if j < s.len() {
        let rest = split_from(s, c, j + 1);
        split_from_joins(s, c, j + 1);
        joined_front(s.subrange(i, j), rest, seq![c], rest.len());
        assert(s.subrange(i, j) + seq![c] + s.subrange(j + 1, s.len() as int) =~= s.subrange(i, s.len() as int));
    }
}

/// Joining the pieces of a text gives the text back.
pub proof fn split_joins(s: Seq<char>, c: char)
    ensures
        joined(split(s, c), seq![c]) == s,
{
    split_from_joins(s, c, 0);
    assert(s.subrange(0, s.len() as int) =~= s);
}

/// The two halves of a text and what parts them make up the text.
pub proof fn split_once_joins(s: Seq<char>, c: char)
    ensures
        match split_once(s, c) {
            Some((a, b)) => a + seq![c] + b == s,
            None => true,
        },
{
    char_from_props(s, c, 0);
    let i = char_from(s, c, 0);
    if i < s.len() {
        assert(s.subrange(0, i) + seq![c] + s.subrange(i + 1, s.len() as int) =~= s);
    }
}

/// `s` without the `c` at its end.
pub open spec fn trimmed_end(s: Seq<char>, c: char) -> Seq<char>
    decreases s.len(),
{
    if s.len() > 0 && s.last() == c {
        trimmed_end(s.drop_last(), c)
    } else {
        s
    }
}

/// `s` without the `c` at its end.
pub fn trim_end_char(s: &str, c: char) -> (r: String)
    ensures
        r@ == trimmed_end(s@, c),
{
    let v = chars_of(s);
    let mut n: usize = v.len();
    proof {
        assert(v@.subrange(0, n as int) =~= s@);
    }
    while n > 0 && v[n - 1] == c
        invariant
            n <= v@.len(),
            trimmed_end(v@.subrange(0, n as int), c) == trimmed_end(s@, c),
        decreases n,
    {
        proof {
            assert(v@.subrange(0, n as int).drop_last() =~= v@.subrange(0, n - 1));
        }
        n -= 1;
    }
    string_of(&v, 0, n)
}

/// A byte that percent encoding keeps: an unreserved character of RFC 3986.
pub open spec fn is_unreserved(b: u8) -> bool {
    (65 <= b <= 90) || (97 <= b <= 122) || (48 <= b <= 57) || b == 45 || b == 46 || b == 95 || b == 126
}

/// The upper-case hexadecimal digit of a number below sixteen.
pub open spec fn hex_digit(n: u8) -> char {
    if n < 10 { (48 + n) as char } else { (55 + n) as char }
}

/// One byte, percent-encoded unless it is unreserved.
pub open spec fn encoded_byte(b: u8) -> Seq<char> {
    if is_unreserved(b) {
        seq![b as char]
    } else {
        seq!['%', hex_digit((b / 16) as u8), hex_digit((b % 16) as u8)]
    }
}

/// The first `n` bytes, percent-encoded.
pub open spec fn encoded_bytes(bytes: Seq<u8>, n: nat) -> Seq<char>
    decreases n,
{
    if n == 0 || n > bytes.len() {
        Seq::empty()
    } else {
        encoded_bytes(bytes, (n - 1) as nat) + encoded_byte(bytes[n - 1])
    }
}

/// `s`, percent-encoded as one URL component.
pub open spec fn percent_encoded(s: Seq<char>) -> Seq<char> {
    encoded_bytes(encode_utf8(s), encode_utf8(s).len())
}

fn push_hex(out: &mut String, n: u8)
    requires
        n < 16,
    ensures
        final(out)@ == old(out)@.push(hex_digit(n)),
{
    if n < 10 {
        out.push((48 + n) as char);
    } else {
        out.push((55 + n) as char);
    }
}

/// Percent-encodes `s` as one URL component.
pub fn percent_encode(s: &str) -> (r: String)
    ensures
        r@ == percent_encoded(s@),
{
    let bytes = s.as_bytes();
    let mut out = String::new();
    let mut i: usize = 0;
    while i < bytes.len()
        invariant
            i <= bytes@.len(),
            bytes@ == encode_utf8(s@),
            out@ == encoded_bytes(bytes@, i as nat),
        decreases bytes@.len() - i,
    {
        let b = bytes[i];
        let ghost before = out@;
        let keep = (65 <= b && b <= 90) || (97 <= b && b <= 122) || (48 <= b && b <= 57) || b == 45 || b == 46 || b == 95
            || b == 126;
        if keep {
            out.push(b as char);
        } else {
            out.push('%');
            push_hex(&mut out, b / 16);
            push_hex(&mut out, b % 16);
        }
        proof {
            assert(out@ =~= before + encoded_byte(b));
        }
        i += 1;
    }
    out
}

/// A character that a percent-encoded component may hold.
pub open spec fn is_component_char(c: char) -> bool {
    c == '%' || ((c as u32) < 128 && is_unreserved(c as u8))
}

/// Percent encoding leaves only unreserved characters and `%`.
pub proof fn percent_encoded_alphabet(bytes: Seq<u8>, n: nat)
    requires
        n <= bytes.len(),
    ensures
        forall|i: int| 0 <= i < encoded_bytes(bytes, n).len() ==> is_component_char(#[trigger] encoded_bytes(bytes, n)[i]),
    decreases n,
{
    if n > 0 {
        percent_encoded_alphabet(bytes, (n - 1) as nat);
        let b = bytes[n - 1];
        assert forall|i: int| 0 <= i < encoded_byte(b).len() implies is_component_char(#[trigger] encoded_byte(b)[i]) by {
        }
        let prev = encoded_bytes(bytes, (n - 1) as nat);
        assert forall|i: int| 0 <= i < encoded_bytes(bytes, n).len() implies is_component_char(
            #[trigger] encoded_bytes(bytes, n)[i],
        ) by {
            if i < prev.len() {
                assert(encoded_bytes(bytes, n)[i] == prev[i]);
            } else {
                assert(encoded_bytes(bytes, n)[i] == encoded_byte(b)[i - prev.len()]);
            }
        }
    }
}

proof fn encoded_front(bytes: Seq<u8>, n: nat)
    requires
        0 < n <= bytes.len(),
    ensures
        encoded_bytes(bytes, n) == encoded_byte(bytes[0]) + encoded_bytes(bytes.skip(1), (n - 1) as nat),
    decreases n,
{
    let rest = bytes.skip(1);
    if n == 1 {
        assert(encoded_bytes(bytes, 0) == Seq::<char>::empty());
        assert(Seq::<char>::empty() + encoded_byte(bytes[0]) =~= encoded_byte(bytes[0]) + Seq::<char>::empty());
    } else {
        let q = (n - 1) as nat;
        encoded_front(bytes, q);
        assert(rest[n - 2] == bytes[n - 1]);
        let mid = encoded_bytes(rest, (q - 1) as nat);
        assert((encoded_byte(bytes[0]) + mid) + encoded_byte(bytes[n - 1]) =~= encoded_byte(bytes[0]) + (mid
            + encoded_byte(bytes[n - 1])));
    }
}

proof fn hex_digits_differ(a: u8, b: u8)
    requires
        a < 16,
        b < 16,
        hex_digit(a) == hex_digit(b),
    ensures
        a == b,
{
    assert(hex_digit(a) as u32 == (if a < 10 { 48 + a } else { 55 + a }));
    assert(hex_digit(b) as u32 == (if b < 10 { 48 + b } else { 55 + b }));
}

proof fn encoded_bytes_differ(a: Seq<u8>, b: Seq<u8>)
    requires
        encoded_bytes(a, a.len()) == encoded_bytes(b, b.len()),
    ensures
        a == b,
    decreases a.len(),
{
    let ea = encoded_bytes(a, a.len());
    let eb = encoded_bytes(b, b.len());
    if a.len() > 0 {
        encoded_front(a, a.len());
        assert(ea.len() > 0);
    }
    if b.len() > 0 {
        encoded_front(b, b.len());
        assert(eb.len() > 0);
    }
    if a.len() > 0 {
        let x = a[0];
        let y = b[0];
        let ra = encoded_bytes(a.skip(1), (a.len() - 1) as nat);
        let rb = encoded_bytes(b.skip(1), (b.len() - 1) as nat);
        assert(ea[0] == encoded_byte(x)[0] && eb[0] == encoded_byte(y)[0]);
        if is_unreserved(x) {
            assert((x as char) as u32 == x);
            assert(is_unreserved(y)) by {
                if !is_unreserved(y) {
                    assert(eb[0] == '%');
                    assert('%' as u32 == 37);
                }
            }
            assert((y as char) as u32 == y);
        } else {
            assert(ea[0] == '%');
            assert('%' as u32 == 37);
            assert(!is_unreserved(y)) by {
                if is_unreserved(y) {
                    assert((y as char) as u32 == y);
                }
            }
            assert(ea[1] == encoded_byte(x)[1] && eb[1] == encoded_byte(y)[1]);
            assert(ea[2] == encoded_byte(x)[2] && eb[2] == encoded_byte(y)[2]);
            hex_digits_differ((x / 16) as u8, (y / 16) as u8);
            hex_digits_differ((x % 16) as u8, (y % 16) as u8);
            assert(x == 16 * (x / 16) + x % 16 && y == 16 * (y / 16) + y % 16);
        }
        assert(x == y);
        let k = encoded_byte(x).len() as int;
        assert(ea.skip(k) =~= ra);
        assert(eb.skip(k) =~= rb);
        encoded_bytes_differ(a.skip(1), b.skip(1));
        assert(a =~= seq![x] + a.skip(1));
        assert(b =~= seq![y] + b.skip(1));
    } else {
        assert(a =~= b);
    }
}

/// The number that an upper-case hexadecimal digit stands for.
pub open spec fn hex_value(c: char) -> int {
    if c as u32 <= 57 {
        c as u32 - 48
    } else {
        c as u32 - 55
    }
}

/// The bytes that a percent-encoded text stands for.
pub open spec fn percent_decoded(s: Seq<char>) -> Seq<u8>
    decreases s.len(),
{
    if s.len() == 0 {
        Seq::empty()
    } else if s[0] == '%' && s.len() >= 3 {
        seq![(16 * hex_value(s[1]) + hex_value(s[2])) as u8] + percent_decoded(s.skip(3))
    } else {
        seq![s[0] as u8] + percent_decoded(s.skip(1))
    }
}

proof fn hex_digit_is_read(n: u8)
    requires
        n < 16,
    ensures
        hex_value(hex_digit(n)) == n,
{
    assert(hex_digit(n) as u32 == (if n < 10 { 48 + n } else { 55 + n }));
}

proof fn encoded_bytes_are_decoded(bytes: Seq<u8>)
    ensures
        percent_decoded(encoded_bytes(bytes, bytes.len())) == bytes,
    decreases bytes.len(),
{
    let e = encoded_bytes(bytes, bytes.len());
    if bytes.len() > 0 {
        encoded_front(bytes, bytes.len());
        let b = bytes[0];
        let rest = encoded_bytes(bytes.skip(1), (bytes.len() - 1) as nat);
        encoded_bytes_are_decoded(bytes.skip(1));
        let k = encoded_byte(b).len() as int;
        assert(e.skip(k) =~= rest);
        assert(e[0] == encoded_byte(b)[0]);
        assert('%' as u32 == 37);
        if is_unreserved(b) {
            assert((b as char) as u32 == b);
            assert(e[0] != '%');
        } else {
            assert(e[1] == encoded_byte(b)[1] && e[2] == encoded_byte(b)[2]);
            hex_digit_is_read((b / 16) as u8);
            hex_digit_is_read((b % 16) as u8);
            assert(b == 16 * (b / 16) + b % 16);
        }
        assert(bytes =~= seq![b] + bytes.skip(1));
    } else {
        assert(bytes =~= Seq::<u8>::empty());
    }
}

/// Decoding a percent-encoded text gives its bytes back.
pub proof fn percent_encoding_is_decoded(s: Seq<char>)
    ensures
        percent_decoded(percent_encoded(s)) == encode_utf8(s),
{
    encoded_bytes_are_decoded(encode_utf8(s));
}

/// Percent encoding keeps different texts different.
pub proof fn percent_encoding_is_lossless(a: Seq<char>, b: Seq<char>)
    requires
        percent_encoded(a) == percent_encoded(b),
    ensures
        a == b,
{
    encoded_bytes_differ(encode_utf8(a), encode_utf8(b));
    encode_utf8_decode_utf8(a);
    encode_utf8_decode_utf8(b);
}

/// A white-space character.
pub open spec fn is_space(c: char) -> bool {
    let n = c as u32;
    9 <= n <= 13 || n == 32 || n == 0x85 || n == 0xa0 || n == 0x1680 || 0x2000 <= n <= 0x200a || n == 0x2028 || n
        == 0x2029 || n == 0x202f || n == 0x205f || n == 0x3000
}

/// `s` without white space at its ends.
pub open spec fn trimmed(s: Seq<char>) -> Seq<char>
    decreases s.len(),
{
    if s.len() == 0 {
        s
    } else if is_space(s[0]) {
        trimmed(s.skip(1))
    } else if is_space(s.last()) {
        trimmed(s.drop_last())
    } else {
        s
    }
}

fn is_white(c: char) -> (r: bool)
    ensures
        r == is_space(c),
{
    let n: u32 = c as u32;
    (9 <= n && n <= 13) || n == 32 || n == 0x85 || n == 0xa0 || n == 0x1680 || (0x2000 <= n && n <= 0x200a) || n
        == 0x2028 || n == 0x2029 || n == 0x202f || n == 0x205f || n == 0x3000
}

/// Removes white space at both ends.
pub fn trim(s: &str) -> (r: String)
    ensures
        r@ == trimmed(s@),
{
    let v = chars_of(s);
    let mut lo: usize = 0;
    let mut hi: usize = v.len();
    proof {
        assert(v@.subrange(0, hi as int) =~= s@);
    }
    while lo < hi && is_white(v[lo])
        invariant
            lo <= hi == v@.len(),
            trimmed(v@.subrange(lo as int, hi as int)) == trimmed(s@),
        decreases hi - lo,
    {
        proof {
            assert(v@.subrange(lo as int, hi as int).skip(1) =~= v@.subrange(lo + 1, hi as int));
        }
        lo += 1;
    }
    while lo < hi && is_white(v[hi - 1])
        invariant
            lo <= hi <= v@.len(),
            lo < hi ==> !is_space(v@[lo as int]),
            trimmed(v@.subrange(lo as int, hi as int)) == trimmed(s@),
        decreases hi - lo,
    {
        proof {
            assert(v@.subrange(lo as int, hi as int).drop_last() =~= v@.subrange(lo as int, hi - 1));
        }
        hi -= 1;
    }
    string_of(&v, lo, hi)
}

} // verus!
