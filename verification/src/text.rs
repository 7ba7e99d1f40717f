//! Text as sequences of characters: searching, trimming, and the reading and
//! writing of unsigned numbers, shared by the parsers and formatters of this
//! crate.

use vstd::prelude::*;
use vstd::std_specs::iter::IteratorSpec;

verus! {

/// Appends one character to a string.
///
/// Trusted: `String::push` of the standard library, which appends the given
/// character to the end of the string.
#[verifier::external_body]
pub(crate) fn push_char(s: &mut String, c: char)
    ensures
        final(s)@ == old(s)@.push(c),
{
    s.push(c)
}

/// The characters of `s`, in order.
pub fn chars_of(s: &str) -> (v: Vec<char>)
    ensures
        v@ == s@,
{
    let mut v: Vec<char> = Vec::new();
    let chars = s.chars();
    for c in it: chars
        invariant
            it.seq() == s@,
            v@ == it.seq().take(it.index() as int),
    {
        v.push(c);
        assert(it.seq().take(it.index() + 1) =~= it.seq().take(it.index() as int).push(c));
    }
    assert(v@ =~= s@);
    v
}

/// The string made of the characters `v[from..to]`.
pub fn string_of(v: &Vec<char>, from: usize, to: usize) -> (s: String)
    requires
        from <= to <= v.len(),
    ensures
        s@ == v@.subrange(from as int, to as int),
{
    let mut s = String::new();
    let mut i: usize = from;
    while i < to
        invariant
            from <= i <= to <= v.len(),
            s@ == v@.subrange(from as int, i as int),
        decreases to - i,
    {
        push_char(&mut s, v[i]);
        assert(v@.subrange(from as int, i + 1) =~= v@.subrange(from as int, i as int).push(
            v@[i as int],
        ));
        i += 1;
    }
    s
}

/// The number of bytes that a text takes.
pub open spec fn byte_len(s: Seq<char>) -> nat {
    vstd::utf8::encode_utf8(s).len()
}

/// The number of bytes that a text takes.
pub fn text_len(s: &str) -> (r: usize)
    ensures
        r == byte_len(s@),
{
    s.as_bytes().len()
}

/// Whether two texts hold the same characters.
pub fn same_text(a: &str, b: &str) -> (r: bool)
    ensures
        r == (a@ == b@),
{
    let x = chars_of(a);
    let y = chars_of(b);
    assert(x@.subrange(0, x.len() as int) =~= x@);
    same_chars(&x, 0, x.len(), &y)
}

/// Whether `hay[from..to]` is exactly `other`.
pub fn same_chars(hay: &Vec<char>, from: usize, to: usize, other: &Vec<char>) -> (r: bool)
    requires
        from <= to <= hay.len(),
    ensures
        r == (hay@.subrange(from as int, to as int) == other@),
{
    if to - from != other.len() {
        return false;
    }
    let ghost part = hay@.subrange(from as int, to as int);
    let mut k: usize = 0;
    while k < other.len()
        invariant
            from <= to <= hay.len(),
            to - from == other.len(),
            k <= other.len(),
            part == hay@.subrange(from as int, to as int),
            forall|j: int| 0 <= j < k ==> part[j] == other@[j],
        decreases other.len() - k,
    {
        if hay[from + k] != other[k] {
            assert(part[k as int] != other@[k as int]);
            return false;
        }
        k += 1;
    }
    assert(part =~= other@);
    true
}

/// `needle` occurs in `hay` at position `at`.
pub open spec fn matches_at(hay: Seq<char>, needle: Seq<char>, at: int) -> bool {
    &&& 0 <= at
    &&& at + needle.len() <= hay.len()
    &&& hay.subrange(at, at + needle.len()) == needle
}

/// The first position at or after `from` where `needle` occurs in `hay`.
pub open spec fn find_from(hay: Seq<char>, needle: Seq<char>, from: int) -> Option<int>
    decreases hay.len() - from + 1,
{
    if from < 0 || from + needle.len() > hay.len() {
        None
    } else if matches_at(hay, needle, from) {
        Some(from)
    } else {
        find_from(hay, needle, from + 1)
    }
}

/// The first position at or after `from` where `hay` holds `c`.
pub open spec fn find_char_from(hay: Seq<char>, c: char, from: int) -> Option<int>
    decreases hay.len() - from,
{
    if from < 0 || from >= hay.len() {
        None
    } else if hay[from] == c {
        Some(from)
    } else {
        find_char_from(hay, c, from + 1)
    }
}

/// The last position where `hay` holds `c`.
pub open spec fn rfind_char(hay: Seq<char>, c: char) -> Option<int>
    decreases hay.len(),
{
    if hay.len() == 0 {
        None
    } else if hay.last() == c {
        Some(hay.len() - 1)
    } else {
        rfind_char(hay.drop_last(), c)
    }
}

/// The length of `hay` once every trailing `c` is cut off.
pub open spec fn trimmed_len(hay: Seq<char>, c: char) -> int
    decreases hay.len(),
{
    if hay.len() > 0 && hay.last() == c {
        trimmed_len(hay.drop_last(), c)
    } else {
        hay.len() as int
    }
}

/// Whether `needle` occurs in `hay` at position `at`.
pub fn has_at(hay: &Vec<char>, at: usize, needle: &Vec<char>) -> (r: bool)
    ensures
        r == matches_at(hay@, needle@, at as int),
{
    if at > hay.len() || needle.len() > hay.len() - at {
        return false;
    }
    same_chars(hay, at, at + needle.len(), needle)
}

/// The first position at or after `from` where `needle` occurs in `hay`.
pub fn find(hay: &Vec<char>, needle: &Vec<char>, from: usize) -> (r: Option<usize>)
    ensures
        r.is_some() == find_from(hay@, needle@, from as int).is_some(),
        r.is_some() ==> r.unwrap() as int == find_from(hay@, needle@, from as int).unwrap(),
        r.is_some() ==> from <= r.unwrap() && r.unwrap() + needle.len() <= hay.len(),
{
    if from > hay.len() || needle.len() > hay.len() - from {
        return None;
    }
    let last: usize = hay.len() - needle.len();
    let mut i: usize = from;
    loop
        invariant
            from <= i <= last,
            last + needle.len() == hay.len(),
            find_from(hay@, needle@, from as int) == find_from(hay@, needle@, i as int),
        decreases last - i,
    {
        if has_at(hay, i, needle) {
            return Some(i);
        }
        if i == last {
            assert(find_from(hay@, needle@, i + 1).is_none());
            return None;
        }
        i += 1;
    }
}

/// The first position at or after `from` where `hay` holds `c`.
pub fn find_char(hay: &Vec<char>, c: char, from: usize) -> (r: Option<usize>)
    ensures
        r.is_some() == find_char_from(hay@, c, from as int).is_some(),
        r.is_some() ==> r.unwrap() as int == find_char_from(hay@, c, from as int).unwrap(),
        r.is_some() ==> from <= r.unwrap() < hay.len() && hay@[r.unwrap() as int] == c,
{
    let mut i: usize = from;
    while i < hay.len()
        invariant
            from <= i,
            find_char_from(hay@, c, from as int) == find_char_from(hay@, c, i as int),
        decreases hay.len() - i,
    {
        if hay[i] == c {
            return Some(i);
        }
        i += 1;
    }
    None
}

/// The last position where `hay` holds `c`.
pub fn rfind(hay: &Vec<char>, c: char) -> (r: Option<usize>)
    ensures
        r.is_some() == rfind_char(hay@, c).is_some(),
        r.is_some() ==> r.unwrap() as int == rfind_char(hay@, c).unwrap(),
        r.is_some() ==> r.unwrap() < hay.len() && hay@[r.unwrap() as int] == c,
{
    let mut n: usize = hay.len();
    assert(hay@.take(n as int) =~= hay@);
    while n > 0
        invariant
            n <= hay.len(),
            rfind_char(hay@, c) == rfind_char(hay@.take(n as int), c),
        decreases n,
    {
        if hay[n - 1] == c {
            return Some(n - 1);
        }
        assert(hay@.take(n as int).drop_last() =~= hay@.take(n - 1));
        n -= 1;
    }
    None
}

/// The length of `hay` once every trailing `c` is cut off.
pub fn trim_end(hay: &Vec<char>, c: char) -> (n: usize)
    ensures
        n as int == trimmed_len(hay@, c),
        n <= hay.len(),
{
    let mut n: usize = hay.len();
    assert(hay@.take(n as int) =~= hay@);
    while n > 0 && hay[n - 1] == c
        invariant
            n <= hay.len(),
            trimmed_len(hay@, c) == trimmed_len(hay@.take(n as int), c),
        decreases n,
    {
        assert(hay@.take(n as int).drop_last() =~= hay@.take(n - 1));
        n -= 1;
    }
    n
}

/// What the character `c` is worth as a digit in base `radix`, if anything.
pub open spec fn digit_of(c: char, radix: int) -> Option<int> {
    let v: int = if '0' <= c <= '9' {
        c as int - '0' as int
    } else if 'a' <= c <= 'z' {
        c as int - 'a' as int + 10
    } else if 'A' <= c <= 'Z' {
        c as int - 'A' as int + 10
    } else {
        radix
    };
    if v < radix {
        Some(v)
    } else {
        None
    }
}

/// Every character is a digit of base `radix`.
pub open spec fn all_digits(s: Seq<char>, radix: int) -> bool {
    forall|i: int| 0 <= i < s.len() ==> (#[trigger] digit_of(s[i], radix)).is_some()
}

/// The number that the digits `s` write in base `radix`.
pub open spec fn digits_value(s: Seq<char>, radix: int) -> int
    decreases s.len(),
{
    if s.len() == 0 {
        0
    } else {
        digits_value(s.drop_last(), radix) * radix + digit_of(s.last(), radix).unwrap_or(0)
    }
}

/// Without its leading `+`, if it has one.
pub open spec fn unsigned_body(s: Seq<char>) -> Seq<char> {
    if s.len() > 0 && s[0] == '+' {
        s.drop_first()
    } else {
        s
    }
}

/// Reads an unsigned number: an optional `+`, then one or more digits of base
/// `radix`, worth at most `max`.
pub open spec fn parse_unsigned(s: Seq<char>, radix: int, max: int) -> Option<int> {
    let body = unsigned_body(s);
    if body.len() == 0 || !all_digits(body, radix) || digits_value(body, radix) > max {
        None
    } else {
        Some(digits_value(body, radix))
    }
}

/// The digits of a number write at least what its leading digits write.
pub proof fn lemma_digits_value_grows(s: Seq<char>, radix: int, n: int)
    requires
        2 <= radix <= 36,
        0 <= n <= s.len(),
    ensures
        0 <= digits_value(s.take(n), radix) <= digits_value(s, radix),
    decreases s.len() - n,
{
    lemma_digits_value_nonneg(s.take(n), radix);
    if n == s.len() {
        assert(s.take(n) =~= s);
    } else {
        lemma_digits_value_grows(s, radix, n + 1);
        assert(s.take(n + 1).drop_last() =~= s.take(n));
        lemma_digits_value_nonneg(s.take(n), radix);
        assert(digits_value(s.take(n), radix) * radix >= digits_value(s.take(n), radix))
            by (nonlinear_arith)
            requires
                digits_value(s.take(n), radix) >= 0,
                radix >= 2,
        ;
    }
}

/// Digits write no negative number.
pub proof fn lemma_digits_value_nonneg(s: Seq<char>, radix: int)
    requires
        2 <= radix <= 36,
    ensures
        0 <= digits_value(s, radix),
    decreases s.len(),
{
    if s.len() > 0 {
        lemma_digits_value_nonneg(s.drop_last(), radix);
        assert(digits_value(s.drop_last(), radix) * radix >= 0) by (nonlinear_arith)
            requires
                digits_value(s.drop_last(), radix) >= 0,
                radix >= 2,
        ;
    }
}

fn digit_value(c: char, radix: u8) -> (r: Option<u8>)
    requires
        2 <= radix <= 36,
    ensures
        r.is_some() == digit_of(c, radix as int).is_some(),
        r.is_some() ==> r.unwrap() as int == digit_of(c, radix as int).unwrap(),
{
    let v: u32 = if '0' <= c && c <= '9' {
        c as u32 - '0' as u32
    } else if 'a' <= c && c <= 'z' {
        c as u32 - 'a' as u32 + 10
    } else if 'A' <= c && c <= 'Z' {
        c as u32 - 'A' as u32 + 10
    } else {
        radix as u32
    };
    if v < radix as u32 {
        Some(v as u8)
    } else {
        None
    }
}

/// Reads `s[from..to]` as an unsigned number of base `radix` that fits 64
/// bits.
pub fn read_unsigned(s: &Vec<char>, from: usize, to: usize, radix: u8, max: u64) -> (r: Option<u64>)
    requires
        from <= to <= s.len(),
        2 <= radix <= 36,
    ensures
        r.is_some() == parse_unsigned(
            s@.subrange(from as int, to as int),
            radix as int,
            max as int,
        ).is_some(),
        r.is_some() ==> r.unwrap() as int == parse_unsigned(
            s@.subrange(from as int, to as int),
            radix as int,
            max as int,
        ).unwrap(),
{
    let ghost whole = s@.subrange(from as int, to as int);
    let start: usize = if from < to && s[from] == '+' {
        from + 1
    } else {
        from
    };
    let ghost body = unsigned_body(whole);
    assert(body =~= s@.subrange(start as int, to as int));
    if start == to {
        return None;
    }
    let mut acc: u64 = 0;
    let mut i: usize = start;
    assert(body.take(0) =~= Seq::<char>::empty());
    while i < to
        invariant
            start <= i <= to <= s.len(),
            start < to,
            2 <= radix <= 36,
            whole == s@.subrange(from as int, to as int),
            body == unsigned_body(whole),
            body == s@.subrange(start as int, to as int),
            all_digits(body.take(i - start), radix as int),
            acc as int == digits_value(body.take(i - start), radix as int),
            acc <= max,
        decreases to - i,
    {
        let ghost pre = body.take(i - start);
        let ghost next = body.take(i - start + 1);
        proof {
            assert(next.drop_last() =~= pre);
            assert(next.last() == s@[i as int]);
            assert(body[i - start] == s@[i as int]);
            lemma_digits_value_grows(body, radix as int, i - start + 1);
        }
        let d = match digit_value(s[i], radix) {
            Some(d) => d,
            None => {
                assert(digit_of(body[i - start], radix as int).is_none());
                return None;
            },
        };
        assert(digits_value(next, radix as int) == acc * radix + d);
        let scaled = match acc.checked_mul(radix as u64) {
            Some(v) => v,
            None => {
                return None;
            },
        };
        let sum = match scaled.checked_add(d as u64) {
            Some(v) => v,
            None => {
                return None;
            },
        };
        if sum > max {
            return None;
        }
        assert forall|j: int| 0 <= j < next.len() implies (#[trigger] digit_of(
            next[j],
            radix as int,
        )).is_some() by {
            if j < pre.len() {
                assert(next[j] == pre[j]);
            }
        }
        acc = sum;
        i += 1;
    }
    assert(body.take(to - start) =~= body);
    Some(acc)
}

/// The lower-case character that writes the digit `d` (under 16).
pub open spec fn hex_char(d: int) -> char {
    if d < 10 {
        ((d + '0' as int) as u8) as char
    } else {
        ((d - 10 + 'a' as int) as u8) as char
    }
}

/// 16 to the power of `width`.
pub open spec fn pow16(width: nat) -> nat
    decreases width,
{
    if width == 0 {
        1
    } else {
        16 * pow16((width - 1) as nat)
    }
}

/// The last `width` digits of `n` in lower-case hexadecimal, with leading
/// zeros where `n` has fewer.
pub open spec fn fixed_hex(n: nat, width: nat) -> Seq<char>
    decreases width,
{
    if width == 0 {
        Seq::empty()
    } else {
        fixed_hex(n / 16, (width - 1) as nat).push(hex_char((n % 16) as int))
    }
}

/// A number that `width` hexadecimal digits can write is read back from
/// them.
pub proof fn lemma_hex_round_trip(n: nat, width: nat, max: int)
    requires
        n < pow16(width),
        n <= max,
        width > 0,
    ensures
        parse_unsigned(fixed_hex(n, width), 16, max) == Some(n as int),
        fixed_hex(n, width).len() == width,
        all_digits(fixed_hex(n, width), 16),
        digits_value(fixed_hex(n, width), 16) == n,
{
    lemma_fixed_hex(n, width);
    let t = fixed_hex(n, width);
    assert(digit_of(t[0], 16).is_some());
    assert(unsigned_body(t) == t);
}

proof fn lemma_fixed_hex(n: nat, width: nat)
    requires
        n < pow16(width),
    ensures
        fixed_hex(n, width).len() == width,
        all_digits(fixed_hex(n, width), 16),
        digits_value(fixed_hex(n, width), 16) == n,
    decreases width,
{
    let t = fixed_hex(n, width);
    if width > 0 {
        let d = (n % 16) as int;
        assert(digit_of(hex_char(d), 16) == Some(d));
        lemma_fixed_hex(n / 16, (width - 1) as nat);
        let shorter = fixed_hex(n / 16, (width - 1) as nat);
        assert(t.drop_last() =~= shorter);
        assert forall|i: int| 0 <= i < t.len() implies (#[trigger] digit_of(t[i], 16)).is_some() by {
            if i < t.len() - 1 {
                assert(t[i] == shorter[i]);
            }
        }
        assert(digits_value(t, 16) == (n / 16) * 16 + d);
    }
}

/// Appends the last `width` digits of `n` in lower-case hexadecimal to
/// `out`.
pub fn write_fixed_hex(n: u64, width: u8, out: &mut String)
    ensures
        final(out)@ == old(out)@ + fixed_hex(n as nat, width as nat),
    decreases width,
{
    if width == 0 {
        assert(old(out)@ + fixed_hex(n as nat, 0) =~= old(out)@);
        return ;
    }
    write_fixed_hex(n / 16, width - 1, out);
    let d: u8 = (n % 16) as u8;
    let c: char = if d < 10 {
        (d + 48) as char
    } else {
        (d - 10 + 97) as char
    };
    push_char(out, c);
    assert((old(out)@ + fixed_hex((n / 16) as nat, (width - 1) as nat)).push(c) =~= old(out)@
        + fixed_hex(n as nat, width as nat));
}

/// The lower-case form of a text.
pub uninterp spec fn lowercase_of(s: Seq<char>) -> Seq<char>;

/// Puts a text in lower case.
///
/// Trusted: `str::to_lowercase` of the standard library, which gives the
/// lower-case equivalent of the text as Unicode defines it. The result
/// depends on the text alone.
#[verifier::external_body]
pub(crate) fn to_lowercase(s: &str) -> (r: String)
    ensures
        r@ == lowercase_of(s@),
{
    s.to_lowercase()
}

} // verus!
