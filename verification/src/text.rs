//! Text helpers shared by the protocol, consent and provider modules.

use vstd::prelude::*;

verus! {

/// The characters that `char::is_whitespace` reports: those with the
/// Unicode `White_Space` property.
pub open spec fn is_white_space(c: char) -> bool {
    let u = c as u32;
    (0x9 <= u <= 0xd) || u == 0x20 || u == 0x85 || u == 0xa0 || u == 0x1680 || (0x2000 <= u
        <= 0x200a) || u == 0x2028 || u == 0x2029 || u == 0x202f || u == 0x205f || u == 0x3000
}

/// A text is blank when nothing is left of it after trimming white space.
pub open spec fn blank(s: Seq<char>) -> bool {
    forall|i: int| 0 <= i < s.len() ==> is_white_space(#[trigger] s[i])
}

/// Decides `is_white_space` for one character.
pub fn char_is_white_space(c: char) -> (res: bool)
    ensures
        res == is_white_space(c),
{
    let u = c as u32;
    (0x9 <= u && u <= 0xd) || u == 0x20 || u == 0x85 || u == 0xa0 || u == 0x1680 || (0x2000 <= u
        && u <= 0x200a) || u == 0x2028 || u == 0x2029 || u == 0x202f || u == 0x205f || u == 0x3000
}

/// `s.trim().is_empty()`: every character of `s` is white space.
pub fn is_blank(s: &str) -> (res: bool)
    ensures
        res == blank(s@),
{
    for c in iter: s.chars()
        invariant
            iter.seq() == s@,
            forall|j: int| 0 <= j < iter.index() ==> is_white_space(#[trigger] s@[j]),
    {
        if !char_is_white_space(c) {
            return false;
        }
    }
    true
}

} // verus!

verus! {

/// Appends one character to a string (`String::push`).
#[verifier::external_body]
pub(crate) fn push_char(s: &mut String, c: char)
    ensures
        final(s)@ == old(s)@.push(c),
{
    s.push(c);
}

/// Appends a string slice to a string (`String::push_str`).
#[verifier::external_body]
pub(crate) fn push_str(s: &mut String, t: &str)
    ensures
        final(s)@ == old(s)@ + t@,
{
    s.push_str(t);
}

/// The lower-case hexadecimal digit of a value below sixteen.
pub open spec fn hex_digit(n: int) -> char {
    if n < 10 {
        (('0' as int) + n) as char
    } else {
        (('a' as int) + n - 10) as char
    }
}

/// Lower-case hexadecimal text of a byte string, two digits per byte, high
/// nibble first.
pub open spec fn hex_lower(bytes: Seq<u8>) -> Seq<char>
    decreases bytes.len(),
{
    if bytes.len() == 0 {
        Seq::empty()
    } else {
        hex_lower(bytes.drop_last()) + seq![
            hex_digit(bytes.last() as int / 16),
            hex_digit(bytes.last() as int % 16),
        ]
    }
}

fn nibble_char(n: u8) -> (c: char)
    requires
        n < 16,
    ensures
        c == hex_digit(n as int),
{
    if n < 10 {
        ((48u8 + n) as char)
    } else {
        ((87u8 + n) as char)
    }
}

/// Lower-case hexadecimal encoding of bytes, as `hex::encode` gives it.
pub fn hex_encode(bytes: &[u8]) -> (res: String)
    ensures
        res@ == hex_lower(bytes@),
{
    let mut res = String::new();
    let n = bytes.len();
    let mut i: usize = 0;
    while i < n
        invariant
            n == bytes@.len(),
            i <= n,
            res@ == hex_lower(bytes@.take(i as int)),
        decreases n - i,
    {
        let b = bytes[i];
        push_char(&mut res, nibble_char(b / 16));
        push_char(&mut res, nibble_char(b % 16));
        assert(bytes@.take(i + 1).drop_last() == bytes@.take(i as int));
        i = i + 1;
    }
    assert(bytes@.take(n as int) == bytes@);
    res
}

/// Decimal text of a natural number, without leading zeros.
pub open spec fn decimal(n: nat) -> Seq<char>
    decreases n,
{
    if n < 10 {
        seq![(('0' as int) + n) as char]
    } else {
        decimal(n / 10) + seq![(('0' as int) + n % 10) as char]
    }
}

/// Decimal text of an unsigned number, as `Display` writes it.
pub fn u64_decimal(n: u64) -> (res: String)
    ensures
        res@ == decimal(n as nat),
    decreases n,
{
    if n < 10 {
        let mut s = String::new();
        push_char(&mut s, ((48u8 + n as u8) as char));
        s
    } else {
        let mut s = u64_decimal(n / 10);
        push_char(&mut s, ((48u8 + (n % 10) as u8) as char));
        s
    }
}

/// `t` occurs in `s` starting at position `i`.
pub open spec fn occurs_at(s: Seq<char>, t: Seq<char>, i: int) -> bool {
    0 <= i && i + t.len() <= s.len() && s.subrange(i, i + t.len()) == t
}

/// `t` occurs somewhere in `s`.
pub open spec fn contains(s: Seq<char>, t: Seq<char>) -> bool {
    exists|i: int| occurs_at(s, t, i)
}

/// `s` begins with `t`.
pub open spec fn starts_with(s: Seq<char>, t: Seq<char>) -> bool {
    occurs_at(s, t, 0)
}

} // verus!

verus! {

/// The characters of a string slice, in order.
pub fn chars_of(s: &str) -> (res: Vec<char>)
    ensures
        res@ == s@,
{
    let mut res: Vec<char> = Vec::new();
    for c in iter: s.chars()
        invariant
            iter.seq() == s@,
            res@ == s@.take(iter.index()),
    {
        res.push(c);
        assert(s@.take(iter.index() + 1) == s@.take(iter.index()).push(c));
    }
    assert(s@.take(s@.len() as int) == s@);
    res
}

fn matches_at(s: &Vec<char>, t: &Vec<char>, i: usize) -> (res: bool)
    requires
        i + t@.len() <= s@.len(),
    ensures
        res == occurs_at(s@, t@, i as int),
{
    let n = t.len();
    let sl = s.len();
    let mut j: usize = 0;
    while j < n
        invariant
            n == t@.len(),
            sl == s@.len(),
            i + n <= sl,
            j <= n,
            forall|k: int| 0 <= k < j ==> s@[i + k] == t@[k],
        decreases n - j,
    {
        if s[i + j] != t[j] {
            assert(s@.subrange(i as int, i + n)[j as int] != t@[j as int]);
            return false;
        }
        j = j + 1;
    }
    assert(s@.subrange(i as int, i + n) =~= t@);
    true
}

/// `s.contains(t)` for a string pattern.
pub fn str_contains(s: &str, t: &str) -> (res: bool)
    ensures
        res == contains(s@, t@),
{
    let sv = chars_of(s);
    let tv = chars_of(t);
    if tv.len() > sv.len() {
        return false;
    }
    let last = sv.len() - tv.len();
    let mut i: usize = 0;
    loop
        invariant
            sv@ == s@,
            tv@ == t@,
            last == sv@.len() - tv@.len(),
            i <= last,
            forall|k: int| 0 <= k < i ==> !occurs_at(s@, t@, k),
        decreases last - i,
    {
        if matches_at(&sv, &tv, i) {
            return true;
        }
        if i == last {
            assert forall|k: int| !occurs_at(s@, t@, k) by {
                if 0 <= k <= last {
                    assert(k < i || k == i);
                }
            }
            return false;
        }
        i = i + 1;
    }
}

/// `s.starts_with(t)` for a string pattern.
pub fn str_starts_with(s: &str, t: &str) -> (res: bool)
    ensures
        res == starts_with(s@, t@),
{
    let sv = chars_of(s);
    let tv = chars_of(t);
    if tv.len() > sv.len() {
        return false;
    }
    matches_at(&sv, &tv, 0)
}

} // verus!

verus! {

/// Compares a string with a string slice.
pub fn str_eq(a: &String, b: &str) -> (res: bool)
    ensures
        res == (a@ == b@),
{
    let t = b.to_owned();
    *a == t
}

} // verus!

verus! {

/// The lower-case mapping of a text, as `str::to_lowercase` gives it.
pub uninterp spec fn lowercase(s: Seq<char>) -> Seq<char>;

/// Every character is ASCII.
pub open spec fn is_ascii_text(s: Seq<char>) -> bool {
    forall|i: int| 0 <= i < s.len() ==> (#[trigger] s[i] as u32) < 128
}

/// The ASCII lower-case form of a character: `A` to `Z` become `a` to `z`,
/// everything else stays.
pub open spec fn ascii_lower_char(c: char) -> char {
    if 'A' <= c && c <= 'Z' {
        ((c as u32) + 32) as char
    } else {
        c
    }
}

/// The ASCII lower-case form of a text.
pub open spec fn ascii_lowercase(s: Seq<char>) -> Seq<char> {
    s.map_values(|c: char| ascii_lower_char(c))
}

/// `str::to_lowercase`: the result is named `lowercase` of the input; on an
/// ASCII text it maps `A` to `Z` to `a` to `z` and keeps every other
/// character, as `char::to_lowercase` does for ASCII.
#[verifier::external_body]
pub(crate) fn to_lowercase(s: &str) -> (res: String)
    ensures
        res@ == lowercase(s@),
        is_ascii_text(s@) ==> res@ == ascii_lowercase(s@),
{
    s.to_lowercase()
}

/// A string holding a copy of a string slice.
pub fn owned(s: &str) -> (res: String)
    ensures
        res@ == s@,
{
    s.to_owned()
}

} // verus!

verus! {

/// A copy of an optional string.
pub fn clone_opt(o: &Option<String>) -> (res: Option<String>)
    ensures
        res == *o,
{
    match o {
        Some(s) => Some(s.clone()),
        None => None,
    }
}

} // verus!

verus! {

/// Decimal text of an integer, with a minus sign when it is negative.
pub open spec fn signed_decimal(i: int) -> Seq<char> {
    if i < 0 {
        seq!['-'] + decimal((-i) as nat)
    } else {
        decimal(i as nat)
    }
}

/// Decimal text of a signed number, as `Display` writes it.
pub fn i64_decimal(i: i64) -> (res: String)
    ensures
        res@ == signed_decimal(i as int),
{
    if i < 0 {
        let magnitude: u64 = ((-(i + 1)) as u64) + 1;
        let digits = u64_decimal(magnitude);
        let mut res = String::new();
        push_char(&mut res, '-');
        push_str(&mut res, digits.as_str());
        res
    } else {
        u64_decimal(i as u64)
    }
}

} // verus!

verus! {

/// Two concatenations with first parts of the same length agree part by
/// part.
pub proof fn lemma_split_eq<A>(x1: Seq<A>, r1: Seq<A>, x2: Seq<A>, r2: Seq<A>)
    requires
        x1 + r1 == x2 + r2,
        x1.len() == x2.len(),
    ensures
        x1 == x2,
        r1 == r2,
{
    assert(x1 =~= (x1 + r1).take(x1.len() as int));
    assert(x2 =~= (x2 + r2).take(x2.len() as int));
    assert(r1 =~= (x1 + r1).skip(x1.len() as int));
    assert(r2 =~= (x2 + r2).skip(x2.len() as int));
}

} // verus!

verus! {

/// A decimal digit.
pub open spec fn is_digit(c: char) -> bool {
    '0' <= c && c <= '9'
}

proof fn lemma_decimal_digits(n: nat)
    ensures
        decimal(n).len() > 0,
        forall|i: int| 0 <= i < decimal(n).len() ==> is_digit(#[trigger] decimal(n)[i]),
        decimal(n).len() == 1 <==> n < 10,
    decreases n,
{
    if n >= 10 {
        lemma_decimal_digits(n / 10);
        let d = decimal(n);
        assert forall|i: int| 0 <= i < d.len() implies is_digit(#[trigger] d[i]) by {
            if i < d.len() - 1 {
                assert(d[i] == decimal(n / 10)[i]);
            }
        }
    }
}

proof fn lemma_decimal_injective(a: nat, b: nat)
    requires
        decimal(a) == decimal(b),
    ensures
        a == b,
    decreases a,
{
    lemma_decimal_digits(a);
    lemma_decimal_digits(b);
    if a < 10 {
        assert(decimal(a)[0] as int == 48 + a);
        assert(decimal(b)[0] as int == 48 + b);
    } else {
        let da = decimal(a);
        let db = decimal(b);
        assert(da.last() as int == 48 + a % 10);
        assert(db.last() as int == 48 + b % 10);
        assert(da.drop_last() =~= decimal(a / 10));
        assert(db.drop_last() =~= decimal(b / 10));
        lemma_decimal_injective(a / 10, b / 10);
    }
}

/// Decimal text ends at the first character that is not a digit: followed
/// by one, it decides the number.
pub proof fn lemma_decimal_prefix(a: nat, b: nat, r1: Seq<char>, r2: Seq<char>)
    requires
        decimal(a) + r1 == decimal(b) + r2,
        r1.len() > 0,
        r2.len() > 0,
        !is_digit(r1[0]),
        !is_digit(r2[0]),
    ensures
        a == b,
        r1 == r2,
{
    let t = decimal(a) + r1;
    let la = decimal(a).len();
    let lb = decimal(b).len();
    lemma_decimal_digits(a);
    lemma_decimal_digits(b);
    if la < lb {
        assert(t[la as int] == r1[0]);
        assert(t[la as int] == decimal(b)[la as int]);
    }
    if lb < la {
        assert(t[lb as int] == r2[0]);
        assert(t[lb as int] == decimal(a)[lb as int]);
    }
    lemma_split_eq(decimal(a), r1, decimal(b), r2);
    lemma_decimal_injective(a, b);
}

} // verus!

verus! {

/// Signed decimal text is never empty.
pub proof fn lemma_signed_decimal_nonempty(i: int)
    ensures
        signed_decimal(i).len() > 0,
{
    if i < 0 {
        lemma_decimal_digits((-i) as nat);
    } else {
        lemma_decimal_digits(i as nat);
    }
}

} // verus!

verus! {

/// Lower-case hex text has two lower-case hex digits per byte.
pub proof fn lemma_hex_lower_shape(bytes: Seq<u8>)
    ensures
        hex_lower(bytes).len() == 2 * bytes.len(),
        forall|i: int| 0 <= i < hex_lower(bytes).len() ==> crate::ids::is_lower_hex(#[trigger] hex_lower(bytes)[i]),
    decreases bytes.len(),
{
    if bytes.len() > 0 {
        lemma_hex_lower_shape(bytes.drop_last());
        let b = bytes.last() as int;
        assert(hex_digit(b / 16) as int == if b / 16 < 10 { 48 + b / 16 } else { 87 + b / 16 });
        assert(hex_digit(b % 16) as int == if b % 16 < 10 { 48 + b % 16 } else { 87 + b % 16 });
        let h = hex_lower(bytes);
        let p = hex_lower(bytes.drop_last());
        assert forall|i: int| 0 <= i < h.len() implies crate::ids::is_lower_hex(#[trigger] h[i]) by {
            if i < p.len() {
                assert(h[i] == p[i]);
            }
        }
    }
}

} // verus!
