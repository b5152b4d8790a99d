//! Text as sequences of characters: the string operations the rules are
//! written with, each stated over `Seq<char>`.

use vstd::prelude::*;
use vstd::string::*;
use vstd::utf8::*;

verus! {

/// Number of bytes of the UTF-8 encoding of `s`.
pub open spec fn utf8_len(s: Seq<char>) -> nat {
    encode_utf8(s).len()
}

/// `std::string::String::push`: appends one character.
pub assume_specification[ String::push ](s: &mut String, c: char)
    ensures
        final(s)@ == old(s)@.push(c),
;

/// The UTF-8 length of a string.
pub fn byte_len(s: &str) -> (n: usize)
    ensures
        n == utf8_len(s@),
{
    s.as_bytes().len()
}

/// Whether two strings hold the same characters.
pub fn str_eq(a: &str, b: &str) -> (r: bool)
    ensures
        r == (a@ == b@),
{
    let x: &[u8] = a.as_bytes();
    let y: &[u8] = b.as_bytes();
    if x.len() != y.len() {
        return false;
    }
    let mut i: usize = 0;
    while i < x.len()
        invariant
            i <= x.len(),
            x.len() == y.len(),
            x@ == encode_utf8(a@),
            y@ == encode_utf8(b@),
            forall|j: int| 0 <= j < i ==> x@[j] == y@[j],
        decreases x.len() - i,
    {
        if x[i] != y[i] {
            return false;
        }
        i = i + 1;
    }
    proof {
        assert(x@ =~= y@);
        encode_utf8_decode_utf8(a@);
        encode_utf8_decode_utf8(b@);
    }
    true
}

/// The characters of a string.
pub fn to_chars(s: &str) -> (v: Vec<char>)
    ensures
        v@ == s@,
{
    let mut v: Vec<char> = Vec::new();
    for c in it: s.chars()
        invariant
            it.seq() == s@,
            v@ == s@.take(it.index() as int),
    {
        v.push(c);
        proof {
            assert(s@.take(it.index() as int + 1) =~= s@.take(it.index() as int).push(c));
        }
    }
    proof {
        assert(s@.take(s@.len() as int) =~= s@);
    }
    v
}

/// The string made of `v[from..to]`.
pub fn chars_to_string(v: &Vec<char>, from: usize, to: usize) -> (s: String)
    requires
        from <= to <= v@.len(),
    ensures
        s@ == v@.subrange(from as int, to as int),
{
    let mut s: String = String::new();
    let mut i: usize = from;
    while i < to
        invariant
            from <= i <= to,
            to <= v@.len(),
            s@ == v@.subrange(from as int, i as int),
        decreases to - i,
    {
        s.push(v[i]);
        i = i + 1;
        proof {
            assert(v@.subrange(from as int, i as int) =~= v@.subrange(
                from as int,
                i as int - 1,
            ).push(v@[i as int - 1]));
        }
    }
    s
}

/// A copy of a string slice.
pub fn copy(s: &str) -> (r: String)
    ensures
        r@ == s@,
{
    s.to_owned()
}

/// `a` followed by `b`.
pub fn join2(a: &str, b: &str) -> (r: String)
    ensures
        r@ == a@ + b@,
{
    let mut r: String = a.to_owned();
    r.append(b);
    r
}

/// `a`, `b` and `c` one after the other.
pub fn join3(a: &str, b: &str, c: &str) -> (r: String)
    ensures
        r@ == a@ + b@ + c@,
{
    let mut r: String = a.to_owned();
    r.append(b);
    r.append(c);
    r
}

/// `a`, `b`, `c` and `d` one after the other.
pub fn join4(a: &str, b: &str, c: &str, d: &str) -> (r: String)
    ensures
        r@ == a@ + b@ + c@ + d@,
{
    let mut r: String = a.to_owned();
    r.append(b);
    r.append(c);
    r.append(d);
    r
}

/// `a` to `e` one after the other.
pub fn join5(a: &str, b: &str, c: &str, d: &str, e: &str) -> (r: String)
    ensures
        r@ == a@ + b@ + c@ + d@ + e@,
{
    let mut r: String = a.to_owned();
    r.append(b);
    r.append(c);
    r.append(d);
    r.append(e);
    r
}

/// The decimal digit `d`.
pub open spec fn digit_char(d: nat) -> char {
    (('0' as u32) + d) as u32 as char
}

/// The decimal notation of `n`.
pub open spec fn decimal(n: nat) -> Seq<char>
    decreases n,
{
    if n < 10 {
        seq![digit_char(n)]
    } else {
        decimal(n / 10).push(digit_char(n % 10))
    }
}

fn digit(d: u64) -> (c: char)
    requires
        d < 10,
    ensures
        c == digit_char(d as nat),
{
    if d == 0 {
        '0'
    } else if d == 1 {
        '1'
    } else if d == 2 {
        '2'
    } else if d == 3 {
        '3'
    } else if d == 4 {
        '4'
    } else if d == 5 {
        '5'
    } else if d == 6 {
        '6'
    } else if d == 7 {
        '7'
    } else if d == 8 {
        '8'
    } else {
        '9'
    }
}

/// The decimal notation of an unsigned number.
pub fn decimal_text(n: u64) -> (s: String)
    ensures
        s@ == decimal(n as nat),
    decreases n,
{
    if n < 10 {
        let mut s: String = String::new();
        s.push(digit(n));
        proof {
            assert(s@ =~= decimal(n as nat));
        }
        s
    } else {
        let mut s: String = decimal_text(n / 10);
        s.push(digit(n % 10));
        s
    }
}

/// A decimal digit.
pub open spec fn is_digit(c: char) -> bool {
    '0' <= c && c <= '9'
}

/// The number that digits stand for.
pub open spec fn digits_value(s: Seq<char>) -> nat
    decreases s.len(),
{
    if s.len() == 0 {
        0
    } else {
        digits_value(s.drop_last()) * 10 + ((s.last() as u32 - '0' as u32) as nat)
    }
}

/// All characters are digits.
pub open spec fn all_digits(s: Seq<char>) -> bool {
    forall|i: int| 0 <= i < s.len() ==> is_digit(#[trigger] s[i])
}

/// The digits of a number, which a plus sign may precede.
pub open spec fn number_digits(s: Seq<char>) -> Seq<char> {
    if s.len() > 0 && s[0] == '+' {
        s.drop_first()
    } else {
        s
    }
}

/// The unsigned number that a text stands for, if it fits.
pub open spec fn number_of(s: Seq<char>) -> Option<u64> {
    let d = number_digits(s);
    if d.len() > 0 && all_digits(d) && digits_value(d) <= u64::MAX {
        Some(digits_value(d) as u64)
    } else {
        None
    }
}

proof fn longer_digits_are_larger(s: Seq<char>, i: int)
    requires
        0 <= i <= s.len(),
        all_digits(s),
    ensures
        digits_value(s.take(i)) <= digits_value(s),
    decreases s.len() - i,
{
    if i < s.len() {
        let t = s.take(i + 1);
        assert(t.drop_last() =~= s.take(i));
        assert(is_digit(s[i]));
        longer_digits_are_larger(s, i + 1);
    } else {
        assert(s.take(i) =~= s);
    }
}

/// The unsigned number that a text stands for, if it fits.
pub fn parse_number(s: &str) -> (r: Option<u64>)
    ensures
        r == number_of(s@),
{
    let v: Vec<char> = to_chars(s);
    let from: usize = if v.len() > 0 && v[0] == '+' {
        1
    } else {
        0
    };
    let ghost d = number_digits(s@);
    proof {
        assert(d =~= v@.subrange(from as int, v@.len() as int));
    }
    if from == v.len() {
        return None;
    }
    let mut value: u64 = 0;
    let mut i: usize = from;
    proof {
        assert(d.take(0) =~= Seq::<char>::empty());
    }
    while i < v.len()
        invariant
            from <= i <= v@.len(),
            d == v@.subrange(from as int, v@.len() as int),
            forall|k: int| 0 <= k < i - from ==> is_digit(#[trigger] d[k]),
            value == digits_value(d.take(i - from)),
            d == number_digits(s@),
        decreases v.len() - i,
    {
        let c: char = v[i];
        proof {
            assert(d[i - from] == c);
            assert(d.take(i - from + 1).drop_last() =~= d.take(i - from));
        }
        if !(c >= '0' && c <= '9') {
            return None;
        }
        let digit: u64 = (c as u32 - '0' as u32) as u64;
        if value > (u64::MAX - digit) / 10 {
            proof {
                assert(digits_value(d.take(i - from + 1)) > u64::MAX);
                if all_digits(d) {
                    longer_digits_are_larger(d, i - from + 1);
                }
            }
            return None;
        }
        value = value * 10 + digit;
        i = i + 1;
    }
    proof {
        assert(d.take(d.len() as int) =~= d);
    }
    Some(value)
}

proof fn decimal_digits(n: nat)
    ensures
        all_digits(decimal(n)),
        decimal(n).len() > 0,
        digits_value(decimal(n)) == n,
    decreases n,
{
    if n >= 10 {
        decimal_digits(n / 10);
        let s = decimal(n);
        assert(s.drop_last() =~= decimal(n / 10));
        assert(s.last() as u32 - '0' as u32 == n % 10);
        assert forall|i: int| 0 <= i < s.len() implies is_digit(#[trigger] s[i]) by {
            if i < s.len() - 1 {
                assert(s[i] == decimal(n / 10)[i]);
            }
        }
    } else {
        assert(decimal(n).drop_last() =~= Seq::<char>::empty());
        assert(digits_value(decimal(n).drop_last()) == 0);
        assert(decimal(n).last() as u32 - '0' as u32 == n);
    }
}

/// A number is read back from its decimal notation.
pub proof fn decimal_round_trip(n: u64)
    ensures
        number_of(decimal(n as nat)) == Some(n),
{
    decimal_digits(n as nat);
    assert(is_digit(decimal(n as nat)[0]));
}

/// `needle` stands in `hay` at position `i`.
pub open spec fn occurs_at(hay: Seq<char>, needle: Seq<char>, i: int) -> bool {
    0 <= i && i + needle.len() <= hay.len() && hay.subrange(i, i + needle.len()) == needle
}

/// `needle` stands somewhere in `hay`.
pub open spec fn contains_text(hay: Seq<char>, needle: Seq<char>) -> bool {
    exists|i: int| occurs_at(hay, needle, i)
}

/// Where `needle` first stands in `hay`, at or after `from`.
pub open spec fn first_at(hay: Seq<char>, needle: Seq<char>, from: int, i: int) -> bool {
    &&& from <= i
    &&& occurs_at(hay, needle, i)
    &&& forall|j: int| from <= j < i ==> !occurs_at(hay, needle, j)
}

pub open spec fn has_prefix(s: Seq<char>, p: Seq<char>) -> bool {
    p.len() <= s.len() && s.subrange(0, p.len() as int) == p
}

pub open spec fn has_suffix(s: Seq<char>, p: Seq<char>) -> bool {
    p.len() <= s.len() && s.subrange(s.len() - p.len(), s.len() as int) == p
}

fn matches_at(hay: &Vec<char>, needle: &Vec<char>, i: usize) -> (r: bool)
    ensures
        r == occurs_at(hay@, needle@, i as int),
{
    if needle.len() > hay.len() || i > hay.len() - needle.len() {
        return false;
    }
    let mut j: usize = 0;
    while j < needle.len()
        invariant
            j <= needle.len(),
            i + needle.len() <= hay.len(),
            forall|k: int| 0 <= k < j ==> hay@[i + k] == needle@[k],
        decreases needle.len() - j,
    {
        if hay[i + j] != needle[j] {
            proof {
                assert(hay@.subrange(i as int, i + needle@.len())[j as int] == hay@[i + j]);
            }
            return false;
        }
        j = j + 1;
    }
    proof {
        assert(hay@.subrange(i as int, i + needle@.len()) =~= needle@);
    }
    true
}

/// First occurrence of `needle` in `hay` at or after `from`.
pub fn find_chars(hay: &Vec<char>, needle: &Vec<char>, from: usize) -> (r: Option<usize>)
    ensures
        match r {
            Some(i) => first_at(hay@, needle@, from as int, i as int),
            None => forall|j: int| from <= j ==> !occurs_at(hay@, needle@, j),
        },
{
    let mut i: usize = from;
    while i <= hay.len()
        invariant
            from <= i,
            from <= hay@.len() ==> i <= hay@.len() + 1,
            forall|j: int| from <= j < i ==> !occurs_at(hay@, needle@, j),
        decreases hay@.len() + 1 - i,
    {
        if matches_at(hay, needle, i) {
            return Some(i);
        }
        if i == hay.len() {
            return None;
        }
        i = i + 1;
    }
    None
}

/// Whether `needle` stands in `hay`.
pub fn str_contains(hay: &str, needle: &str) -> (r: bool)
    ensures
        r == contains_text(hay@, needle@),
{
    let h: Vec<char> = to_chars(hay);
    let n: Vec<char> = to_chars(needle);
    match find_chars(&h, &n, 0) {
        Some(_) => true,
        None => {
            proof {
                assert forall|j: int| !occurs_at(hay@, needle@, j) by {
                    if 0 <= j {
                    }
                }
            }
            false
        },
    }
}

/// Whether the character `c` is in `s`.
pub fn str_has_char(s: &str, c: char) -> (r: bool)
    ensures
        r == s@.contains(c),
{
    let v: Vec<char> = to_chars(s);
    let mut i: usize = 0;
    while i < v.len()
        invariant
            i <= v.len(),
            v@ == s@,
            forall|j: int| 0 <= j < i ==> v@[j] != c,
        decreases v.len() - i,
    {
        if v[i] == c {
            return true;
        }
        i = i + 1;
    }
    false
}

/// Whether `s` begins with `p`.
pub fn str_starts_with(s: &str, p: &str) -> (r: bool)
    ensures
        r == has_prefix(s@, p@),
{
    let v: Vec<char> = to_chars(s);
    let w: Vec<char> = to_chars(p);
    matches_at(&v, &w, 0)
}

/// Whether `s` ends with `p`.
pub fn str_ends_with(s: &str, p: &str) -> (r: bool)
    ensures
        r == has_suffix(s@, p@),
{
    let v: Vec<char> = to_chars(s);
    let w: Vec<char> = to_chars(p);
    if w.len() > v.len() {
        return false;
    }
    matches_at(&v, &w, v.len() - w.len())
}

/// The characters with the Unicode property White_Space.
pub open spec fn is_white(c: char) -> bool {
    let n = c as u32;
    ||| 0x9 <= n <= 0xd
    ||| n == 0x20
    ||| n == 0x85
    ||| n == 0xa0
    ||| n == 0x1680
    ||| 0x2000 <= n <= 0x200a
    ||| n == 0x2028
    ||| n == 0x2029
    ||| n == 0x202f
    ||| n == 0x205f
    ||| n == 0x3000
}

pub fn white(c: char) -> (r: bool)
    ensures
        r == is_white(c),
{
    let n: u32 = c as u32;
    (n >= 0x9 && n <= 0xd) || n == 0x20 || n == 0x85 || n == 0xa0 || n == 0x1680 || (n >= 0x2000
        && n <= 0x200a) || n == 0x2028 || n == 0x2029 || n == 0x202f || n == 0x205f || n == 0x3000
}

/// `s` without its leading white space.
pub open spec fn trimmed_start(s: Seq<char>) -> Seq<char>
    decreases s.len(),
{
    if s.len() > 0 && is_white(s[0]) {
        trimmed_start(s.drop_first())
    } else {
        s
    }
}

/// `s` without its trailing white space.
pub open spec fn trimmed_end(s: Seq<char>) -> Seq<char>
    decreases s.len(),
{
    if s.len() > 0 && is_white(s.last()) {
        trimmed_end(s.drop_last())
    } else {
        s
    }
}

/// `s` without white space at either end.
pub open spec fn trimmed(s: Seq<char>) -> Seq<char> {
    trimmed_end(trimmed_start(s))
}

/// Index of the first character of `v[from..to]` that is not white space.
pub fn skip_white(v: &Vec<char>, from: usize, to: usize) -> (i: usize)
    requires
        from <= to <= v@.len(),
    ensures
        from <= i <= to,
        v@.subrange(i as int, to as int) == trimmed_start(v@.subrange(from as int, to as int)),
{
    let mut i: usize = from;
    while i < to && white(v[i])
        invariant
            from <= i <= to <= v@.len(),
            trimmed_start(v@.subrange(i as int, to as int)) == trimmed_start(
                v@.subrange(from as int, to as int),
            ),
        decreases to - i,
    {
        proof {
            assert(v@.subrange(i as int, to as int).drop_first() =~= v@.subrange(
                i as int + 1,
                to as int,
            ));
        }
        i = i + 1;
    }
    i
}

/// End of `v[from..to]` without its trailing white space.
pub fn drop_white(v: &Vec<char>, from: usize, to: usize) -> (j: usize)
    requires
        from <= to <= v@.len(),
    ensures
        from <= j <= to,
        v@.subrange(from as int, j as int) == trimmed_end(v@.subrange(from as int, to as int)),
{
    let mut j: usize = to;
    while j > from && white(v[j - 1])
        invariant
            from <= j <= to <= v@.len(),
            trimmed_end(v@.subrange(from as int, j as int)) == trimmed_end(
                v@.subrange(from as int, to as int),
            ),
        decreases j,
    {
        proof {
            assert(v@.subrange(from as int, j as int).drop_last() =~= v@.subrange(
                from as int,
                j as int - 1,
            ));
        }
        j = j - 1;
    }
    j
}

/// A string without white space at either end.
pub fn trim(s: &str) -> (r: String)
    ensures
        r@ == trimmed(s@),
{
    let v: Vec<char> = to_chars(s);
    let i: usize = skip_white(&v, 0, v.len());
    proof {
        assert(v@.subrange(0, v@.len() as int) =~= s@);
    }
    let j: usize = drop_white(&v, i, v.len());
    chars_to_string(&v, i, j)
}

/// The ASCII lower case of one character.
pub open spec fn lower_char(c: char) -> char {
    if 'A' <= c && c <= 'Z' {
        (c as u32 + 32) as u32 as char
    } else {
        c
    }
}

/// `s` with its ASCII letters in lower case.
pub open spec fn lower(s: Seq<char>) -> Seq<char> {
    Seq::new(s.len(), |i: int| lower_char(s[i]))
}

fn lower_of(c: char) -> (r: char)
    ensures
        r == lower_char(c),
{
    if c >= 'A' && c <= 'Z' {
        ((c as u8) + 32) as char
    } else {
        c
    }
}

/// A string with its ASCII letters in lower case.
pub fn to_lower(s: &str) -> (r: String)
    ensures
        r@ == lower(s@),
{
    let v: Vec<char> = to_chars(s);
    let mut r: String = String::new();
    let mut i: usize = 0;
    while i < v.len()
        invariant
            i <= v.len(),
            v@ == s@,
            r@ == lower(s@).take(i as int),
        decreases v.len() - i,
    {
        r.push(lower_of(v[i]));
        i = i + 1;
        proof {
            assert(lower(s@).take(i as int) =~= lower(s@).take(i as int - 1).push(
                lower_char(s@[i as int - 1]),
            ));
        }
    }
    proof {
        assert(lower(s@).take(s@.len() as int) =~= lower(s@));
    }
    r
}

/// `a` comes before `b` in the order of their characters.
pub open spec fn text_lt(a: Seq<char>, b: Seq<char>) -> bool
    decreases a.len(),
{
    if b.len() == 0 {
        false
    } else if a.len() == 0 {
        true
    } else if a[0] == b[0] {
        text_lt(a.drop_first(), b.drop_first())
    } else {
        a[0] < b[0]
    }
}

/// Whether `a` comes before `b` in the order of their characters.
pub fn str_lt(a: &str, b: &str) -> (r: bool)
    ensures
        r == text_lt(a@, b@),
{
    let x: Vec<char> = to_chars(a);
    let y: Vec<char> = to_chars(b);
    let mut i: usize = 0;
    proof {
        assert(a@.skip(0) =~= a@);
        assert(b@.skip(0) =~= b@);
    }
    while i < x.len() && i < y.len()
        invariant
            x@ == a@,
            y@ == b@,
            i <= x.len(),
            i <= y.len(),
            text_lt(a@.skip(i as int), b@.skip(i as int)) == text_lt(a@, b@),
        decreases x.len() - i,
    {
        if x[i] != y[i] {
            return x[i] < y[i];
        }
        proof {
            assert(a@.skip(i as int).drop_first() =~= a@.skip(i as int + 1));
            assert(b@.skip(i as int).drop_first() =~= b@.skip(i as int + 1));
        }
        i = i + 1;
    }
    i < y.len()
}

/// The order of texts is irreflexive.
pub proof fn text_lt_irreflexive(a: Seq<char>)
    ensures
        !text_lt(a, a),
    decreases a.len(),
{
    if a.len() > 0 {
        text_lt_irreflexive(a.drop_first());
    }
}

/// The order of texts is transitive.
pub proof fn text_lt_transitive(a: Seq<char>, b: Seq<char>, c: Seq<char>)
    requires
        text_lt(a, b),
        text_lt(b, c),
    ensures
        text_lt(a, c),
    decreases a.len(),
{
    if a.len() > 0 && a[0] == b[0] && b[0] == c[0] {
        text_lt_transitive(a.drop_first(), b.drop_first(), c.drop_first());
    }
}

/// Two texts are equal or one comes before the other.
pub proof fn text_lt_total(a: Seq<char>, b: Seq<char>)
    ensures
        a == b || text_lt(a, b) || text_lt(b, a),
    decreases a.len(),
{
    if a.len() > 0 && b.len() > 0 && a[0] == b[0] {
        text_lt_total(a.drop_first(), b.drop_first());
        if a.drop_first() == b.drop_first() {
            assert(a =~= seq![a[0]] + a.drop_first());
            assert(b =~= seq![b[0]] + b.drop_first());
        }
    } else if a.len() == 0 && b.len() == 0 {
        assert(a =~= b);
    }
}

/// Encoding distributes over concatenation.
pub proof fn encode_concat(a: Seq<char>, b: Seq<char>)
    ensures
        encode_utf8(a + b) == encode_utf8(a) + encode_utf8(b),
    decreases a.len(),
{
    if a.len() == 0 {
        assert(a + b =~= b);
        assert(encode_utf8(a) =~= Seq::<u8>::empty());
        assert(encode_utf8(a) + encode_utf8(b) =~= encode_utf8(b));
    } else {
        encode_concat(a.drop_first(), b);
        assert((a + b).drop_first() =~= a.drop_first() + b);
        assert(encode_utf8(a + b) =~= encode_utf8(a) + encode_utf8(b));
    }
}

/// Length of the longest prefix of `s` whose encoding fits into `max` bytes.
pub open spec fn fit_len(s: Seq<char>, max: nat) -> nat
    decreases s.len(),
{
    if utf8_len(s) <= max {
        s.len()
    } else if s.len() == 0 {
        0
    } else {
        fit_len(s.drop_last(), max)
    }
}

/// The longest prefix of `s` whose encoding fits into `max` bytes.
pub open spec fn fitted(s: Seq<char>, max: nat) -> Seq<char> {
    s.take(fit_len(s, max) as int)
}

/// The fitted prefix fits, and no longer prefix does.
pub proof fn fitted_is_longest(s: Seq<char>, max: nat)
    ensures
        fit_len(s, max) <= s.len(),
        utf8_len(fitted(s, max)) <= max,
        forall|k: int|
            fit_len(s, max) < k <= s.len() ==> utf8_len(#[trigger] s.take(k)) > max,
    decreases s.len(),
{
    if utf8_len(s) <= max {
        assert(s.take(s.len() as int) =~= s);
    } else if s.len() == 0 {
        assert(utf8_len(s) == 0);
    } else {
        let t = s.drop_last();
        fitted_is_longest(t, max);
        assert(fitted(s, max) =~= fitted(t, max));
        assert forall|k: int| fit_len(s, max) < k <= s.len() implies utf8_len(
            #[trigger] s.take(k),
        ) > max by {
            if k == s.len() {
                assert(s.take(k) =~= s);
            } else {
                assert(s.take(k) =~= t.take(k));
            }
        }
    }
}

/// The longest prefix of a string whose encoding fits into `max` bytes.
pub fn truncate_at_char_boundary(s: &str, max: usize) -> (r: String)
    ensures
        r@ == fitted(s@, max as nat),
{
    let v: Vec<char> = to_chars(s);
    let mut n: usize = v.len();
    let mut r: String = chars_to_string(&v, 0, n);
    proof {
        assert(v@.subrange(0, v@.len() as int) =~= s@);
        assert(s@.take(s@.len() as int) =~= s@);
    }
    while byte_len(r.as_str()) > max
        invariant
            v@ == s@,
            n <= v.len(),
            r@ == s@.take(n as int),
            fit_len(s@.take(n as int), max as nat) == fit_len(s@, max as nat),
        decreases n,
    {
        proof {
            if n == 0 {
                assert(r@ =~= Seq::<char>::empty());
                assert(utf8_len(r@) == 0);
            }
            assert(s@.take(n as int).drop_last() =~= s@.take(n as int - 1));
        }
        n = n - 1;
        r = chars_to_string(&v, 0, n);
        proof {
            assert(v@.subrange(0, n as int) =~= s@.take(n as int));
        }
    }
    r
}

/// A text without a character at its end, however often it stands there.
pub open spec fn without_trailing(s: Seq<char>, c: char) -> Seq<char>
    decreases s.len(),
{
    if s.len() > 0 && s.last() == c {
        without_trailing(s.drop_last(), c)
    } else {
        s
    }
}

/// A string without a character at its end, however often it stands there.
pub fn trim_end_char(s: &str, c: char) -> (r: String)
    ensures
        r@ == without_trailing(s@, c),
{
    let w: Vec<char> = to_chars(s);
    let mut end: usize = w.len();
    proof {
        assert(w@.take(end as int) =~= w@);
    }
    while end > 0 && w[end - 1] == c
        invariant
            end <= w@.len(),
            without_trailing(w@.take(end as int), c) == without_trailing(w@, c),
        decreases end,
    {
        proof {
            assert(w@.take(end as int).drop_last() =~= w@.take(end as int - 1));
        }
        end = end - 1;
    }
    proof {
        assert(w@.subrange(0, end as int) =~= w@.take(end as int));
    }
    chars_to_string(&w, 0, end)
}

/// A string without white space at its start.
pub fn trim_start(s: &str) -> (r: String)
    ensures
        r@ == trimmed_start(s@),
{
    let v: Vec<char> = to_chars(s);
    let n: usize = v.len();
    let i: usize = skip_white(&v, 0, n);
    proof {
        assert(v@.subrange(0, v@.len() as int) =~= s@);
    }
    chars_to_string(&v, i, n)
}

/// Where `sep` first stands in `s`, at or after `i`.
pub open spec fn index_from(s: Seq<char>, sep: Seq<char>, i: int) -> Option<int>
    decreases s.len() + 1 - i,
{
    if i + sep.len() > s.len() {
        None
    } else if occurs_at(s, sep, i) {
        Some(i)
    } else {
        index_from(s, sep, i + 1)
    }
}

/// The parts of `s` before and after the first `sep`.
pub open spec fn parted(s: Seq<char>, sep: Seq<char>) -> Option<(Seq<char>, Seq<char>)> {
    match index_from(s, sep, 0) {
        Some(i) => Some((s.take(i), s.skip(i + sep.len()))),
        None => None,
    }
}

proof fn index_is_first(s: Seq<char>, sep: Seq<char>, from: int, i: int)
    requires
        0 <= from,
        first_at(s, sep, from, i),
    ensures
        index_from(s, sep, from) == Some(i),
    decreases i - from,
{
    if from < i {
        assert(!occurs_at(s, sep, from));
        index_is_first(s, sep, from + 1, i);
    }
}

proof fn no_index(s: Seq<char>, sep: Seq<char>, from: int)
    requires
        0 <= from,
        forall|j: int| from <= j ==> !occurs_at(s, sep, j),
    ensures
        index_from(s, sep, from) is None,
    decreases s.len() + 1 - from,
{
    if from + sep.len() <= s.len() {
        assert(!occurs_at(s, sep, from));
        no_index(s, sep, from + 1);
    }
}

/// A text is parted where the separator first stands.
pub proof fn parted_at_the_first(s: Seq<char>, sep: Seq<char>, i: int)
    requires
        first_at(s, sep, 0, i),
    ensures
        parted(s, sep) == Some((s.take(i), s.skip(i + sep.len()))),
{
    index_is_first(s, sep, 0, i);
}

/// Parting a text finds the first place of the separator: it does not stand
/// anywhere before.
pub proof fn parted_nowhere_before(s: Seq<char>, sep: Seq<char>, j: int)
    requires
        parted(s, sep) is Some,
        occurs_at(s, sep, j),
    ensures
        parted(s, sep) matches Some((a, _)) && a.len() <= j,
{
    index_is_sound(s, sep, 0);
    let i = index_from(s, sep, 0)->0;
    if j < i {
        assert(!occurs_at(s, sep, j));
    }
}

/// A text of one line stands in one of the lines of another.
pub proof fn lines_are_apart(a: Seq<char>, b: Seq<char>, needle: Seq<char>, i: int)
    requires
        needle.len() > 0,
        !needle.contains('\n'),
        occurs_at(a + seq!['\n'] + b, needle, i),
    ensures
        occurs_at(a, needle, i) || occurs_at(b, needle, i - a.len() - 1),
{
    let s = a + seq!['\n'] + b;
    let n = needle.len() as int;
    if i + n <= a.len() {
        assert(s.subrange(i, i + n) =~= a.subrange(i, i + n));
    } else if i >= a.len() + 1 {
        let k = i - a.len() - 1;
        assert(s.subrange(i, i + n) =~= b.subrange(k, k + n));
    } else {
        let k = a.len() - i;
        assert(s.subrange(i, i + n)[k] == s[a.len() as int]);
        assert(needle[k] == '\n');
    }
}

/// Where two texts first differ, the one with the lower character comes first,
/// and a text comes before what continues it.
pub proof fn texts_are_ordered_as_in_a_dictionary(a: Seq<char>, b: Seq<char>, k: int)
    requires
        0 <= k <= a.len(),
        k < b.len(),
        a.take(k) == b.take(k),
        k == a.len() || a[k] < b[k],
    ensures
        text_lt(a, b),
        !text_lt(b, a),
        a != b,
    decreases k,
{
    if k > 0 {
        assert(a.take(k)[0] == a[0] && b.take(k)[0] == b[0]);
        assert(a.drop_first().take(k - 1) =~= a.take(k).drop_first());
        assert(b.drop_first().take(k - 1) =~= b.take(k).drop_first());
        texts_are_ordered_as_in_a_dictionary(a.drop_first(), b.drop_first(), k - 1);
    }
    text_lt_irreflexive(a);
}

/// A text can be parted exactly where it contains the separator, and what lies
/// before the separator does not contain it.
pub proof fn parted_where_contained(s: Seq<char>, sep: Seq<char>)
    ensures
        parted(s, sep) is Some <==> contains_text(s, sep),
        match parted(s, sep) {
            Some((a, b)) => a + sep + b == s,
            None => true,
        },
{
    index_is_sound(s, sep, 0);
    if contains_text(s, sep) {
        if index_from(s, sep, 0) is None {
            let k = choose|k: int| occurs_at(s, sep, k);
            assert(!occurs_at(s, sep, k));
        }
    }
    match index_from(s, sep, 0) {
        Some(i) => {
            assert(occurs_at(s, sep, i));
            assert(s.take(i) + sep + s.skip(i + sep.len()) =~= s);
        },
        None => {},
    }
}

proof fn index_is_sound(s: Seq<char>, sep: Seq<char>, from: int)
    requires
        0 <= from,
    ensures
        match index_from(s, sep, from) {
            Some(i) => first_at(s, sep, from, i),
            None => forall|j: int| from <= j ==> !occurs_at(s, sep, j),
        },
    decreases s.len() + 1 - from,
{
    if from + sep.len() <= s.len() && !occurs_at(s, sep, from) {
        index_is_sound(s, sep, from + 1);
    }
}

/// The parts of a string before and after the first `sep`.
pub fn split_once(s: &str, sep: &str) -> (r: Option<(String, String)>)
    ensures
        match parted(s@, sep@) {
            Some((a, b)) => r matches Some((x, y)) && x@ == a && y@ == b,
            None => r is None,
        },
{
    let v: Vec<char> = to_chars(s);
    let w: Vec<char> = to_chars(sep);
    let n: usize = v.len();
    match find_chars(&v, &w, 0) {
        Some(i) => {
            proof {
                index_is_first(s@, sep@, 0, i as int);
                assert(v@.subrange(0, i as int) =~= s@.take(i as int));
                assert(v@.subrange(i + w@.len(), v@.len() as int) =~= s@.skip(i + sep@.len()));
            }
            Some((chars_to_string(&v, 0, i), chars_to_string(&v, i + w.len(), n)))
        },
        None => {
            proof {
                no_index(s@, sep@, 0);
            }
            None
        },
    }
}

/// `s` cut to `max` bytes with a marker behind it, or `s` itself if it fits.
pub open spec fn marked(s: Seq<char>, max: nat, marker: Seq<char>) -> Seq<char> {
    if utf8_len(s) <= max {
        s
    } else {
        fitted(s, max) + marker
    }
}

/// A string cut to `max` bytes with a marker behind it, or the string itself if
/// it fits.
pub fn truncate_with_marker(s: &str, max: usize, marker: &str) -> (r: String)
    ensures
        r@ == marked(s@, max as nat, marker@),
{
    if byte_len(s) <= max {
        copy(s)
    } else {
        join2(truncate_at_char_boundary(s, max).as_str(), marker)
    }
}

/// A character takes at most four bytes.
pub proof fn encodings_are_short(s: Seq<char>)
    ensures
        utf8_len(s) <= 4 * s.len(),
    decreases s.len(),
{
    if s.len() > 0 {
        encodings_are_short(s.drop_first());
        assert(encode_utf8(s) == encode_scalar(s[0] as u32) + encode_utf8(s.drop_first()));
    }
}

/// A text that was cut is not much longer than it was cut to.
pub proof fn marked_is_short(s: Seq<char>, max: nat, marker: Seq<char>)
    ensures
        utf8_len(marked(s, max, marker)) <= max + 4 * marker.len(),
{
    fitted_is_longest(s, max);
    encodings_are_short(marker);
    encode_concat(fitted(s, max), marker);
}

proof fn start_is_trimmed(s: Seq<char>) -> (a: int)
    ensures
        0 <= a <= s.len(),
        trimmed_start(s) == s.skip(a),
        forall|i: int| 0 <= i < a ==> is_white(#[trigger] s[i]),
        a < s.len() ==> !is_white(s[a]),
    decreases s.len(),
{
    if s.len() > 0 && is_white(s[0]) {
        let rest = s.drop_first();
        let b = start_is_trimmed(rest);
        assert(rest.skip(b) =~= s.skip(b + 1));
        assert forall|i: int| 0 <= i < b + 1 implies is_white(#[trigger] s[i]) by {
            if i > 0 {
                assert(rest[i - 1] == s[i]);
            }
        }
        if b < rest.len() {
            assert(rest[b] == s[b + 1]);
        }
        b + 1
    } else {
        assert(s.skip(0) =~= s);
        0
    }
}

proof fn end_is_trimmed(s: Seq<char>) -> (b: int)
    ensures
        0 <= b <= s.len(),
        trimmed_end(s) == s.take(b),
        forall|i: int| b <= i < s.len() ==> is_white(#[trigger] s[i]),
        b > 0 ==> !is_white(s[b - 1]),
    decreases s.len(),
{
    if s.len() > 0 && is_white(s.last()) {
        let rest = s.drop_last();
        let b = end_is_trimmed(rest);
        assert(rest.take(b) =~= s.take(b));
        assert forall|i: int| b <= i < s.len() implies is_white(#[trigger] s[i]) by {
            if i < rest.len() {
                assert(rest[i] == s[i]);
            }
        }
        if b > 0 {
            assert(rest[b - 1] == s[b - 1]);
        }
        b
    } else {
        assert(s.take(s.len() as int) =~= s);
        s.len() as int
    }
}

/// Trimming takes white space off both ends and nothing else.
pub proof fn trimming_takes_white_space_off(s: Seq<char>)
    ensures
        exists|a: int, b: int|
            {
                &&& 0 <= a <= b <= s.len()
                &&& trimmed(s) == #[trigger] s.subrange(a, b)
                &&& forall|i: int| 0 <= i < a ==> is_white(#[trigger] s[i])
                &&& forall|i: int| b <= i < s.len() ==> is_white(#[trigger] s[i])
                &&& a < b ==> !is_white(s[a]) && !is_white(s[b - 1])
            },
{
    let a = start_is_trimmed(s);
    let t = s.skip(a);
    let c = end_is_trimmed(t);
    let b = a + c;
    assert(t.take(c) =~= s.subrange(a, b));
    assert forall|i: int| b <= i < s.len() implies is_white(#[trigger] s[i]) by {
        assert(t[i - a] == s[i]);
    }
    if a < b {
        assert(t[c - 1] == s[b - 1]);
    }
    assert(trimmed(s) == s.subrange(a, b));
}

/// Text begins with the first character that is no white space: what comes
/// before is taken off, and of white space alone nothing is left.
pub proof fn text_begins_behind_white_space(s: Seq<char>, k: int)
    requires
        0 <= k <= s.len(),
        forall|i: int| 0 <= i < k ==> is_white(#[trigger] s[i]),
        k < s.len() ==> !is_white(s[k]),
    ensures
        trimmed_start(s) == s.skip(k),
{
    let a = start_is_trimmed(s);
    if a < k {
        assert(is_white(s[a]));
    } else if k < a {
        assert(is_white(s[k]));
    }
}

/// Blanks, tabs and line ends are white space; letters, digits and marks are not.
pub proof fn blanks_are_white_space(c: char)
    ensures
        c == ' ' || c == '\t' || c == '\n' || c == '\r' ==> is_white(c),
        '!' <= c <= '~' ==> !is_white(c),
{
}

/// Capital letters get small, and no other character changes.
pub proof fn capitals_get_small(s: Seq<char>, i: int)
    requires
        0 <= i < s.len(),
    ensures
        lower(s).len() == s.len(),
        'A' <= s[i] <= 'Z' ==> lower(s)[i] as int == s[i] as int + 32,
        !('A' <= s[i] <= 'Z') ==> lower(s)[i] == s[i],
{
}

/// The number that decimal digits write.
pub open spec fn number_written(s: Seq<char>) -> int
    decreases s.len(),
{
    if s.len() == 0 {
        0
    } else {
        10 * number_written(s.drop_last()) + (s.last() as int - '0' as int)
    }
}

/// A number is written by its decimal digits, without a zero in front.
pub proof fn numbers_are_written_in_decimal(n: nat)
    ensures
        number_written(decimal(n)) == n,
        forall|i: int| 0 <= i < decimal(n).len() ==> '0' <= #[trigger] decimal(n)[i] <= '9',
        n > 0 ==> decimal(n)[0] != '0',
    decreases n,
{
    if n >= 10 {
        numbers_are_written_in_decimal(n / 10);
        let d = decimal(n / 10);
        assert(decimal(n).drop_last() =~= d);
        assert(decimal(n)[0] == d[0]);
    } else {
        assert(decimal(n).drop_last() =~= Seq::<char>::empty());
        assert(number_written(decimal(n).drop_last()) == 0);
    }
}

/// A text ends with another exactly where it is something followed by that.
pub proof fn endings_come_last(s: Seq<char>, p: Seq<char>, front: Seq<char>)
    ensures
        has_suffix(front + p, p),
        has_prefix(p + front, p),
        has_suffix(s, p) ==> s == s.take(s.len() - p.len()) + p,
        has_prefix(s, p) ==> s == p + s.skip(p.len() as int),
{
    assert((front + p).subrange(front.len() as int, (front + p).len() as int) =~= p);
    assert((p + front).subrange(0, p.len() as int) =~= p);
    if has_suffix(s, p) {
        assert(s =~= s.take(s.len() - p.len()) + s.subrange(s.len() - p.len(), s.len() as int));
    }
    if has_prefix(s, p) {
        assert(s =~= s.subrange(0, p.len() as int) + s.skip(p.len() as int));
    }
}

/// What is taken off the end is that character alone, as often as it stands
/// there.
pub proof fn trailing_characters_are_taken_off(s: Seq<char>, c: char)
    ensures
        without_trailing(s.push(c), c) == without_trailing(s, c),
        s.len() == 0 || s.last() != c ==> without_trailing(s, c) == s,
{
    assert(s.push(c).drop_last() =~= s);
}

} // verus!
