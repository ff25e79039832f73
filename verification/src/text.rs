use vstd::prelude::*;
use vstd::string::StringSliceAdditionalSpecFns;
use vstd::utf8::encode_utf8_decode_utf8;

verus! {

/// `String::push` appends the character to the end of the string.
pub assume_specification[ String::push ](s: &mut String, c: char)
    ensures
        final(s)@ == old(s)@.push(c),
;

/// The characters of a string, in order.
pub fn chars_of(s: &str) -> (out: Vec<char>)
    ensures
        out@ == s@,
{
    let mut out: Vec<char> = Vec::new();
    for c in it: s.chars()
        invariant
            it.seq() == s@,
            out@ == s@.take(it.index()),
    {
        out.push(c);
    }
    out
}

/// The string made of `chars[from..to]`.
pub fn string_of(chars: &Vec<char>, from: usize, to: usize) -> (out: String)
    requires
        from <= to <= chars.len(),
    ensures
        out@ == chars@.subrange(from as int, to as int),
{
    let mut out = String::new();
    let mut i: usize = from;
    while i < to
        invariant
            from <= i <= to <= chars.len(),
            out@ == chars@.subrange(from as int, i as int),
        decreases to - i,
    {
        out.push(chars[i]);
        i += 1;
    }
    out
}

/// Whether `c` is one of the ten ASCII digits.
pub open spec fn is_digit(c: char) -> bool {
    '0' <= c <= '9'
}

/// The number that a run of ASCII digits denotes in base ten.
pub open spec fn decimal_value(s: Seq<char>) -> int
    decreases s.len(),
{
    if s.len() == 0 {
        0
    } else {
        decimal_value(s.drop_last()) * 10 + (s.last() as int - '0' as int)
    }
}

/// The post id that a text denotes: a non-empty run of ASCII digits whose
/// value fits in `i32`.
pub open spec fn parsed_id(s: Seq<char>) -> Option<i32> {
    if s.len() > 0 && (forall|i: int| 0 <= i < s.len() ==> is_digit(#[trigger] s[i]))
        && decimal_value(s) <= i32::MAX {
        Some(decimal_value(s) as i32)
    } else {
        None
    }
}

proof fn lemma_decimal_value_grows(s: Seq<char>, k: int)
    requires
        0 <= k <= s.len(),
        forall|i: int| 0 <= i < s.len() ==> is_digit(#[trigger] s[i]),
    ensures
        0 <= decimal_value(s.take(k)) <= decimal_value(s),
    decreases s.len() - k,
{
    if k == s.len() {
        assert(s.take(k) == s);
        lemma_decimal_value_nonnegative(s);
    } else {
        lemma_decimal_value_grows(s, k + 1);
        assert(s.take(k + 1).drop_last() == s.take(k));
        lemma_decimal_value_nonnegative(s.take(k));
    }
}

proof fn lemma_decimal_value_nonnegative(s: Seq<char>)
    requires
        forall|i: int| 0 <= i < s.len() ==> is_digit(#[trigger] s[i]),
    ensures
        0 <= decimal_value(s),
    decreases s.len(),
{
    if s.len() > 0 {
        lemma_decimal_value_nonnegative(s.drop_last());
    }
}

/// Reads a post id written in decimal.
pub fn parse_id(text: &str) -> (id: Option<i32>)
    ensures
        id == parsed_id(text@),
{
    let chars = chars_of(text);
    if chars.len() == 0 {
        return None;
    }
    let mut value: i64 = 0;
    let mut i: usize = 0;
    while i < chars.len()
        invariant
            i <= chars.len(),
            chars@ == text@,
            forall|j: int| 0 <= j < i ==> is_digit(#[trigger] chars@[j]),
            value == decimal_value(chars@.take(i as int)),
            0 <= value <= i32::MAX,
        decreases chars.len() - i,
    {
        let c = chars[i];
        if c < '0' || c > '9' {
            return None;
        }
        let digit: i64 = (c as u8 - 48) as i64;
        let next: i64 = value * 10 + digit;
        proof {
            assert(chars@.take(i + 1).drop_last() == chars@.take(i as int));
        }
        if next > 2147483647 {
            proof {
                if forall|j: int| 0 <= j < chars@.len() ==> is_digit(#[trigger] chars@[j]) {
                    lemma_decimal_value_grows(chars@, i + 1);
                }
            }
            return None;
        }
        value = next;
        i += 1;
    }
    assert(chars@.take(i as int) == chars@);
    Some(value as i32)
}

/// The character that writes a digit.
pub open spec fn digit_char(d: int) -> char {
    ((48 + d) as u8) as char
}

/// A natural number written in base ten, without leading zeros.
pub open spec fn digits_of(n: nat) -> Seq<char>
    decreases n,
{
    if n < 10 {
        seq![digit_char(n as int)]
    } else {
        digits_of(n / 10).push(digit_char((n % 10) as int))
    }
}

/// An integer written in base ten, with a minus sign before a negative one.
pub open spec fn decimal_text(n: int) -> Seq<char> {
    if n < 0 {
        seq!['-'] + digits_of((-n) as nat)
    } else {
        digits_of(n as nat)
    }
}

fn push_digits(out: &mut String, n: u32)
    ensures
        final(out)@ == old(out)@ + digits_of(n as nat),
    decreases n,
{
    if n >= 10 {
        push_digits(out, n / 10);
    }
    let digit: u8 = (n % 10) as u8;
    out.push((48 + digit) as char);
}

/// Writes an integer in base ten.
pub fn decimal(n: i32) -> (out: String)
    ensures
        out@ == decimal_text(n as int),
{
    let mut out = String::new();
    if n < 0 {
        out.push('-');
        let size: u32 = (-(n as i64)) as u32;
        push_digits(&mut out, size);
    } else {
        push_digits(&mut out, n as u32);
    }
    out
}

/// The text of an optional owned string.
pub open spec fn text_of(field: Option<String>) -> Option<Seq<char>> {
    match field {
        Some(words) => Some(words@),
        None => None,
    }
}

/// The text of an optional string slice.
pub open spec fn str_of(field: Option<&str>) -> Option<Seq<char>> {
    match field {
        Some(words) => Some(words@),
        None => None,
    }
}

/// Borrows an optional string.
pub fn borrowed(field: &Option<String>) -> (out: Option<&str>)
    ensures
        str_of(out) == text_of(*field),
{
    match field {
        Some(words) => Some(words.as_str()),
        None => None,
    }
}

/// Copies an optional string slice.
pub fn owned(field: Option<&str>) -> (out: Option<String>)
    ensures
        text_of(out) == str_of(field),
{
    match field {
        Some(words) => Some(String::from_str(words)),
        None => None,
    }
}

/// A text in lower case, as `str::to_lowercase` gives it.
pub uninterp spec fn lowercased(text: Seq<char>) -> Seq<char>;

/// Calls `str::to_lowercase`, which maps each character to its lower case
/// by the rules of Unicode.
#[verifier::external_body]
pub(crate) fn lowercase(text: &str) -> (out: String)
    ensures
        out@ == lowercased(text@),
{
    text.to_lowercase()
}

/// Whether two texts are the same.
pub fn same_text(a: &str, b: &str) -> (same: bool)
    ensures
        same == (a@ == b@),
{
    let x = a.as_bytes();
    let y = b.as_bytes();
    proof {
        encode_utf8_decode_utf8(a@);
        encode_utf8_decode_utf8(b@);
    }
    if x.len() != y.len() {
        return false;
    }
    let mut i: usize = 0;
    while i < x.len()
        invariant
            i <= x.len(),
            x.len() == y.len(),
            x@ == a.spec_bytes(),
            y@ == b.spec_bytes(),
            forall|j: int| 0 <= j < i ==> x@[j] == y@[j],
        decreases x.len() - i,
    {
        if x[i] != y[i] {
            return false;
        }
        i += 1;
    }
    assert(x@ =~= y@);
    true
}

/// Whether text `a` stands before text `b` in the order of a dictionary
/// whose letters are ordered by their code points.
pub open spec fn text_lt(a: Seq<char>, b: Seq<char>) -> bool
    decreases a.len(),
{
    if b.len() == 0 {
        false
    } else if a.len() == 0 {
        true
    } else if a[0] != b[0] {
        a[0] < b[0]
    } else {
        text_lt(a.drop_first(), b.drop_first())
    }
}

/// No text stands before itself.
pub proof fn lemma_text_lt_irreflexive(a: Seq<char>)
    ensures
        !text_lt(a, a),
    decreases a.len(),
{
    if a.len() > 0 {
        lemma_text_lt_irreflexive(a.drop_first());
    }
}

/// Of two different texts one stands before the other.
pub proof fn lemma_text_lt_total(a: Seq<char>, b: Seq<char>)
    ensures
        a == b || text_lt(a, b) || text_lt(b, a),
    decreases a.len(),
{
    if a.len() > 0 && b.len() > 0 && a[0] == b[0] {
        lemma_text_lt_total(a.drop_first(), b.drop_first());
        if a.drop_first() == b.drop_first() {
            assert(a =~= seq![a[0]] + a.drop_first());
        }
    }
}

/// The order of texts is transitive.
pub proof fn lemma_text_lt_transitive(a: Seq<char>, b: Seq<char>, c: Seq<char>)
    requires
        text_lt(a, b),
        text_lt(b, c),
    ensures
        text_lt(a, c),
    decreases a.len(),
{
    if a.len() > 0 && a[0] == b[0] && b[0] == c[0] {
        lemma_text_lt_transitive(a.drop_first(), b.drop_first(), c.drop_first());
    }
}

/// Whether text `a` stands before text `b`.
pub fn text_before(a: &str, b: &str) -> (before: bool)
    ensures
        before == text_lt(a@, b@),
{
    let x = chars_of(a);
    let y = chars_of(b);
    let mut i: usize = 0;
    assert(x@.skip(0) == x@ && y@.skip(0) == y@);
    while i < x.len() && i < y.len()
        invariant
            i <= x.len(),
            i <= y.len(),
            x@ == a@,
            y@ == b@,
            text_lt(x@, y@) == text_lt(x@.skip(i as int), y@.skip(i as int)),
        decreases x.len() - i,
    {
        proof {
            let p = x@.skip(i as int);
            let q = y@.skip(i as int);
            assert(p.drop_first() == x@.skip(i + 1));
            assert(q.drop_first() == y@.skip(i + 1));
        }
        if x[i] != y[i] {
            let before = x[i] < y[i];
            return before;
        }
        i += 1;
    }
    i < y.len()
}

} // verus!
