//! Text as sequences of characters: the string operations the rest of the
//! library is written with, each with an exact description of its result.

use vstd::prelude::*;

verus! {

// ---------------------------------------------------------------------------
// Standard library operations on strings and characters
// ---------------------------------------------------------------------------

/// `String::push` appends one character.
pub assume_specification[ String::push ](s: &mut String, c: char)
    ensures
        final(s)@ == old(s)@.push(c),
;

/// `String::pop` removes the last character, if there is one.
pub assume_specification[ String::pop ](s: &mut String) -> (r: Option<char>)
    ensures
        old(s)@.len() == 0 ==> r is None && final(s)@ == old(s)@,
        old(s)@.len() > 0 ==> r == Some(old(s)@.last()) && final(s)@ == old(s)@.drop_last(),
;

/// `==` on string slices compares their characters.
pub assume_specification[ <str as PartialEq>::eq ](a: &str, b: &str) -> (r: bool)
    ensures
        r == (a@ == b@),
;

/// Whether two texts have the same characters.
pub fn same(a: &str, b: &str) -> (r: bool)
    ensures
        r == (a@ == b@),
{
    *a == *b
}

/// Whether a character has the Unicode property `White_Space`.
pub uninterp spec fn is_white_space(c: char) -> bool;

/// Whether a character has the Unicode property `Alphabetic` or is numeric.
pub uninterp spec fn is_alphabetic_or_numeric(c: char) -> bool;

/// The lowercase equivalent of a text.
pub uninterp spec fn lowercase(s: Seq<char>) -> Seq<char>;

/// `char::is_whitespace`. Within ASCII it accepts exactly the space and the
/// five control characters from tab to carriage return.
pub assume_specification[ char::is_whitespace ](c: char) -> (r: bool)
    ensures
        r == is_white_space(c),
        (c as u32) < 128 ==> r == (c == ' ' || (9 <= c as u32 <= 13)),
;

/// `char::is_alphanumeric`. Within ASCII it accepts exactly the letters and
/// the digits.
pub assume_specification[ char::is_alphanumeric ](c: char) -> (r: bool)
    ensures
        r == is_alphabetic_or_numeric(c),
        (c as u32) < 128 ==> r == is_ascii_letter_or_digit(c),
;

/// `str::to_lowercase`. On ASCII text it lowers each letter and keeps every
/// other character.
pub assume_specification[ str::to_lowercase ](s: &str) -> (r: String)
    ensures
        r@ == lowercase(s@),
        s.is_ascii() ==> r@ == s@.map_values(|c: char| ascii_lower(c)),
;

/// The letters and digits of ASCII.
pub open spec fn is_ascii_letter_or_digit(c: char) -> bool {
    ('0' <= c && c <= '9') || ('a' <= c && c <= 'z') || ('A' <= c && c <= 'Z')
}

/// The lowercase form of an ASCII letter; any other character unchanged.
pub open spec fn ascii_lower(c: char) -> char {
    if 'A' <= c && c <= 'Z' {
        ((c as u32 + 32) as u32) as char
    } else {
        c
    }
}

// ---------------------------------------------------------------------------
// Views of collections
// ---------------------------------------------------------------------------

/// The views of the elements of a sequence.
pub open spec fn views<T: View>(s: Seq<T>) -> Seq<T::V> {
    Seq::new(s.len(), |i: int| s[i]@)
}

/// The view of what an option holds.
pub open spec fn opt_view<T: View>(o: Option<T>) -> Option<T::V> {
    match o {
        Some(x) => Some(x@),
        None => None,
    }
}

pub broadcast proof fn lemma_views_push<T: View>(s: Seq<T>, x: T)
    ensures
        #[trigger] views(s.push(x)) == views(s).push(x@),
{
    assert(views(s.push(x)) =~= views(s).push(x@));
}

pub broadcast proof fn lemma_views_empty<T: View>()
    ensures
        #[trigger] views(Seq::<T>::empty()) == Seq::<T::V>::empty(),
{
    assert(views(Seq::<T>::empty()) =~= Seq::<T::V>::empty());
}

pub broadcast proof fn lemma_views_update<T: View>(s: Seq<T>, i: int, x: T)
    requires
        0 <= i < s.len(),
    ensures
        #[trigger] views(s.update(i, x)) == views(s).update(i, x@),
{
    assert(views(s.update(i, x)) =~= views(s).update(i, x@));
}

pub broadcast proof fn lemma_views_remove<T: View>(s: Seq<T>, i: int)
    requires
        0 <= i < s.len(),
    ensures
        #[trigger] views(s.remove(i)) == views(s).remove(i),
{
    assert(views(s.remove(i)) =~= views(s).remove(i));
}

pub broadcast group group_views {
    lemma_views_push,
    lemma_views_empty,
    lemma_views_update,
    lemma_views_remove,
}

// ---------------------------------------------------------------------------
// Characters of a string
// ---------------------------------------------------------------------------

/// The characters of `s`, in order.
pub fn to_chars(s: &str) -> (v: Vec<char>)
    ensures
        v@ == s@,
{
    let mut v: Vec<char> = Vec::new();
    for c in it: s.chars()
        invariant
            it.seq() == s@,
            v@ == s@.take(it.index()),
    {
        proof {
            assert(s@.take(it.index() + 1) =~= s@.take(it.index()).push(c));
        }
        v.push(c);
    }
    assert(s@.take(s@.len() as int) =~= s@);
    v
}

/// The string with the characters `v[from..to]`.
pub fn from_chars_range(v: &Vec<char>, from: usize, to: usize) -> (s: String)
    requires
        from <= to <= v@.len(),
    ensures
        s@ == v@.subrange(from as int, to as int),
{
    let mut s = String::new();
    let mut i: usize = from;
    while i < to
        invariant
            from <= i <= to <= v@.len(),
            s@ == v@.subrange(from as int, i as int),
        decreases to - i,
    {
        s.push(v[i]);
        i += 1;
        proof {
            assert(v@.subrange(from as int, i as int) =~= v@.subrange(from as int, i - 1).push(
                v@[i - 1],
            ));
        }
    }
    s
}

/// The string with the characters `v`.
pub fn from_chars(v: &Vec<char>) -> (s: String)
    ensures
        s@ == v@,
{
    let s = from_chars_range(v, 0, v.len());
    assert(v@.subrange(0, v@.len() as int) =~= v@);
    s
}


// ---------------------------------------------------------------------------
// Decimal numbers
// ---------------------------------------------------------------------------

/// The decimal digit of value `d`.
pub open spec fn digit_char(d: int) -> char {
    (48 + d) as char
}

/// Whether a character is a decimal digit of ASCII.
pub open spec fn is_digit(c: char) -> bool {
    '0' <= c && c <= '9'
}

/// The value of a decimal digit.
pub open spec fn digit_value(c: char) -> int {
    c as int - 48
}

/// The decimal notation of `n`, without leading zeros.
pub open spec fn decimal_text(n: nat) -> Seq<char>
    decreases n,
{
    if n < 10 {
        seq![digit_char(n as int)]
    } else {
        decimal_text(n / 10).push(digit_char((n % 10) as int))
    }
}

/// Whether a text is made of decimal digits only.
pub open spec fn all_digits(s: Seq<char>) -> bool {
    forall|i: int| 0 <= i < s.len() ==> is_digit(#[trigger] s[i])
}

/// The number that a text of digits denotes.
pub open spec fn digits_value(s: Seq<char>) -> int
    decreases s.len(),
{
    if s.len() == 0 {
        0
    } else {
        digits_value(s.drop_last()) * 10 + digit_value(s.last())
    }
}

/// A text without one leading plus sign.
pub open spec fn unsigned_part(s: Seq<char>) -> Seq<char> {
    if s.len() > 0 && s[0] == '+' {
        s.skip(1)
    } else {
        s
    }
}

/// The number that a text denotes: decimal digits, at least one, optionally
/// after a plus sign, of value at most `max`.
pub open spec fn number_in(s: Seq<char>, max: int) -> Option<int> {
    let body = unsigned_part(s);
    if body.len() > 0 && all_digits(body) && digits_value(body) <= max {
        Some(digits_value(body))
    } else {
        None
    }
}

/// The decimal notation of `n`.
pub fn decimal(n: u64) -> (s: String)
    ensures
        s@ == decimal_text(n as nat),
    decreases n,
{
    let digit: char = (48u8 + (n % 10) as u8) as char;
    let mut s = if n < 10 {
        String::new()
    } else {
        decimal(n / 10)
    };
    s.push(digit);
    proof {
        assert(n < 10 ==> s@ =~= seq![digit_char(n as int)]);
    }
    s
}

proof fn lemma_digits_value_nonneg(s: Seq<char>)
    requires
        all_digits(s),
    ensures
        digits_value(s) >= 0,
    decreases s.len(),
{
    if s.len() > 0 {
        assert(is_digit(s.last()));
        assert forall|i: int| 0 <= i < s.drop_last().len() implies is_digit(
            #[trigger] s.drop_last()[i],
        ) by {
            assert(is_digit(s[i]));
        }
        lemma_digits_value_nonneg(s.drop_last());
    }
}

/// A number is at least the number that any beginning of it denotes.
proof fn lemma_digits_value_prefix(s: Seq<char>, k: int)
    requires
        all_digits(s),
        0 <= k <= s.len(),
    ensures
        0 <= digits_value(s.take(k)) <= digits_value(s),
    decreases s.len(),
{
    assert forall|i: int| 0 <= i < s.take(k).len() implies is_digit(#[trigger] s.take(k)[i]) by {
        assert(is_digit(s[i]));
    }
    lemma_digits_value_nonneg(s.take(k));
    if k == s.len() {
        assert(s.take(k) =~= s);
    } else {
        assert forall|i: int| 0 <= i < s.drop_last().len() implies is_digit(
            #[trigger] s.drop_last()[i],
        ) by {
            assert(is_digit(s[i]));
        }
        assert(is_digit(s.last()));
        lemma_digits_value_prefix(s.drop_last(), k);
        assert(s.drop_last().take(k) =~= s.take(k));
    }
}

/// Reads a decimal number of at most `max`, as `str::parse` does.
pub fn parse_decimal(s: &str, max: u64) -> (r: Option<u64>)
    ensures
        r is Some <==> number_in(s@, max as int) is Some,
        r is Some ==> r->0 == number_in(s@, max as int)->0,
{
    let v = to_chars(s);
    let start: usize = if v.len() > 0 && v[0] == '+' {
        1
    } else {
        0
    };
    let ghost body = unsigned_part(s@);
    assert(body =~= v@.skip(start as int));
    if start == v.len() {
        return None;
    }
    let mut total: u64 = 0;
    let mut i: usize = start;
    while i < v.len()
        invariant
            start <= i <= v@.len(),
            v@ == s@,
            body == v@.skip(start as int),
            body == unsigned_part(s@),
            body.len() > 0,
            forall|j: int| 0 <= j < i - start ==> is_digit(#[trigger] body[j]),
            total == digits_value(body.take(i - start)),
            total <= max,
        decreases v@.len() - i,
    {
        let c = v[i];
        assert(c == body[i - start]);
        if !('0' <= c && c <= '9') {
            assert(!is_digit(body[i - start]));
            return None;
        }
        let d: u64 = (c as u32 - 48) as u64;
        let ghost next = body.take(i - start + 1);
        proof {
            assert(next.drop_last() =~= body.take(i - start));
            assert(next.last() == c);
            assert(digits_value(next) == total * 10 + d);
            if all_digits(body) {
                lemma_digits_value_prefix(body, i - start + 1);
            }
        }
        match total.checked_mul(10) {
            None => {
                return None;
            },
            Some(t) => match t.checked_add(d) {
                None => {
                    return None;
                },
                Some(u) => {
                    if u > max {
                        return None;
                    }
                    total = u;
                },
            },
        }
        i += 1;
    }
    proof {
        assert(body.take(body.len() as int) =~= body);
    }
    Some(total)
}

proof fn lemma_decimal_text_digits(n: nat)
    ensures
        decimal_text(n).len() > 0,
        all_digits(decimal_text(n)),
        digits_value(decimal_text(n)) == n,
    decreases n,
{
    if n < 10 {
        let s = decimal_text(n);
        assert(s.drop_last() =~= Seq::<char>::empty());
        assert(s.last() == digit_char(n as int));
        assert(digits_value(s) == digits_value(s.drop_last()) * 10 + digit_value(s.last()));
    } else {
        lemma_decimal_text_digits(n / 10);
        let s = decimal_text(n);
        assert(s.drop_last() =~= decimal_text(n / 10));
        assert(s.last() == digit_char((n % 10) as int));
    }
}

/// Reading the decimal notation of a number gives the number back.
pub proof fn law_decimal_round_trip(n: nat, max: int)
    requires
        n <= max,
    ensures
        number_in(decimal_text(n), max) == Some(n as int),
{
    lemma_decimal_text_digits(n);
    let s = decimal_text(n);
    assert(is_digit(s[0]));
    assert(unsigned_part(s) == s);
}

/// The decimal notation of a number is made of digits.
pub proof fn law_decimal_is_digits(n: nat)
    ensures
        decimal_text(n).len() > 0,
        all_digits(decimal_text(n)),
{
    lemma_decimal_text_digits(n);
}


// ---------------------------------------------------------------------------
// Searching
// ---------------------------------------------------------------------------

/// Where `c` first stands in `s`; the length of `s` where it does not.
pub open spec fn first_index(s: Seq<char>, c: char) -> int
    decreases s.len(),
{
    if s.len() == 0 || s[0] == c {
        0
    } else {
        1 + first_index(s.skip(1), c)
    }
}

/// The part of `s` before the first `c`: the whole of it without one.
pub open spec fn before(s: Seq<char>, c: char) -> Seq<char> {
    s.take(first_index(s, c))
}

/// The part of `s` behind the last `c`: the whole of it without one.
pub open spec fn after_last(s: Seq<char>, c: char) -> Seq<char>
    decreases s.len(),
{
    if s.len() == 0 || s.last() == c {
        Seq::empty()
    } else {
        after_last(s.drop_last(), c).push(s.last())
    }
}

/// Where the text `p` first stands in `s`.
pub open spec fn first_match(s: Seq<char>, p: Seq<char>) -> Option<int>
    decreases s.len(),
{
    if p.is_prefix_of(s) {
        Some(0)
    } else if s.len() == 0 {
        None
    } else {
        match first_match(s.skip(1), p) {
            Some(i) => Some(1 + i),
            None => None,
        }
    }
}

/// The part of `s` between the first `p` and the next one, or the end.
pub open spec fn segment_after(s: Seq<char>, p: Seq<char>) -> Option<Seq<char>> {
    match first_match(s, p) {
        None => None,
        Some(i) => {
            let rest = s.skip(i + p.len());
            match first_match(rest, p) {
                None => Some(rest),
                Some(j) => Some(rest.take(j)),
            }
        },
    }
}

proof fn lemma_first_index_is(s: Seq<char>, c: char, i: int)
    requires
        0 <= i <= s.len(),
        forall|j: int| 0 <= j < i ==> s[j] != c,
        i < s.len() ==> s[i] == c,
    ensures
        first_index(s, c) == i,
    decreases s.len(),
{
    if i > 0 {
        let t = s.skip(1);
        assert forall|j: int| 0 <= j < i - 1 implies t[j] != c by {
            assert(t[j] == s[j + 1]);
        }
        lemma_first_index_is(t, c, i - 1);
    }
}

pub proof fn lemma_first_index_bounds(s: Seq<char>, c: char)
    ensures
        0 <= first_index(s, c) <= s.len(),
        forall|j: int| 0 <= j < first_index(s, c) ==> s[j] != c,
        first_index(s, c) < s.len() ==> s[first_index(s, c)] == c,
    decreases s.len(),
{
    if s.len() > 0 && s[0] != c {
        lemma_first_index_bounds(s.skip(1), c);
        assert forall|j: int| 0 <= j < first_index(s, c) implies s[j] != c by {
            if j > 0 {
                assert(s.skip(1)[j - 1] == s[j]);
            }
        }
    }
}

/// In `a + [c] + b` with no `c` in `a`, what stands before the first `c` is `a`.
pub proof fn lemma_before_joined(a: Seq<char>, c: char, b: Seq<char>)
    requires
        forall|j: int| 0 <= j < a.len() ==> a[j] != c,
    ensures
        before(a + seq![c] + b, c) == a,
{
    let s = a + seq![c] + b;
    assert(s[a.len() as int] == c);
    lemma_first_index_is(s, c, a.len() as int);
    assert(s.take(a.len() as int) =~= a);
}

/// In `a + [c] + b` with no `c` in `b`, what stands behind the last `c` is `b`.
pub proof fn lemma_after_last_joined(a: Seq<char>, c: char, b: Seq<char>)
    requires
        forall|j: int| 0 <= j < b.len() ==> b[j] != c,
    ensures
        after_last(a + seq![c] + b, c) == b,
    decreases b.len(),
{
    let s = a + seq![c] + b;
    if b.len() == 0 {
        assert(s.last() == c);
        assert(b =~= Seq::empty());
    } else {
        let b1 = b.drop_last();
        assert forall|j: int| 0 <= j < b1.len() implies b1[j] != c by {
            assert(b1[j] == b[j]);
        }
        lemma_after_last_joined(a, c, b1);
        assert(s.drop_last() =~= a + seq![c] + b1);
        assert(s.last() == b.last());
        assert(b.last() != c);
        assert(b1.push(b.last()) =~= b);
    }
}

/// The part of `s` before the first `c`.
pub fn text_before(s: &str, c: char) -> (r: String)
    ensures
        r@ == before(s@, c),
{
    let v = to_chars(s);
    let mut i: usize = 0;
    while i < v.len() && v[i] != c
        invariant
            0 <= i <= v@.len(),
            forall|j: int| 0 <= j < i ==> v@[j] != c,
        decreases v@.len() - i,
    {
        i += 1;
    }
    proof {
        lemma_first_index_is(v@, c, i as int);
        assert(v@.take(i as int) =~= v@.subrange(0, i as int));
    }
    from_chars_range(&v, 0, i)
}

/// The part of `s` behind the last `c`.
pub fn text_after_last(s: &str, c: char) -> (r: String)
    ensures
        r@ == after_last(s@, c),
{
    let v = to_chars(s);
    let n = v.len();
    let mut i: usize = n;
    while i > 0 && v[i - 1] != c
        invariant
            0 <= i <= n,
            n == v@.len(),
            forall|j: int| i <= j < n ==> v@[j] != c,
        decreases i,
    {
        i -= 1;
    }
    proof {
        let tail = v@.subrange(i as int, n as int);
        if i > 0 {
            lemma_after_last_joined(v@.take(i - 1), c, tail);
            assert(v@ =~= v@.take(i - 1) + seq![c] + tail);
        } else {
            lemma_after_last_absent(v@, c);
            assert(tail =~= v@);
        }
    }
    from_chars_range(&v, i, n)
}

proof fn lemma_after_last_absent(s: Seq<char>, c: char)
    requires
        forall|j: int| 0 <= j < s.len() ==> s[j] != c,
    ensures
        after_last(s, c) == s,
    decreases s.len(),
{
    if s.len() > 0 {
        assert forall|j: int| 0 <= j < s.drop_last().len() implies s.drop_last()[j] != c by {
            assert(s.drop_last()[j] == s[j]);
        }
        lemma_after_last_absent(s.drop_last(), c);
        assert(s.last() != c);
        assert(s.drop_last().push(s.last()) =~= s);
    } else {
        assert(s =~= Seq::empty());
    }
}

/// Whether the characters `p` stand in `v` at position `at`.
fn stands_at(v: &Vec<char>, at: usize, p: &Vec<char>) -> (r: bool)
    requires
        at <= v@.len(),
    ensures
        r == p@.is_prefix_of(v@.skip(at as int)),
{
    let n = v.len();
    if p.len() > n - at {
        return false;
    }
    let mut i: usize = 0;
    while i < p.len()
        invariant
            0 <= i <= p@.len(),
            n == v@.len(),
            at + p@.len() <= n,
            forall|j: int| 0 <= j < i ==> p@[j] == v@[at + j],
        decreases p@.len() - i,
    {
        if p[i] != v[at + i] {
            proof {
                let s = v@.skip(at as int);
                assert(s.subrange(0, p@.len() as int)[i as int] == v@[at + i]);
                assert(p@[i as int] != v@[at + i]);
            }
            return false;
        }
        i += 1;
    }
    proof {
        assert(p@ =~= v@.skip(at as int).subrange(0, p@.len() as int));
    }
    true
}

pub proof fn lemma_first_match_is(s: Seq<char>, p: Seq<char>, i: int)
    requires
        0 <= i <= s.len(),
        forall|j: int| 0 <= j < i ==> !p.is_prefix_of(#[trigger] s.skip(j)),
        p.is_prefix_of(s.skip(i)),
    ensures
        first_match(s, p) == Some(i),
    decreases s.len(),
{
    if i == 0 {
        assert(s.skip(0) =~= s);
    } else {
        assert(s.skip(0) =~= s);
        assert(!p.is_prefix_of(s.skip(0)));
        let t = s.skip(1);
        assert forall|j: int| 0 <= j < i - 1 implies !p.is_prefix_of(#[trigger] t.skip(j)) by {
            assert(t.skip(j) =~= s.skip(j + 1));
        }
        assert(t.skip(i - 1) =~= s.skip(i));
        lemma_first_match_is(t, p, i - 1);
    }
}

pub proof fn lemma_first_match_none(s: Seq<char>, p: Seq<char>)
    requires
        forall|j: int| 0 <= j <= s.len() ==> !p.is_prefix_of(#[trigger] s.skip(j)),
    ensures
        first_match(s, p) is None,
    decreases s.len(),
{
    assert(s.skip(0) =~= s);
    assert(!p.is_prefix_of(s.skip(0)));
    if s.len() > 0 {
        let t = s.skip(1);
        assert forall|j: int| 0 <= j <= t.len() implies !p.is_prefix_of(#[trigger] t.skip(j)) by {
            assert(t.skip(j) =~= s.skip(j + 1));
        }
        lemma_first_match_none(t, p);
    }
}

/// Where `p` first stands in `v[from..]`, counted from the start of `v`.
fn find_from(v: &Vec<char>, from: usize, p: &Vec<char>) -> (r: Option<usize>)
    requires
        from <= v@.len(),
    ensures
        r is Some <==> first_match(v@.skip(from as int), p@) is Some,
        r is Some ==> from <= r->0 && r->0 + p@.len() <= v@.len() && r->0 == from + first_match(
            v@.skip(from as int),
            p@,
        )->0,
{
    let ghost s = v@.skip(from as int);
    let mut i: usize = from;
    loop
        invariant
            from <= i <= v@.len(),
            s == v@.skip(from as int),
            forall|j: int| 0 <= j < i - from ==> !p@.is_prefix_of(#[trigger] s.skip(j)),
        decreases v@.len() - i,
    {
        proof {
            assert(s.skip(i - from) =~= v@.skip(i as int));
        }
        if stands_at(v, i, p) {
            proof {
                lemma_first_match_is(s, p@, i - from);
            }
            return Some(i);
        }
        if i == v.len() {
            proof {
                lemma_first_match_none(s, p@);
            }
            return None;
        }
        i += 1;
    }
}

/// The part of `s` between the first `p` and the next one, or the end.
pub fn text_segment_after(s: &str, p: &str) -> (r: Option<String>)
    ensures
        opt_view(r) == segment_after(s@, p@),
{
    let v = to_chars(s);
    let n = v.len();
    let pat = to_chars(p);
    proof {
        assert(v@.skip(0) =~= v@);
    }
    match find_from(&v, 0, &pat) {
        None => None,
        Some(i) => {
            let start = i + pat.len();
            let ghost rest = v@.skip(start as int);
            match find_from(&v, start, &pat) {
                None => {
                    assert(v@.subrange(start as int, v@.len() as int) =~= rest);
                    Some(from_chars_range(&v, start, n))
                },
                Some(j) => {
                    assert(v@.subrange(start as int, j as int) =~= rest.take(j - start));
                    Some(from_chars_range(&v, start, j))
                },
            }
        },
    }
}

/// Whether `s` begins with `p`.
pub fn starts_with(s: &str, p: &str) -> (r: bool)
    ensures
        r == p@.is_prefix_of(s@),
{
    let v = to_chars(s);
    let pat = to_chars(p);
    proof {
        assert(v@.skip(0) =~= v@);
    }
    stands_at(&v, 0, &pat)
}

/// `s` without the beginning `p`, where it has one.
pub fn strip_prefix(s: &str, p: &str) -> (r: Option<String>)
    ensures
        r is Some <==> p@.is_prefix_of(s@),
        r is Some ==> r->0@ == s@.skip(p@.len() as int),
{
    let v = to_chars(s);
    let pat = to_chars(p);
    proof {
        assert(v@.skip(0) =~= v@);
    }
    if stands_at(&v, 0, &pat) {
        proof {
            assert(v@.subrange(pat@.len() as int, v@.len() as int) =~= v@.skip(pat@.len() as int));
        }
        Some(from_chars_range(&v, pat.len(), v.len()))
    } else {
        None
    }
}

// ---------------------------------------------------------------------------
// Trimming
// ---------------------------------------------------------------------------

/// `s` without the characters at its start that satisfy `p`.
pub open spec fn trim_front(s: Seq<char>, p: spec_fn(char) -> bool) -> Seq<char>
    decreases s.len(),
{
    if s.len() > 0 && p(s[0]) {
        trim_front(s.skip(1), p)
    } else {
        s
    }
}

/// `s` without the characters at its end that satisfy `p`.
pub open spec fn trim_back(s: Seq<char>, p: spec_fn(char) -> bool) -> Seq<char>
    decreases s.len(),
{
    if s.len() > 0 && p(s.last()) {
        trim_back(s.drop_last(), p)
    } else {
        s
    }
}

/// `s` without white space at either end.
pub open spec fn trimmed(s: Seq<char>) -> Seq<char> {
    trim_both(s, None)
}

/// `s` without the character `c` at either end.
pub open spec fn trimmed_of(s: Seq<char>, c: char) -> Seq<char> {
    trim_both(s, Some(c))
}

/// `s` without a given character at either end; without white space where
/// none is given.
pub open spec fn trim_both(s: Seq<char>, which: Option<char>) -> Seq<char> {
    trim_back(trim_front(s, |x: char| is_trimmed(x, which)), |x: char| is_trimmed(x, which))
}

pub open spec fn is_trimmed(x: char, which: Option<char>) -> bool {
    match which {
        Some(c) => x == c,
        None => is_white_space(x),
    }
}

proof fn lemma_trim_front_is(s: Seq<char>, p: spec_fn(char) -> bool, i: int)
    requires
        0 <= i <= s.len(),
        forall|j: int| 0 <= j < i ==> p(#[trigger] s[j]),
        i < s.len() ==> !p(s[i]),
    ensures
        trim_front(s, p) == s.skip(i),
    decreases i,
{
    if i == 0 {
        assert(s.skip(0) =~= s);
    } else {
        assert(p(s[0]));
        let t = s.skip(1);
        assert forall|j: int| 0 <= j < i - 1 implies p(#[trigger] t[j]) by {
            assert(t[j] == s[j + 1]);
        }
        lemma_trim_front_is(t, p, i - 1);
        assert(t.skip(i - 1) =~= s.skip(i));
    }
}

proof fn lemma_trim_back_is(s: Seq<char>, p: spec_fn(char) -> bool, i: int)
    requires
        0 <= i <= s.len(),
        forall|j: int| i <= j < s.len() ==> p(#[trigger] s[j]),
        i > 0 ==> !p(s[i - 1]),
    ensures
        trim_back(s, p) == s.take(i),
    decreases s.len() - i,
{
    if i == s.len() {
        assert(s.take(i) =~= s);
    } else {
        assert(p(s[s.len() - 1]));
        let t = s.drop_last();
        assert forall|j: int| i <= j < t.len() implies p(#[trigger] t[j]) by {
            assert(t[j] == s[j]);
        }
        lemma_trim_back_is(t, p, i);
        assert(t.take(i) =~= s.take(i));
    }
}

fn is_trimmed_char(x: char, which: Option<char>) -> (r: bool)
    ensures
        r == is_trimmed(x, which),
{
    match which {
        Some(c) => x == c,
        None => x.is_whitespace(),
    }
}

/// `s` without a given character at either end; without white space where
/// none is given.
fn trim_ends(s: &str, which: Option<char>) -> (r: String)
    ensures
        r@ == trim_both(s@, which),
{
    let v = to_chars(s);
    let ghost p = |x: char| is_trimmed(x, which);
    let mut i: usize = 0;
    while i < v.len() && is_trimmed_char(v[i], which)
        invariant
            0 <= i <= v@.len(),
            p == (|x: char| is_trimmed(x, which)),
            forall|j: int| 0 <= j < i ==> p(#[trigger] v@[j]),
        decreases v@.len() - i,
    {
        i += 1;
    }
    proof {
        lemma_trim_front_is(v@, p, i as int);
    }
    let ghost t = v@.skip(i as int);
    let mut k: usize = v.len();
    while k > i && is_trimmed_char(v[k - 1], which)
        invariant
            i <= k <= v@.len(),
            p == (|x: char| is_trimmed(x, which)),
            forall|j: int| k <= j < v@.len() ==> p(#[trigger] v@[j]),
        decreases k,
    {
        k -= 1;
    }
    proof {
        assert forall|j: int| k - i <= j < t.len() implies p(#[trigger] t[j]) by {
            assert(t[j] == v@[i + j]);
        }
        lemma_trim_back_is(t, p, k - i);
        assert(t.take(k - i) =~= v@.subrange(i as int, k as int));
    }
    from_chars_range(&v, i, k)
}

/// `s` without white space at either end, as `str::trim` gives it.
pub fn trim(s: &str) -> (r: String)
    ensures
        r@ == trimmed(s@),
{
    trim_ends(s, None)
}

/// `s` without the character `c` at either end, as `str::trim_matches` gives it.
pub fn trim_char(s: &str, c: char) -> (r: String)
    ensures
        r@ == trimmed_of(s@, c),
{
    trim_ends(s, Some(c))
}

/// A text between two copies of `c`, neither beginning nor ending with it, is
/// what trimming `c` leaves.
pub proof fn lemma_trim_wrapped(s: Seq<char>, c: char)
    requires
        s.len() > 0 ==> s[0] != c && s.last() != c,
    ensures
        trimmed_of(seq![c] + s + seq![c], c) == s,
{
    let p = |x: char| is_trimmed(x, Some(c));
    let w = seq![c] + s + seq![c];
    if s.len() == 0 {
        assert(w =~= seq![c, c]);
        lemma_trim_front_is(w, p, 2);
        assert(w.skip(2) =~= s);
        assert(trim_back(s, p) == s);
    } else {
        lemma_trim_front_is(w, p, 1);
        let t = w.skip(1);
        assert(t =~= s + seq![c]);
        lemma_trim_back_is(t, p, s.len() as int);
        assert(t.take(s.len() as int) =~= s);
    }
}

// ---------------------------------------------------------------------------
// Replacing
// ---------------------------------------------------------------------------

/// `s` with every `from` replaced by the text `to`.
pub open spec fn replaced(s: Seq<char>, from: char, to: Seq<char>) -> Seq<char>
    decreases s.len(),
{
    if s.len() == 0 {
        Seq::empty()
    } else {
        replaced(s.drop_last(), from, to) + if s.last() == from {
            to
        } else {
            seq![s.last()]
        }
    }
}

/// `s` with every `from` replaced by `to`.
pub fn replace_char(s: &str, from: char, to: &str) -> (r: String)
    ensures
        r@ == replaced(s@, from, to@),
{
    let v = to_chars(s);
    let mut out = String::new();
    let mut i: usize = 0;
    while i < v.len()
        invariant
            0 <= i <= v@.len(),
            out@ == replaced(v@.take(i as int), from, to@),
        decreases v@.len() - i,
    {
        let c = v[i];
        let ghost before_out = out@;
        if c == from {
            out.append(to);
        } else {
            out.push(c);
            proof {
                assert(before_out.push(c) =~= before_out + seq![c]);
            }
        }
        i += 1;
        proof {
            let t = v@.take(i as int);
            assert(t.drop_last() =~= v@.take(i - 1));
            assert(t.last() == c);
        }
    }
    proof {
        assert(v@.take(v@.len() as int) =~= v@);
    }
    out
}

// ---------------------------------------------------------------------------
// Bytes and counts
// ---------------------------------------------------------------------------

/// How many bytes of UTF-8 a character takes.
pub open spec fn char_bytes(c: char) -> nat {
    if (c as u32) < 0x80 {
        1
    } else if (c as u32) < 0x800 {
        2
    } else if (c as u32) < 0x10000 {
        3
    } else {
        4
    }
}

/// How many bytes of UTF-8 a text takes.
pub open spec fn text_bytes(s: Seq<char>) -> nat
    decreases s.len(),
{
    if s.len() == 0 {
        0
    } else {
        text_bytes(s.drop_last()) + char_bytes(s.last())
    }
}

/// How many bytes of UTF-8 a character takes.
pub fn bytes_of_char(c: char) -> (r: usize)
    ensures
        r == char_bytes(c),
        1 <= r <= 4,
{
    let n = c as u32;
    if n < 0x80 {
        1
    } else if n < 0x800 {
        2
    } else if n < 0x10000 {
        3
    } else {
        4
    }
}

/// Whether a text takes at least `n` bytes of UTF-8.
pub fn has_bytes(s: &str, n: usize) -> (r: bool)
    ensures
        r == (text_bytes(s@) >= n),
{
    let chars = to_chars(s);
    let mut left: usize = n;
    let mut i: usize = 0;
    assert(s@.take(0) =~= Seq::<char>::empty());
    while i < chars.len()
        invariant
            i <= chars@.len(),
            chars@ == s@,
            left <= n,
            n - left == text_bytes(s@.take(i as int)),
        decreases chars@.len() - i,
    {
        let b = bytes_of_char(chars[i]);
        proof {
            assert(s@.take(i + 1).drop_last() =~= s@.take(i as int));
            lemma_text_bytes_take(s@, i + 1);
        }
        if b >= left {
            return true;
        }
        left -= b;
        i += 1;
    }
    assert(s@.take(s@.len() as int) =~= s@);
    left == 0
}

/// Whether a text takes at most `n` bytes of UTF-8.
pub fn fits_within(s: &str, n: usize) -> (r: bool)
    ensures
        r == (text_bytes(s@) <= n),
{
    let chars = to_chars(s);
    let mut left: usize = n;
    let mut i: usize = 0;
    assert(s@.take(0) =~= Seq::<char>::empty());
    while i < chars.len()
        invariant
            i <= chars@.len(),
            chars@ == s@,
            left <= n,
            n - left == text_bytes(s@.take(i as int)),
        decreases chars@.len() - i,
    {
        let b = bytes_of_char(chars[i]);
        proof {
            assert(s@.take(i + 1).drop_last() =~= s@.take(i as int));
            lemma_text_bytes_take(s@, i + 1);
        }
        if b > left {
            return false;
        }
        left -= b;
        i += 1;
    }
    assert(s@.take(s@.len() as int) =~= s@);
    true
}

proof fn lemma_text_bytes_take(s: Seq<char>, i: int)
    requires
        0 <= i <= s.len(),
    ensures
        text_bytes(s.take(i)) <= text_bytes(s),
    decreases s.len(),
{
    if i == s.len() {
        assert(s.take(i) =~= s);
    } else {
        lemma_text_bytes_take(s.drop_last(), i);
        assert(s.drop_last().take(i) =~= s.take(i));
    }
}

/// A text takes a byte for each character at least.
pub proof fn lemma_text_bytes_len(s: Seq<char>)
    ensures
        text_bytes(s) >= s.len(),
        text_bytes(s) <= 4 * s.len(),
    decreases s.len(),
{
    if s.len() > 0 {
        lemma_text_bytes_len(s.drop_last());
    }
}

/// How often `c` stands in `s`.
pub open spec fn count_of(s: Seq<char>, c: char) -> nat
    decreases s.len(),
{
    if s.len() == 0 {
        0
    } else {
        count_of(s.drop_last(), c) + if s.last() == c {
            1nat
        } else {
            0nat
        }
    }
}

/// How often `c` stands in `s`.
pub fn count_char(s: &str, c: char) -> (r: usize)
    ensures
        r == count_of(s@, c),
{
    let chars = to_chars(s);
    let mut found: usize = 0;
    let mut i: usize = 0;
    while i < chars.len()
        invariant
            i <= chars@.len(),
            chars@ == s@,
            found == count_of(s@.take(i as int), c),
            found <= i,
        decreases chars@.len() - i,
    {
        if chars[i] == c {
            found += 1;
        }
        i += 1;
        assert(s@.take(i as int).drop_last() =~= s@.take(i - 1));
    }
    assert(s@.take(s@.len() as int) =~= s@);
    found
}

/// `c`, `n` times.
pub open spec fn repeated(c: char, n: nat) -> Seq<char> {
    Seq::new(n, |i: int| c)
}

/// `c`, `n` times.
pub fn repeat_char(c: char, n: usize) -> (r: String)
    ensures
        r@ == repeated(c, n as nat),
{
    let mut out = String::new();
    let mut i: usize = 0;
    while i < n
        invariant
            i <= n,
            out@ =~= repeated(c, i as nat),
        decreases n - i,
    {
        out.push(c);
        i += 1;
    }
    out
}

/// The longest beginning of a text that takes at most `n` bytes.
pub open spec fn fitting_start(s: Seq<char>, n: nat) -> Seq<char>
    decreases s.len(),
{
    if text_bytes(s) <= n || s.len() == 0 {
        s
    } else {
        fitting_start(s.drop_last(), n)
    }
}

proof fn lemma_fitting_start(s: Seq<char>, i: int, n: nat)
    requires
        0 <= i <= s.len(),
        text_bytes(s.take(i)) <= n,
        i < s.len() ==> text_bytes(s.take(i + 1)) > n,
    ensures
        fitting_start(s, n) == s.take(i),
    decreases s.len(),
{
    if i == s.len() {
        assert(s.take(i) =~= s);
    } else {
        lemma_text_bytes_take(s, i + 1);
        let t = s.drop_last();
        assert(t.take(i) =~= s.take(i));
        if i < t.len() {
            assert(t.take(i + 1) =~= s.take(i + 1));
        }
        lemma_fitting_start(t, i, n);
    }
}

/// The longest beginning of a text that takes at most `n` bytes.
pub fn start_within(s: &str, n: usize) -> (r: String)
    ensures
        r@ == fitting_start(s@, n as nat),
{
    let chars = to_chars(s);
    let mut used: usize = 0;
    let mut i: usize = 0;
    assert(s@.take(0) =~= Seq::<char>::empty());
    while i < chars.len()
        invariant
            i <= chars@.len(),
            chars@ == s@,
            used == text_bytes(s@.take(i as int)),
            used <= n,
        decreases chars@.len() - i,
    {
        let b = bytes_of_char(chars[i]);
        assert(s@.take(i + 1).drop_last() =~= s@.take(i as int));
        if b > n - used {
            proof {
                lemma_fitting_start(s@, i as int, n as nat);
                assert(s@.subrange(0, i as int) =~= s@.take(i as int));
            }
            return from_chars_range(&chars, 0, i);
        }
        used += b;
        i += 1;
    }
    assert(s@.take(i as int) =~= s@);
    s.to_owned()
}

/// The longest end of a text that takes at most `n` bytes.
pub open spec fn fitting_end(s: Seq<char>, n: nat) -> Seq<char>
    decreases s.len(),
{
    if text_bytes(s) <= n || s.len() == 0 {
        s
    } else {
        fitting_end(s.skip(1), n)
    }
}

proof fn lemma_text_bytes_front(s: Seq<char>)
    requires
        s.len() > 0,
    ensures
        text_bytes(s) == char_bytes(s[0]) + text_bytes(s.skip(1)),
    decreases s.len(),
{
    if s.len() == 1 {
        assert(s.skip(1) =~= Seq::<char>::empty());
        assert(s.drop_last() =~= Seq::<char>::empty());
    } else {
        lemma_text_bytes_front(s.drop_last());
        assert(s.drop_last().skip(1) =~= s.skip(1).drop_last());
    }
}

proof fn lemma_fitting_end(s: Seq<char>, i: int, n: nat)
    requires
        0 <= i <= s.len(),
        text_bytes(s.skip(i)) <= n,
        i > 0 ==> text_bytes(s.skip(i - 1)) > n,
    ensures
        fitting_end(s, n) == s.skip(i),
        i > 0 ==> text_bytes(s) > n,
    decreases i,
{
    if i == 0 {
        assert(s.skip(0) =~= s);
    } else {
        let t = s.skip(1);
        assert(t.skip(i - 1) =~= s.skip(i));
        if i > 1 {
            assert(t.skip(i - 2) =~= s.skip(i - 1));
        } else {
            assert(s.skip(0) =~= s);
        }
        lemma_fitting_end(t, i - 1, n);
        lemma_text_bytes_front(s);
    }
}

/// The longest end of a text that takes at most `n` bytes.
pub fn end_within(s: &str, n: usize) -> (r: String)
    ensures
        r@ == fitting_end(s@, n as nat),
{
    let chars = to_chars(s);
    let len = chars.len();
    let mut used: usize = 0;
    let mut i: usize = len;
    assert(s@.skip(len as int) =~= Seq::<char>::empty());
    while i > 0
        invariant
            i <= len == chars@.len(),
            chars@ == s@,
            used == text_bytes(s@.skip(i as int)),
            used <= n,
        decreases i,
    {
        let b = bytes_of_char(chars[i - 1]);
        proof {
            lemma_text_bytes_front(s@.skip(i - 1));
            assert(s@.skip(i - 1).skip(1) =~= s@.skip(i as int));
        }
        if b > n - used {
            proof {
                lemma_fitting_end(s@, i as int, n as nat);
                assert(s@.subrange(i as int, len as int) =~= s@.skip(i as int));
            }
            return from_chars_range(&chars, i, len);
        }
        used += b;
        i -= 1;
    }
    proof {
        assert(s@.skip(0) =~= s@);
    }
    s.to_owned()
}

/// A text with spaces behind it up to a width, in characters.
pub open spec fn padded_right(s: Seq<char>, width: nat) -> Seq<char> {
    if s.len() >= width {
        s
    } else {
        s + repeated(' ', (width - s.len()) as nat)
    }
}

/// A text with spaces before it up to a width, in characters.
pub open spec fn padded_left(s: Seq<char>, width: nat) -> Seq<char> {
    if s.len() >= width {
        s
    } else {
        repeated(' ', (width - s.len()) as nat) + s
    }
}

/// A text with spaces behind it up to a width.
pub fn pad_right(s: &str, width: usize) -> (r: String)
    ensures
        r@ == padded_right(s@, width as nat),
{
    let n = to_chars(s).len();
    let mut out = s.to_owned();
    if n < width {
        out.append(repeat_char(' ', width - n).as_str());
    }
    out
}

/// A text with spaces before it up to a width.
pub fn pad_left(s: &str, width: usize) -> (r: String)
    ensures
        r@ == padded_left(s@, width as nat),
{
    let n = to_chars(s).len();
    if n < width {
        let mut out = repeat_char(' ', width - n);
        out.append(s);
        out
    } else {
        s.to_owned()
    }
}

// ---------------------------------------------------------------------------
// Laws
// ---------------------------------------------------------------------------

/// The decimal notation of a number puts its last digit behind that of its tens.
pub proof fn law_decimal_ends_in_the_last_digit(n: nat)
    ensures
        n < 10 ==> decimal_text(n) == seq![(48 + n) as char],
        n >= 10 ==> decimal_text(n) == decimal_text(n / 10).push((48 + n % 10) as char),
{
}

/// A text denotes a number exactly where it is made of decimal digits, at least
/// one, perhaps behind a plus sign, and the number is not too large. Its last
/// digit counts once, and the others ten times as much as without it.
pub proof fn law_numbers_are_decimal(s: Seq<char>, d: char, max: int)
    requires
        s.len() > 0,
        forall|i: int| 0 <= i < s.len() ==> '0' <= #[trigger] s[i] && s[i] <= '9',
    ensures
        number_in(Seq::empty(), max) is None,
        !('0' <= d && d <= '9') ==> number_in(s.push(d), max) is None,
        '0' <= d && d <= '9' && number_in(s, max) is Some ==> number_in(s.push(d), max) == (if 10
            * number_in(s, max)->0 + (d as int - 48) <= max {
            Some(10 * number_in(s, max)->0 + (d as int - 48))
        } else {
            None
        }),
        '0' <= d && d <= '9' ==> number_in(seq![d], max) == (if d as int - 48 <= max {
            Some(d as int - 48)
        } else {
            None
        }),
        number_in(seq!['+'] + s, max) == number_in(s, max),
{
    let t = s.push(d);
    assert(t[0] == s[0]);
    assert(t.drop_last() =~= s);
    assert(t.last() == d);
    if '0' <= d && d <= '9' {
        assert forall|i: int| 0 <= i < t.len() implies is_digit(#[trigger] t[i]) by {
            if i < s.len() {
                assert('0' <= s[i]);
            }
        }
        assert forall|i: int| 0 <= i < s.len() implies is_digit(#[trigger] s[i]) by {}
        assert(seq![d].drop_last() =~= Seq::<char>::empty());
        assert(digits_value(seq![d]) == digits_value(seq![d].drop_last()) * 10 + digit_value(d));
    } else {
        assert(!is_digit(t[s.len() as int]));
    }
    assert((seq!['+'] + s).skip(1) =~= s);
    assert(s[0] != '+') by {
        assert('0' <= s[0]);
    }
}

/// Taking white space, or a character, off a text takes it off both ends and
/// nothing else: what is left is one piece of the text, what is taken off is all
/// of that sort, and nothing of that sort is left at either end.
pub proof fn law_trimming_takes_both_ends(s: Seq<char>, which: Option<char>)
    ensures
        exists|i: int, j: int|
            #![trigger s.subrange(i, j)]
            0 <= i <= j <= s.len() && trim_both(s, which) == s.subrange(i, j) && (forall|k: int|
                0 <= k < i || j <= k < s.len() ==> is_trimmed(#[trigger] s[k], which)),
        trim_both(s, which).len() > 0 ==> !is_trimmed(trim_both(s, which)[0], which)
            && !is_trimmed(trim_both(s, which).last(), which),
{
    let p = |x: char| is_trimmed(x, which);
    let i = lemma_trim_front_cut(s, p);
    let t = s.skip(i);
    let j = lemma_trim_back_cut(t, p);
    let r = t.take(j);
    assert(trim_both(s, which) == r);
    assert(r =~= s.subrange(i, i + j));
    assert forall|k: int| 0 <= k < i || i + j <= k < s.len() implies is_trimmed(
        #[trigger] s[k],
        which,
    ) by {
        if k < i {
            assert(p(s[k]));
        } else {
            assert(p(t[k - i]));
        }
    }
    if r.len() > 0 {
        assert(!p(t[0]));
        assert(!p(t[j - 1]));
    }
}

proof fn lemma_trim_front_cut(s: Seq<char>, p: spec_fn(char) -> bool) -> (i: int)
    ensures
        0 <= i <= s.len(),
        trim_front(s, p) == s.skip(i),
        forall|k: int| 0 <= k < i ==> p(#[trigger] s[k]),
        i < s.len() ==> !p(s[i]),
    decreases s.len(),
{
    if s.len() > 0 && p(s[0]) {
        let j = lemma_trim_front_cut(s.skip(1), p);
        assert(s.skip(1).skip(j) =~= s.skip(j + 1));
        assert forall|k: int| 0 <= k < j + 1 implies p(#[trigger] s[k]) by {
            if k > 0 {
                assert(p(s.skip(1)[k - 1]));
            }
        }
        j + 1
    } else {
        assert(s.skip(0) =~= s);
        0
    }
}

proof fn lemma_trim_back_cut(s: Seq<char>, p: spec_fn(char) -> bool) -> (j: int)
    ensures
        0 <= j <= s.len(),
        trim_back(s, p) == s.take(j),
        forall|k: int| j <= k < s.len() ==> p(#[trigger] s[k]),
        j > 0 ==> !p(s[j - 1]),
    decreases s.len(),
{
    if s.len() > 0 && p(s.last()) {
        let j = lemma_trim_back_cut(s.drop_last(), p);
        assert(s.drop_last().take(j) =~= s.take(j));
        assert forall|k: int| j <= k < s.len() implies p(#[trigger] s[k]) by {
            if k < s.len() - 1 {
                assert(p(s.drop_last()[k]));
            }
        }
        j
    } else {
        assert(s.take(s.len() as int) =~= s);
        s.len() as int
    }
}

/// The part of a text before the first of a character, or behind the last of
/// it, is the whole text where it has none.
pub proof fn law_parts_of_a_text(a: Seq<char>, c: char, b: Seq<char>)
    ensures
        !a.contains(c) ==> before(a + seq![c] + b, c) == a && before(a, c) == a,
        !b.contains(c) ==> after_last(a + seq![c] + b, c) == b && after_last(b, c) == b,
{
    if !a.contains(c) {
        assert forall|j: int| 0 <= j < a.len() implies a[j] != c by {
            assert(a.contains(a[j]));
        }
        lemma_before_joined(a, c, b);
        lemma_first_index_is(a, c, a.len() as int);
        assert(a.take(a.len() as int) =~= a);
    }
    if !b.contains(c) {
        assert forall|j: int| 0 <= j < b.len() implies b[j] != c by {
            assert(b.contains(b[j]));
        }
        lemma_after_last_joined(a, c, b);
        lemma_after_last_absent(b, c);
    }
}

/// Replacing a character in two texts and joining them is replacing it in the
/// joined text; a character is replaced exactly where it is the one.
pub proof fn law_replacing_goes_by_character(a: Seq<char>, b: Seq<char>, from: char, to: Seq<char>)
    ensures
        replaced(a + b, from, to) == replaced(a, from, to) + replaced(b, from, to),
        replaced(seq![from], from, to) == to,
        forall|c: char| c != from ==> #[trigger] replaced(seq![c], from, to) == seq![c],
    decreases b.len(),
{
    if b.len() == 0 {
        assert(a + b =~= a);
        assert(replaced(a, from, to) + replaced(b, from, to) =~= replaced(a, from, to));
    } else {
        law_replacing_goes_by_character(a, b.drop_last(), from, to);
        assert((a + b).drop_last() =~= a + b.drop_last());
        assert((a + b).last() == b.last());
        assert(replaced(a + b, from, to) =~= replaced(a, from, to) + replaced(b, from, to));
    }
    assert forall|c: char|
        (c == from ==> replaced(#[trigger] seq![c], from, to) == to) && (c != from ==> replaced(
            seq![c],
            from,
            to,
        ) == seq![c]) by {
        let one = seq![c];
        assert(one.drop_last() =~= Seq::<char>::empty());
        assert(one.last() == c);
        assert(replaced(one.drop_last(), from, to) == Seq::<char>::empty());
        assert(Seq::<char>::empty() + to =~= to);
        assert(Seq::<char>::empty() + one =~= one);
    }
    assert(seq![from].last() == from);
}

/// The bytes that a text takes are those of its UTF-8 encoding.
pub proof fn law_text_bytes_are_utf8(s: Seq<char>)
    ensures
        text_bytes(s) == vstd::utf8::encode_utf8(s).len(),
    decreases s.len(),
{
    if s.len() > 0 {
        law_text_bytes_are_utf8(s.skip(1));
        lemma_text_bytes_front(s);
        assert(s.drop_first() =~= s.skip(1));
        vstd::utf8::char_is_scalar(s[0]);
        assert(vstd::utf8::encode_scalar(s[0] as u32).len() == char_bytes(s[0]));
        assert(vstd::utf8::encode_utf8(s) == vstd::utf8::encode_scalar(s[0] as u32)
            + vstd::utf8::encode_utf8(s.drop_first()));
    }
}

/// What fits of a text into so many bytes is the longest start of it that does,
/// or the longest end.
pub proof fn law_as_much_as_fits(s: Seq<char>, n: nat)
    ensures
        fitting_start(s, n).is_prefix_of(s),
        text_bytes(fitting_start(s, n)) <= n,
        forall|k: int|
            0 <= k <= s.len() && text_bytes(#[trigger] s.take(k)) <= n ==> k <= fitting_start(
                s,
                n,
            ).len(),
        fitting_end(s, n).is_suffix_of(s),
        text_bytes(fitting_end(s, n)) <= n,
        forall|k: int|
            0 <= k <= s.len() && text_bytes(#[trigger] s.skip(k)) <= n ==> s.len() - k
                <= fitting_end(s, n).len(),
    decreases s.len(),
{
    if text_bytes(s) <= n || s.len() == 0 {
        assert(s.take(s.len() as int) =~= s);
        assert(s.skip(0) =~= s);
        assert(s.is_suffix_of(s)) by {
            assert(s.subrange(0, s.len() as int) =~= s);
        }
    } else {
        let t = s.drop_last();
        law_as_much_as_fits(t, n);
        let r = fitting_start(s, n);
        assert(s.take(r.len() as int) =~= t.take(r.len() as int));
        assert forall|k: int| 0 <= k <= s.len() && text_bytes(#[trigger] s.take(k)) <= n implies k
            <= r.len() by {
            if k == s.len() {
                assert(s.take(k) =~= s);
            } else {
                assert(t.take(k) =~= s.take(k));
            }
        }
        let u = s.skip(1);
        law_as_much_as_fits(u, n);
        let e = fitting_end(s, n);
        assert(e.is_suffix_of(s)) by {
            assert(s.subrange(s.len() - e.len(), s.len() as int) =~= u.subrange(
                u.len() - e.len(),
                u.len() as int,
            ));
        }
        assert forall|k: int| 0 <= k <= s.len() && text_bytes(#[trigger] s.skip(k)) <= n implies s.len()
            - k <= e.len() by {
            if k == 0 {
                assert(s.skip(0) =~= s);
            } else {
                assert(u.skip(k - 1) =~= s.skip(k));
            }
        }
    }
}

/// A text is filled up with spaces to a width and never cut.
pub proof fn law_padding_fills_up(s: Seq<char>, width: nat)
    ensures
        padded_right(s, width).len() == (if s.len() >= width {
            s.len()
        } else {
            width
        }),
        padded_left(s, width).len() == padded_right(s, width).len(),
        padded_right(s, width).take(s.len() as int) == s,
        padded_left(s, width).skip(padded_left(s, width).len() - s.len()) == s,
        forall|i: int| s.len() <= i < width ==> #[trigger] padded_right(s, width)[i] == ' ',
        forall|i: int|
            0 <= i < width - s.len() ==> #[trigger] padded_left(s, width)[i] == ' ',
{
    assert(padded_right(s, width).take(s.len() as int) =~= s);
    assert(padded_left(s, width).skip(padded_left(s, width).len() - s.len()) =~= s);
}

}
