//! Plain text operations: views of strings as sequences of characters, and the
//! trimming, splitting and searching that the parsers and validators are built from.

use vstd::prelude::*;
use vstd::utf8::*;

verus! {

/// `String::push` appends one character at the end of the string.
pub assume_specification[ String::push ](s: &mut String, c: char)
    ensures
        final(s)@ == old(s)@.push(c),
;

/// The characters of `s`, in order.
pub fn chars_of(s: &str) -> (chars: Vec<char>)
    ensures
        chars@ == s@,
{
    let mut chars: Vec<char> = Vec::new();
    for c in it: s.chars()
        invariant
            chars@ == s@.take(it.index()),
            it.seq() == s@,
    {
        chars.push(c);
    }
    assert(s@.take(s@.len() as int) == s@);
    chars
}

/// One text after another.
pub fn concat(a: &str, b: &str) -> (s: String)
    ensures
        s@ == a@ + b@,
{
    let mut s = a.to_owned();
    s.append(b);
    s
}

/// Three texts one after another.
pub fn concat3(a: &str, b: &str, c: &str) -> (s: String)
    ensures
        s@ == a@ + b@ + c@,
{
    let mut s = concat(a, b);
    s.append(c);
    s
}

/// Whether two strings hold the same characters.
pub fn same_text(a: &str, b: &str) -> (same: bool)
    ensures
        same == (a@ == b@),
{
    a.to_owned() == b.to_owned()
}

/// The characters with the Unicode `White_Space` property.
pub open spec fn is_white_space(c: char) -> bool {
    let v = c as u32;
    ||| 0x9 <= v <= 0xD
    ||| v == 0x20
    ||| v == 0x85
    ||| v == 0xA0
    ||| v == 0x1680
    ||| 0x2000 <= v <= 0x200A
    ||| v == 0x2028
    ||| v == 0x2029
    ||| v == 0x202F
    ||| v == 0x205F
    ||| v == 0x3000
}

/// Whether `c` is white space.
pub fn white_space(c: char) -> (b: bool)
    ensures
        b == is_white_space(c),
{
    let v: u32 = c as u32;
    (0x9 <= v && v <= 0xD) || v == 0x20 || v == 0x85 || v == 0xA0 || v == 0x1680 || (0x2000 <= v
        && v <= 0x200A) || v == 0x2028 || v == 0x2029 || v == 0x202F || v == 0x205F || v == 0x3000
}

/// `s` without the white space at its start.
pub open spec fn trim_start_of(s: Seq<char>) -> Seq<char>
    decreases s.len(),
{
    if s.len() > 0 && is_white_space(s.first()) {
        trim_start_of(s.drop_first())
    } else {
        s
    }
}

/// `s` without the white space at its end.
pub open spec fn trim_end_of(s: Seq<char>) -> Seq<char>
    decreases s.len(),
{
    if s.len() > 0 && is_white_space(s.last()) {
        trim_end_of(s.drop_last())
    } else {
        s
    }
}

/// `s` without the white space at either end.
pub open spec fn trimmed(s: Seq<char>) -> Seq<char> {
    trim_end_of(trim_start_of(s))
}

/// A text that neither starts nor ends with white space is left as it is.
pub proof fn lemma_trimmed_is_same(s: Seq<char>)
    requires
        s.len() > 0 ==> !is_white_space(s.first()) && !is_white_space(s.last()),
    ensures
        trimmed(s) == s,
{
}

/// Trimming the start leaves no white space there.
proof fn lemma_trim_start(s: Seq<char>)
    ensures
        trim_start_of(s).len() > 0 ==> !is_white_space(trim_start_of(s).first()),
    decreases s.len(),
{
    if s.len() > 0 && is_white_space(s.first()) {
        lemma_trim_start(s.drop_first());
    }
}

/// Trimming the end leaves no white space there, and keeps the start.
proof fn lemma_trim_end(s: Seq<char>)
    ensures
        trim_end_of(s).len() > 0 ==> !is_white_space(trim_end_of(s).last())
            && trim_end_of(s).first() == s.first(),
    decreases s.len(),
{
    if s.len() > 0 && is_white_space(s.last()) {
        lemma_trim_end(s.drop_last());
    }
}

/// Trimming twice is trimming once.
pub proof fn law_trimming_is_stable(s: Seq<char>)
    ensures
        trimmed(trimmed(s)) == trimmed(s),
{
    lemma_trim_start(s);
    lemma_trim_end(trim_start_of(s));
    lemma_trimmed_is_same(trimmed(s));
}

/// `s` without the white space at either end.
pub fn trim(s: &str) -> (r: &str)
    ensures
        r@ == trimmed(s@),
{
    let chars = chars_of(s);
    let mut start: usize = 0;
    assert(chars@.skip(0) =~= chars@);
    while start < chars.len() && white_space(chars[start])
        invariant
            start <= chars@.len(),
            chars@ == s@,
            trim_start_of(chars@.skip(start as int)) == trim_start_of(chars@),
        decreases chars@.len() - start,
    {
        assert(chars@.skip(start as int).drop_first() =~= chars@.skip(start + 1));
        start = start + 1;
    }
    assert(trim_start_of(chars@.skip(start as int)) == chars@.skip(start as int));
    let mut end: usize = chars.len();
    assert(chars@.subrange(start as int, end as int) =~= chars@.skip(start as int));
    while end > start && white_space(chars[end - 1])
        invariant
            start <= end <= chars@.len(),
            chars@ == s@,
            trim_end_of(chars@.subrange(start as int, end as int)) == trim_end_of(
                chars@.skip(start as int),
            ),
        decreases end,
    {
        assert(chars@.subrange(start as int, end as int).drop_last() =~= chars@.subrange(
            start as int,
            end - 1,
        ));
        end = end - 1;
    }
    s.substring_char(start, end)
}

/// The pieces of `s` between the characters that `is_separator` picks out. A string without a
/// separator is one piece; the pieces are empty where separators touch each other or an end.
pub open spec fn pieces(s: Seq<char>, is_separator: spec_fn(char) -> bool) -> Seq<Seq<char>>
    decreases s.len(),
{
    if s.len() == 0 {
        seq![Seq::empty()]
    } else {
        let before = pieces(s.drop_last(), is_separator);
        if is_separator(s.last()) {
            before.push(Seq::empty())
        } else {
            before.drop_last().push(before.last().push(s.last()))
        }
    }
}

/// The texts of a vector of strings.
pub open spec fn texts(strings: Seq<String>) -> Seq<Seq<char>> {
    Seq::new(strings.len(), |i: int| strings[i]@)
}

/// There is always at least one piece.
pub proof fn lemma_pieces_nonempty(s: Seq<char>, is_separator: spec_fn(char) -> bool)
    ensures
        pieces(s, is_separator).len() > 0,
    decreases s.len(),
{
    if s.len() > 0 {
        lemma_pieces_nonempty(s.drop_last(), is_separator);
    }
}

/// The pieces of `s` between the occurrences of `separator`.
pub fn split(s: &str, separator: char) -> (parts: Vec<String>)
    ensures
        texts(parts@) == pieces(s@, |c: char| c == separator),
        parts@.len() > 0,
{
    let ghost is_separator = |c: char| c == separator;
    let chars = chars_of(s);
    let mut parts: Vec<String> = Vec::new();
    let mut current = String::new();
    for i in 0..chars.len()
        invariant
            chars@ == s@,
            is_separator == (|c: char| c == separator),
            texts(parts@).push(current@) == pieces(chars@.take(i as int), is_separator),
    {
        let ghost whole = chars@.take(i + 1);
        assert(whole.drop_last() =~= chars@.take(i as int));
        let ghost before = texts(parts@).push(current@);
        if chars[i] == separator {
            parts.push(current);
            assert(texts(parts@) =~= before);
            current = String::new();
        } else {
            current.push(chars[i]);
            assert(before.drop_last() =~= texts(parts@));
        }
    }
    assert(chars@.take(chars@.len() as int) == chars@);
    let ghost before = texts(parts@).push(current@);
    parts.push(current);
    assert(texts(parts@) =~= before);
    parts
}

/// The words of `s`: its pieces between white space, without the empty ones.
pub open spec fn words(s: Seq<char>) -> Seq<Seq<char>> {
    pieces(s, |c: char| is_white_space(c)).filter(|w: Seq<char>| w.len() > 0)
}

/// The words of `s`.
pub fn split_whitespace(s: &str) -> (r: Vec<String>)
    ensures
        texts(r@) == words(s@),
{
    let ghost is_separator = |c: char| is_white_space(c);
    let ghost kept = |w: Seq<char>| w.len() > 0;
    let chars = chars_of(s);
    let mut r: Vec<String> = Vec::new();
    let mut current = String::new();
    for i in 0..chars.len()
        invariant
            chars@ == s@,
            is_separator == (|c: char| is_white_space(c)),
            kept == (|w: Seq<char>| w.len() > 0),
            pieces(chars@.take(i as int), is_separator).len() > 0,
            texts(r@) == pieces(chars@.take(i as int), is_separator).drop_last().filter(kept),
            current@ == pieces(chars@.take(i as int), is_separator).last(),
    {
        let ghost whole = chars@.take(i + 1);
        assert(whole.drop_last() =~= chars@.take(i as int));
        let ghost before = pieces(chars@.take(i as int), is_separator);
        let ghost after = pieces(whole, is_separator);
        let ghost r0 = texts(r@);
        if white_space(chars[i]) {
            proof {
                assert(after.drop_last() =~= before);
                reveal(Seq::filter);
            }
            if current.as_str().is_empty() {
                current = String::new();
            } else {
                r.push(current);
                assert(texts(r@) =~= r0.push(before.last()));
                current = String::new();
            }
        } else {
            assert(after.drop_last() =~= before.drop_last());
            current.push(chars[i]);
        }
    }
    assert(chars@.take(chars@.len() as int) == chars@);
    proof {
        reveal(Seq::filter);
    }
    if !current.as_str().is_empty() {
        let ghost r0 = texts(r@);
        let ghost last = current@;
        r.push(current);
        assert(texts(r@) =~= r0.push(last));
    }
    r
}

/// Whether `prefix` starts `s`.
pub open spec fn has_prefix(s: Seq<char>, prefix: Seq<char>) -> bool {
    prefix.len() <= s.len() && s.take(prefix.len() as int) == prefix
}

/// What follows `prefix` in `s`, if `s` starts with it.
pub fn strip_prefix<'a>(s: &'a str, prefix: &str) -> (rest: Option<&'a str>)
    ensures
        rest is Some <==> has_prefix(s@, prefix@),
        rest matches Some(r) ==> r@ == s@.skip(prefix@.len() as int),
{
    let n: usize = prefix.unicode_len();
    let m: usize = s.unicode_len();
    if n <= m && same_text(s.substring_char(0, n), prefix) {
        assert(s@.take(n as int) =~= s@.subrange(0, n as int));
        assert(s@.skip(n as int) =~= s@.subrange(n as int, m as int));
        Some(s.substring_char(n, m))
    } else {
        assert(n <= m ==> s@.take(n as int) =~= s@.subrange(0, n as int));
        None
    }
}

/// Where `c` first stands in `s`.
pub open spec fn index_of_char(s: Seq<char>, c: char) -> Option<int>
    decreases s.len(),
{
    if s.len() == 0 {
        None
    } else if s.first() == c {
        Some(0)
    } else {
        match index_of_char(s.drop_first(), c) {
            Some(i) => Some(i + 1),
            None => None,
        }
    }
}

/// `index_of_char` points at `c`, with no `c` before it, and finds one if there is one.
pub proof fn lemma_index_of_char(s: Seq<char>, c: char)
    ensures
        match index_of_char(s, c) {
            Some(i) => 0 <= i < s.len() && s[i] == c && !s.take(i).contains(c),
            None => !s.contains(c),
        },
    decreases s.len(),
{
    if s.len() > 0 && s.first() != c {
        let rest = s.drop_first();
        lemma_index_of_char(rest, c);
        match index_of_char(rest, c) {
            Some(i) => {
                assert forall|j: int| 0 <= j < i + 1 implies s[j] != c by {
                    if j > 0 {
                        assert(rest.take(i)[j - 1] == s[j]);
                    }
                }
            },
            None => {
                assert forall|j: int| 0 <= j < s.len() implies s[j] != c by {
                    if j > 0 {
                        assert(rest[j - 1] == s[j]);
                    }
                }
            },
        }
    }
}

/// A `c` with no other before it is the one that `index_of_char` finds.
pub proof fn lemma_index_of_char_is(s: Seq<char>, c: char, i: int)
    requires
        0 <= i < s.len(),
        s[i] == c,
        !s.take(i).contains(c),
    ensures
        index_of_char(s, c) == Some(i),
{
    lemma_index_of_char(s, c);
    let found = index_of_char(s, c)->0;
    assert(s.contains(c));
    if found < i {
        assert(s.take(i)[found] == c);
    }
    if i < found {
        assert(s.take(found)[i] == c);
    }
}

/// Where `c` first stands in `s`.
pub fn find_char(s: &str, c: char) -> (r: Option<usize>)
    ensures
        match r {
            Some(i) => index_of_char(s@, c) == Some(i as int) && i < s@.len(),
            None => index_of_char(s@, c) is None,
        },
{
    proof {
        lemma_index_of_char(s@, c);
    }
    let chars = chars_of(s);
    for i in 0..chars.len()
        invariant
            chars@ == s@,
            !chars@.take(i as int).contains(c),
    {
        if chars[i] == c {
            proof {
                lemma_index_of_char_is(s@, c, i as int);
            }
            return Some(i);
        }
        assert(chars@.take(i + 1) =~= chars@.take(i as int).push(chars@[i as int]));
    }
    assert(chars@.take(chars@.len() as int) == chars@);
    None
}

/// Whether `s` contains the character `c`.
pub fn contains_char(s: &str, c: char) -> (b: bool)
    ensures
        b == s@.contains(c),
{
    proof {
        lemma_index_of_char(s@, c);
    }
    find_char(s, c).is_some()
}

/// `s` before and after the first `c`, if there is one.
pub open spec fn cut_at(s: Seq<char>, c: char) -> Option<(Seq<char>, Seq<char>)> {
    match index_of_char(s, c) {
        Some(i) => Some((s.take(i), s.skip(i + 1))),
        None => None,
    }
}

/// `s` before and after the first `c`, if there is one.
pub fn split_once<'a>(s: &'a str, c: char) -> (r: Option<(&'a str, &'a str)>)
    ensures
        match r {
            Some((head, tail)) => cut_at(s@, c) == Some((head@, tail@)),
            None => cut_at(s@, c) is None,
        },
{
    match find_char(s, c) {
        Some(i) => {
            let n: usize = s.unicode_len();
            assert(s@.take(i as int) =~= s@.subrange(0, i as int));
            assert(s@.skip(i + 1) =~= s@.subrange(i + 1, n as int));
            Some((s.substring_char(0, i), s.substring_char(i + 1, n)))
        },
        None => None,
    }
}

/// Calls `String::from_utf8`: the string whose UTF-8 encoding is `bytes`, or nothing if `bytes` is
/// not UTF-8.
#[verifier::external_body]
pub(crate) fn string_from_utf8(bytes: Vec<u8>) -> (r: Option<String>)
    ensures
        r is Some <==> valid_utf8(bytes@),
        r matches Some(s) ==> s@ == decode_utf8(bytes@),
{
    String::from_utf8(bytes).ok()
}

/// The text of an optional string.
pub open spec fn optional(s: Option<&str>) -> Option<Seq<char>> {
    match s {
        Some(t) => Some(t@),
        None => None,
    }
}

/// The value of a decimal digit.
pub open spec fn digit_value(c: char) -> int {
    c as u32 - '0' as u32
}

/// Whether `s` is one or more decimal digits.
pub open spec fn is_digits(s: Seq<char>) -> bool {
    &&& s.len() > 0
    &&& forall|i: int| 0 <= i < s.len() ==> '0' <= #[trigger] s[i] <= '9'
}

/// The number that decimal digits stand for.
pub open spec fn decimal_value(s: Seq<char>) -> nat
    decreases s.len(),
{
    if s.len() == 0 {
        0
    } else {
        (10 * decimal_value(s.drop_last()) + digit_value(s.last())) as nat
    }
}

/// The decimal digits of `n`.
pub open spec fn decimal(n: nat) -> Seq<char>
    decreases n,
{
    let digit = ('0' as u32 + n % 10) as char;
    if n < 10 {
        seq![digit]
    } else {
        decimal(n / 10).push(digit)
    }
}

/// The number that `s` spells, if it is digits with at most a leading `+` and not above `max`.
pub open spec fn unsigned_value(s: Seq<char>, max: nat) -> Option<nat> {
    let digits = if s.len() > 0 && s.first() == '+' {
        s.drop_first()
    } else {
        s
    };
    if is_digits(digits) && decimal_value(digits) <= max {
        Some(decimal_value(digits))
    } else {
        None
    }
}

/// The number that `s` spells, if it is digits with at most a leading sign and fits in 64 bits.
pub open spec fn signed_value(s: Seq<char>) -> Option<int> {
    let digits = if s.len() > 0 && (s.first() == '+' || s.first() == '-') {
        s.drop_first()
    } else {
        s
    };
    if is_digits(digits) {
        let v = if s.first() == '-' {
            -decimal_value(digits)
        } else {
            decimal_value(digits) as int
        };
        if i64::MIN <= v <= i64::MAX {
            Some(v)
        } else {
            None
        }
    } else {
        None
    }
}

/// The number that the digits from `start` on stand for, if there are any and the number is not
/// above `max`.
fn parse_digits(chars: &Vec<char>, start: usize, max: u64) -> (r: Option<u64>)
    requires
        start <= chars@.len(),
    ensures
        match r {
            Some(v) => is_digits(chars@.skip(start as int)) && decimal_value(
                chars@.skip(start as int),
            ) == v && v <= max,
            None => !is_digits(chars@.skip(start as int)) || decimal_value(
                chars@.skip(start as int),
            ) > max,
        },
{
    let ghost digits = chars@.skip(start as int);
    if start == chars.len() {
        return None;
    }
    let mut value: u64 = 0;
    let mut over = false;
    let mut i: usize = start;
    while i < chars.len()
        invariant
            start <= i <= chars@.len(),
            digits == chars@.skip(start as int),
            forall|j: int| 0 <= j < i - start ==> '0' <= #[trigger] digits[j] <= '9',
            !over ==> value == decimal_value(digits.take(i - start)) && value <= max,
            over ==> decimal_value(digits.take(i - start)) > max,
        decreases chars@.len() - i,
    {
        let c = chars[i];
        assert(digits[i - start] == c);
        if c < '0' || c > '9' {
            return None;
        }
        assert(digits.take(i - start + 1).drop_last() =~= digits.take(i - start));
        if !over {
            let next: u128 = value as u128 * 10 + (c as u32 - '0' as u32) as u128;
            if next > max as u128 {
                over = true;
            } else {
                value = next as u64;
            }
        }
        i = i + 1;
    }
    assert(digits.take(digits.len() as int) =~= digits);
    if over {
        None
    } else {
        Some(value)
    }
}

/// Parses an unsigned decimal number that is not above `max`. A leading `+` is accepted.
pub fn parse_unsigned(s: &str, max: u64) -> (r: Option<u64>)
    ensures
        match r {
            Some(v) => unsigned_value(s@, max as nat) == Some(v as nat),
            None => unsigned_value(s@, max as nat) is None,
        },
{
    let chars = chars_of(s);
    let start: usize = if chars.len() > 0 && chars[0] == '+' {
        1
    } else {
        0
    };
    assert(start == 1 ==> chars@.skip(1) =~= s@.drop_first());
    assert(start == 0 ==> chars@.skip(0) =~= s@);
    parse_digits(&chars, start, max)
}

/// Parses a signed decimal number of 64 bits. A leading sign is accepted.
pub fn parse_signed(s: &str) -> (r: Option<i64>)
    ensures
        match r {
            Some(v) => signed_value(s@) == Some(v as int),
            None => signed_value(s@) is None,
        },
{
    let chars = chars_of(s);
    if chars.len() > 0 && chars[0] == '-' {
        assert(chars@.skip(1) =~= s@.drop_first());
        match parse_digits(&chars, 1, 0x8000_0000_0000_0000) {
            Some(v) => Some((-(v as i128)) as i64),
            None => None,
        }
    } else {
        let start: usize = if chars.len() > 0 && chars[0] == '+' {
            1
        } else {
            0
        };
        assert(start == 1 ==> chars@.skip(1) =~= s@.drop_first());
        assert(start == 0 ==> chars@.skip(0) =~= s@);
        match parse_digits(&chars, start, 0x7fff_ffff_ffff_ffff) {
            Some(v) => Some(v as i64),
            None => None,
        }
    }
}

/// The decimal digits of `n`.
pub fn decimal_string(n: u64) -> (s: String)
    ensures
        s@ == decimal(n as nat),
    decreases n,
{
    let digit: u8 = 48u8 + (n % 10) as u8;
    let mut s = if n < 10 {
        String::new()
    } else {
        decimal_string(n / 10)
    };
    s.push(digit as char);
    s
}

/// How a number of either sign is written.
pub open spec fn signed_decimal(v: int) -> Seq<char> {
    if v < 0 {
        seq!['-'] + decimal((-v) as nat)
    } else {
        decimal(v as nat)
    }
}

/// A number of either sign as text.
pub fn signed_string(v: i64) -> (s: String)
    ensures
        s@ == signed_decimal(v as int),
{
    if v < 0 {
        let mut s = String::new();
        s.push('-');
        s.append(decimal_string((-(v as i128)) as u64).as_str());
        assert(s@ =~= signed_decimal(v as int));
        s
    } else {
        decimal_string(v as u64)
    }
}

/// The first `n` characters of `s`, or all of them if there are fewer.
pub open spec fn shortened(s: Seq<char>, n: nat) -> Seq<char> {
    if s.len() <= n {
        s
    } else {
        s.take(n as int)
    }
}

/// The first `n` characters of `s`, or all of them if there are fewer.
pub fn first_chars(s: &str, n: usize) -> (r: String)
    ensures
        r@ == shortened(s@, n as nat),
{
    if s.unicode_len() <= n {
        s.to_owned()
    } else {
        assert(s@.subrange(0, n as int) =~= s@.take(n as int));
        s.substring_char(0, n).to_owned()
    }
}

/// Decimal digits stand for the number they were written from.
pub proof fn law_decimal_round_trip(n: nat)
    ensures
        is_digits(decimal(n)),
        decimal_value(decimal(n)) == n,
    decreases n,
{
    let s = decimal(n);
    if n >= 10 {
        law_decimal_round_trip(n / 10);
        assert(s.drop_last() =~= decimal(n / 10));
        assert forall|i: int| 0 <= i < s.len() implies '0' <= #[trigger] s[i] <= '9' by {
            if i < s.len() - 1 {
                assert(s[i] == decimal(n / 10)[i]);
            }
        }
    } else {
        assert(s.drop_last() =~= Seq::empty());
        assert(decimal_value(s.drop_last()) == 0);
    }
}

/// The lines of `s`: its pieces between newlines, each without a carriage return that stood before
/// its newline. A newline at the very end starts no further line.
pub open spec fn lines(s: Seq<char>) -> Seq<Seq<char>> {
    let parts = pieces(s, |c: char| c == '\n');
    let ended = parts.drop_last().map_values(|line: Seq<char>| without_carriage_return(line));
    if parts.last().len() == 0 {
        ended
    } else {
        ended.push(parts.last())
    }
}

/// `line` without one carriage return at its end.
pub open spec fn without_carriage_return(line: Seq<char>) -> Seq<char> {
    if line.len() > 0 && line.last() == '\r' {
        line.drop_last()
    } else {
        line
    }
}

/// The lines of `s`.
pub fn split_lines(s: &str) -> (r: Vec<String>)
    ensures
        texts(r@) == lines(s@),
{
    let parts = split(s, '\n');
    let ghost all = pieces(s@, |c: char| c == '\n');
    let last: usize = parts.len() - 1;
    let mut r: Vec<String> = Vec::new();
    for i in 0..last
        invariant
            last == parts@.len() - 1,
            texts(parts@) == all,
            texts(r@) == all.take(i as int).map_values(
                |line: Seq<char>| without_carriage_return(line),
            ),
    {
        let ghost done = texts(r@);
        let line = strip_carriage_return(parts[i].as_str());
        assert(all[i as int] == parts@[i as int]@);
        assert(all.take(i + 1) =~= all.take(i as int).push(all[i as int]));
        r.push(line.to_owned());
        assert(texts(r@) =~= done.push(without_carriage_return(all[i as int])));
        assert(texts(r@) =~= all.take(i + 1).map_values(
            |line: Seq<char>| without_carriage_return(line),
        ));
    }
    assert(all.take(last as int) =~= all.drop_last());
    assert(all.last() == parts@[last as int]@);
    if !parts[last].as_str().is_empty() {
        let ghost done = texts(r@);
        r.push(parts[last].clone());
        assert(texts(r@) =~= done.push(all.last()));
    }
    r
}

/// `line` without one carriage return at its end.
fn strip_carriage_return(line: &str) -> (r: &str)
    ensures
        r@ == without_carriage_return(line@),
{
    let n: usize = line.unicode_len();
    if n > 0 && line.get_char(n - 1) == '\r' {
        assert(line@.drop_last() =~= line@.subrange(0, n - 1));
        line.substring_char(0, n - 1)
    } else {
        line
    }
}

/// What `String::from_utf8_lossy` makes of bytes that are not all UTF-8.
pub uninterp spec fn lossy_text(bytes: Seq<u8>) -> Seq<char>;

/// Calls `String::from_utf8_lossy`, which replaces what is not UTF-8 and leaves the rest as it is.
#[verifier::external_body]
pub(crate) fn lossy_string(bytes: &[u8]) -> (s: String)
    ensures
        s@ == lossy_text(bytes@),
        valid_utf8(bytes@) ==> s@ == decode_utf8(bytes@),
{
    String::from_utf8_lossy(bytes).into_owned()
}

/// How `Utf8Error` describes the first fault in bytes that are not UTF-8.
pub uninterp spec fn utf8_fault(bytes: Seq<u8>) -> Seq<char>;

/// Calls `str::from_utf8`: the text that `bytes` encode, or a description of the fault.
#[verifier::external_body]
pub(crate) fn utf8_text(bytes: &[u8]) -> (r: Result<&str, String>)
    ensures
        match r {
            Ok(s) => valid_utf8(bytes@) && s@ == decode_utf8(bytes@),
            Err(fault) => !valid_utf8(bytes@) && fault@ == utf8_fault(bytes@),
        },
{
    match std::str::from_utf8(bytes) {
        Ok(s) => Ok(s),
        Err(e) => Err(e.to_string()),
    }
}

/// Texts one after another with `separator` between them.
pub open spec fn joined(parts: Seq<Seq<char>>, separator: Seq<char>) -> Seq<char>
    decreases parts.len(),
{
    if parts.len() == 0 {
        Seq::empty()
    } else if parts.len() == 1 {
        parts[0]
    } else {
        joined(parts.drop_last(), separator) + separator + parts.last()
    }
}

/// Texts one after another with `separator` between them.
pub fn join(parts: &Vec<String>, separator: &str) -> (s: String)
    ensures
        s@ == joined(texts(parts@), separator@),
{
    let ghost all = texts(parts@);
    let mut s = String::new();
    for i in 0..parts.len()
        invariant
            all == texts(parts@),
            s@ == joined(all.take(i as int), separator@),
    {
        assert(all.take(i + 1).drop_last() =~= all.take(i as int));
        if i > 0 {
            s.append(separator);
        }
        s.append(parts[i].as_str());
        assert(i == 0 ==> s@ =~= parts@[0]@);
    }
    assert(all.take(all.len() as int) =~= all);
    s
}

// ---------------------------------------------------------------------------
// What taking texts apart and putting them together comes to
// ---------------------------------------------------------------------------
/// Text on either side of a separator is taken apart independently.
pub proof fn law_a_separator_parts_the_pieces(
    a: Seq<char>,
    separator: char,
    b: Seq<char>,
    is_separator: spec_fn(char) -> bool,
)
    requires
        is_separator(separator),
    ensures
        pieces(a.push(separator) + b, is_separator) == pieces(a, is_separator) + pieces(
            b,
            is_separator,
        ),
    decreases b.len(),
{
    let whole = a.push(separator) + b;
    if b.len() == 0 {
        assert(whole =~= a.push(separator));
        assert(a.push(separator).drop_last() =~= a);
        assert(pieces(a, is_separator).push(Seq::empty()) =~= pieces(a, is_separator) + seq![
            Seq::<char>::empty(),
        ]);
    } else {
        assert(whole.drop_last() =~= a.push(separator) + b.drop_last());
        law_a_separator_parts_the_pieces(a, separator, b.drop_last(), is_separator);
        lemma_pieces_nonempty(b.drop_last(), is_separator);
        let left = pieces(a, is_separator);
        let right = pieces(b.drop_last(), is_separator);
        assert(whole.last() == b.last());
        if is_separator(b.last()) {
            assert((left + right).push(Seq::empty()) =~= left + right.push(Seq::empty()));
        } else {
            assert((left + right).last() == right.last());
            assert((left + right).drop_last().push(right.last().push(b.last())) =~= left
                + right.drop_last().push(right.last().push(b.last())));
        }
    }
}

/// Text without a separator is one piece.
pub proof fn law_text_without_a_separator_is_one_piece(
    s: Seq<char>,
    is_separator: spec_fn(char) -> bool,
)
    requires
        forall|i: int| 0 <= i < s.len() ==> !is_separator(#[trigger] s[i]),
    ensures
        pieces(s, is_separator) == seq![s],
    decreases s.len(),
{
    if s.len() > 0 {
        let head = s.drop_last();
        assert forall|i: int| 0 <= i < head.len() implies !is_separator(#[trigger] head[i]) by {
            assert(head[i] == s[i]);
        }
        law_text_without_a_separator_is_one_piece(head, is_separator);
        assert(s.last() == s[s.len() - 1]);
        assert(seq![head].drop_last().push(head.push(s.last())) =~= seq![s]) by {
            assert(head.push(s.last()) =~= s);
        }
    } else {
        assert(seq![Seq::<char>::empty()] =~= seq![s]) by {
            assert(s =~= Seq::empty());
        }
    }
}

/// The pieces of a text, put together with the separator between them, are the text again, and none
/// of them holds the separator: nothing is lost and nothing is left to take apart.
pub proof fn law_pieces_put_together_are_the_text(s: Seq<char>, separator: char)
    ensures
        joined(pieces(s, |c: char| c == separator), seq![separator]) == s,
        ({
            let parts = pieces(s, |c: char| c == separator);
            forall|i: int| 0 <= i < parts.len() ==> !(#[trigger] parts[i]).contains(separator)
        }),
    decreases s.len(),
{
    let is_separator = |c: char| c == separator;
    let parts = pieces(s, is_separator);
    if s.len() > 0 {
        let head = s.drop_last();
        let before = pieces(head, is_separator);
        law_pieces_put_together_are_the_text(head, separator);
        lemma_pieces_nonempty(head, is_separator);
        if s.last() == separator {
            assert(parts.drop_last() =~= before);
            assert(joined(parts, seq![separator]) =~= s);
        } else {
            assert(parts.drop_last() =~= before.drop_last());
            assert(parts.last() == before.last().push(s.last()));
            if parts.len() == 1 {
                assert(before.len() == 1);
                assert(joined(before, seq![separator]) == before[0]);
                assert(joined(parts, seq![separator]) =~= s);
            } else {
                assert(before.len() == parts.len());
                assert(joined(before, seq![separator]) == joined(before.drop_last(), seq![separator])
                    + seq![separator] + before.last());
                assert(joined(parts, seq![separator]) =~= joined(
                    before.drop_last(),
                    seq![separator],
                ) + seq![separator] + before.last().push(s.last()));
                assert(joined(parts, seq![separator]) =~= head.push(s.last()));
                assert(head.push(s.last()) =~= s);
            }
        }
        assert forall|i: int| 0 <= i < parts.len() implies !(#[trigger] parts[i]).contains(
            separator,
        ) by {
            if i < parts.len() - 1 {
                assert(parts[i] == before[i]);
            } else if s.last() != separator {
                let last = before[before.len() - 1];
                assert(!last.contains(separator));
                assert forall|j: int| 0 <= j < parts[i].len() implies parts[i][j] != separator by {
                    if j < last.len() {
                        assert(last[j] == parts[i][j]);
                    }
                }
            }
        }
    } else {
        assert(parts[0] =~= Seq::empty());
        assert(joined(parts, seq![separator]) =~= s);
    }
}

/// White space parts words: text on either side of it is taken apart independently.
pub proof fn law_white_space_parts_words(a: Seq<char>, space: char, b: Seq<char>)
    requires
        is_white_space(space),
    ensures
        words(a.push(space) + b) == words(a) + words(b),
{
    let is_separator = |c: char| is_white_space(c);
    let kept = |w: Seq<char>| w.len() > 0;
    law_a_separator_parts_the_pieces(a, space, b, is_separator);
    Seq::filter_distributes_over_add(pieces(a, is_separator), pieces(b, is_separator), kept);
}

/// Text without white space is one word, unless it is empty: then there is none.
pub proof fn law_text_without_white_space_is_a_word(s: Seq<char>)
    requires
        forall|i: int| 0 <= i < s.len() ==> !is_white_space(#[trigger] s[i]),
    ensures
        words(s) == if s.len() > 0 {
            seq![s]
        } else {
            Seq::<Seq<char>>::empty()
        },
{
    reveal(Seq::filter);
    let kept = |w: Seq<char>| w.len() > 0;
    law_text_without_a_separator_is_one_piece(s, |c: char| is_white_space(c));
    assert(seq![s].drop_last() =~= Seq::empty());
    assert(seq![s].drop_last().filter(kept) =~= Seq::empty());
    assert(seq![s].last() == s);
    assert(seq![s].filter(kept) =~= if s.len() > 0 {
        seq![s]
    } else {
        Seq::<Seq<char>>::empty()
    });
}

/// A newline ends a line: what stands before it, less a carriage return at its end, is the first
/// line, and the lines of the rest follow.
pub proof fn law_a_newline_ends_a_line(a: Seq<char>, b: Seq<char>)
    requires
        !a.contains('\n'),
    ensures
        lines(a.push('\n') + b) == seq![
            if a.len() > 0 && a.last() == '\r' {
                a.drop_last()
            } else {
                a
            },
        ] + lines(b),
{
    let is_separator = |c: char| c == '\n';
    let end = |line: Seq<char>| without_carriage_return(line);
    assert forall|i: int| 0 <= i < a.len() implies !is_separator(#[trigger] a[i]) by {
        assert(a.contains(a[i]));
    }
    law_text_without_a_separator_is_one_piece(a, is_separator);
    law_a_separator_parts_the_pieces(a, '\n', b, is_separator);
    lemma_pieces_nonempty(b, is_separator);
    let rest = pieces(b, is_separator);
    let parts = seq![a] + rest;
    assert(parts.last() == rest.last());
    assert(parts.drop_last() =~= seq![a] + rest.drop_last());
    assert(parts.drop_last().map_values(end) =~= seq![without_carriage_return(a)]
        + rest.drop_last().map_values(end));
    assert(lines(a.push('\n') + b) =~= seq![without_carriage_return(a)] + lines(b));
}

/// Text without a newline is one line as it stands, unless it is empty: then there is none.
pub proof fn law_text_without_a_newline_is_a_line(s: Seq<char>)
    requires
        !s.contains('\n'),
    ensures
        lines(s) == if s.len() > 0 {
            seq![s]
        } else {
            Seq::<Seq<char>>::empty()
        },
{
    let is_separator = |c: char| c == '\n';
    let end = |line: Seq<char>| without_carriage_return(line);
    assert forall|i: int| 0 <= i < s.len() implies !is_separator(#[trigger] s[i]) by {
        assert(s.contains(s[i]));
    }
    law_text_without_a_separator_is_one_piece(s, is_separator);
    assert(seq![s].drop_last().map_values(end) =~= Seq::empty());
    assert(lines(s) =~= if s.len() > 0 {
        seq![s]
    } else {
        Seq::<Seq<char>>::empty()
    });
}

/// Trimming takes white space away at both ends and nothing else: what is left neither starts nor
/// ends with white space, and whatever was around it is white space.
pub proof fn law_trimming_takes_only_white_space(s: Seq<char>)
    ensures
        trimmed(s).len() > 0 ==> !is_white_space(trimmed(s).first()) && !is_white_space(
            trimmed(s).last(),
        ),
        exists|i: int, j: int|
            0 <= i <= j <= s.len() && trimmed(s) == #[trigger] s.subrange(i, j) && (forall|k: int|
                0 <= k < i || j <= k < s.len() ==> is_white_space(#[trigger] s[k])),
{
    lemma_trim_start(s);
    lemma_trim_end(trim_start_of(s));
    let i = lemma_trim_start_skips(s);
    let head = s.skip(i);
    let n = lemma_trim_end_takes(head);
    assert(trimmed(s) =~= s.subrange(i, i + n));
    assert forall|k: int| 0 <= k < i || i + n <= k < s.len() implies is_white_space(
        #[trigger] s[k],
    ) by {
        if k >= i + n {
            assert(head[k - i] == s[k]);
        }
    }
}

/// Trimming the start skips white space only.
proof fn lemma_trim_start_skips(s: Seq<char>) -> (i: int)
    ensures
        0 <= i <= s.len(),
        trim_start_of(s) == s.skip(i),
        forall|k: int| 0 <= k < i ==> is_white_space(#[trigger] s[k]),
    decreases s.len(),
{
    if s.len() > 0 && is_white_space(s.first()) {
        let rest = s.drop_first();
        let i = lemma_trim_start_skips(rest);
        assert(rest.skip(i) =~= s.skip(i + 1));
        assert forall|k: int| 0 <= k < i + 1 implies is_white_space(#[trigger] s[k]) by {
            if k > 0 {
                assert(rest[k - 1] == s[k]);
            }
        }
        i + 1
    } else {
        assert(s.skip(0) =~= s);
        0
    }
}

/// Trimming the end drops white space only.
proof fn lemma_trim_end_takes(s: Seq<char>) -> (n: int)
    ensures
        0 <= n <= s.len(),
        trim_end_of(s) == s.take(n),
        forall|k: int| n <= k < s.len() ==> is_white_space(#[trigger] s[k]),
    decreases s.len(),
{
    if s.len() > 0 && is_white_space(s.last()) {
        let rest = s.drop_last();
        let n = lemma_trim_end_takes(rest);
        assert(rest.take(n) =~= s.take(n));
        assert forall|k: int| n <= k < s.len() implies is_white_space(#[trigger] s[k]) by {
            if k < rest.len() {
                assert(rest[k] == s[k]);
            }
        }
        n
    } else {
        assert(s.take(s.len() as int) =~= s);
        s.len() as int
    }
}

/// White space is the blank, the tab, the line ends and the Unicode spaces; letters, digits and
/// punctuation are not.
pub proof fn law_white_space(c: char)
    ensures
        c == ' ' || c == '\t' || c == '\n' || c == '\r' ==> is_white_space(c),
        ' ' < c <= '~' ==> !is_white_space(c),
        c < '\t' ==> !is_white_space(c),
        is_white_space(c) && c > '~' ==> c == '\u{85}' || c == '\u{a0}' || c == '\u{1680}'
            || '\u{2000}' <= c <= '\u{200a}' || c == '\u{2028}' || c == '\u{2029}' || c
            == '\u{202f}' || c == '\u{205f}' || c == '\u{3000}',
        c == '\u{85}' || c == '\u{a0}' || c == '\u{1680}' || '\u{2000}' <= c <= '\u{200a}' || c
            == '\u{2028}' || c == '\u{2029}' || c == '\u{202f}' || c == '\u{205f}' || c
            == '\u{3000}' ==> is_white_space(c),
{
}

/// A number that is written is read back, if it is not above the bound; a leading plus is accepted,
/// a leading minus is not.
pub proof fn law_unsigned_numbers_are_read_back(n: nat, max: nat)
    ensures
        unsigned_value(decimal(n), max) == if n <= max {
            Some(n)
        } else {
            None::<nat>
        },
        unsigned_value(seq!['+'] + decimal(n), max) == unsigned_value(decimal(n), max),
        unsigned_value(seq!['-'] + decimal(n), max) is None,
{
    law_decimal_round_trip(n);
    assert((seq!['+'] + decimal(n)).drop_first() =~= decimal(n));
    assert((seq!['-'] + decimal(n))[0] == '-');
    assert(decimal(n)[0] != '+');
}

/// What is read as a number is made of digits, but for a leading sign.
pub proof fn law_numbers_are_digits(s: Seq<char>, max: nat)
    ensures
        unsigned_value(s, max) matches Some(n) ==> n <= max && s.len() > 0 && forall|i: int|
            0 < i < s.len() ==> '0' <= #[trigger] s[i] <= '9',
        signed_value(s) is Some ==> s.len() > 0 && forall|i: int|
            0 < i < s.len() ==> '0' <= #[trigger] s[i] <= '9',
{
    assert forall|i: int|
        (unsigned_value(s, max) is Some || signed_value(s) is Some) && 0 < i < s.len() implies '0'
        <= #[trigger] s[i] <= '9' by {
        if s.first() == '+' || s.first() == '-' {
            assert(s.drop_first()[i - 1] == s[i]);
        }
    }
}

/// A number of either sign that is written is read back, if it fits in 64 bits.
pub proof fn law_signed_numbers_are_read_back(v: int)
    ensures
        signed_value(signed_decimal(v)) == if i64::MIN <= v <= i64::MAX {
            Some(v)
        } else {
            None::<int>
        },
{
    if v < 0 {
        law_decimal_round_trip((-v) as nat);
        assert(signed_decimal(v).drop_first() =~= decimal((-v) as nat));
    } else {
        law_decimal_round_trip(v as nat);
        assert(decimal(v as nat)[0] != '+' && decimal(v as nat)[0] != '-');
    }
}

/// A shortened text starts the text, and is as long as it may be.
pub proof fn law_shortened_starts_the_text(s: Seq<char>, n: nat)
    ensures
        shortened(s, n).len() <= n,
        shortened(s, n).len() == n || shortened(s, n) == s,
        forall|i: int| 0 <= i < shortened(s, n).len() ==> #[trigger] shortened(s, n)[i] == s[i],
{
}

/// A text is cut at the first of the characters: the parts are what stands on either side of it.
pub proof fn law_cut_at_the_first(a: Seq<char>, c: char, b: Seq<char>)
    requires
        !a.contains(c),
    ensures
        cut_at(a.push(c) + b, c) == Some((a, b)),
        cut_at(a, c) is None,
{
    let s = a.push(c) + b;
    let i = a.len() as int;
    assert(s.take(i) =~= a);
    assert(s[i] == c);
    lemma_index_of_char_is(s, c, i);
    assert(s.skip(i + 1) =~= b);
    lemma_index_of_char(a, c);
    match index_of_char(a, c) {
        Some(k) => {
            assert(a.contains(a[k]));
        },
        None => {},
    }
}

/// A text starts with whatever it was put behind.
pub proof fn law_prefixes_are_seen(prefix: Seq<char>, rest: Seq<char>)
    ensures
        has_prefix(prefix + rest, prefix),
        (prefix + rest).skip(prefix.len() as int) == rest,
{
    assert((prefix + rest).take(prefix.len() as int) =~= prefix);
    assert((prefix + rest).skip(prefix.len() as int) =~= rest);
}

/// The texts of strings are those of each, in order.
pub proof fn law_texts_are_in_order(strings: Seq<String>, i: int)
    ensures
        texts(strings).len() == strings.len(),
        0 <= i < strings.len() ==> texts(strings)[i] == strings[i]@,
{
}

/// Texts that are put together keep their order, with the separator between each two.
pub proof fn law_texts_are_put_together_in_order(
    parts: Seq<Seq<char>>,
    part: Seq<char>,
    separator: Seq<char>,
)
    ensures
        joined(Seq::empty(), separator).len() == 0,
        joined(seq![part], separator) == part,
        parts.len() > 0 ==> joined(parts.push(part), separator) == joined(parts, separator)
            + separator + part,
{
    assert(parts.push(part).drop_last() =~= parts);
}

/// A text has a prefix exactly where it is the prefix and then the rest.
pub proof fn law_what_has_a_prefix(s: Seq<char>, prefix: Seq<char>)
    ensures
        has_prefix(s, prefix) <==> prefix.len() <= s.len() && s == prefix + s.skip(
            prefix.len() as int,
        ),
{
    if prefix.len() <= s.len() {
        let rest = s.skip(prefix.len() as int);
        if s.take(prefix.len() as int) == prefix {
            assert(s =~= prefix + rest);
        }
        if s == prefix + rest {
            assert(s.take(prefix.len() as int) =~= prefix);
        }
    }
}

} // verus!
