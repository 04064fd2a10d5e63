//! Strings as sequences of characters: trimming, numbers in text, and paths.

use vstd::prelude::*;

verus! {

/// `String::push` of std appends the given character to the end of the string.
pub assume_specification[ String::push ](s: &mut String, c: char)
    ensures
        final(s)@ == old(s)@.push(c),
;

/// The characters with the Unicode property `White_Space`.
pub open spec fn white_space(c: char) -> bool {
    ||| '\u{9}' <= c <= '\u{d}'
    ||| c == ' '
    ||| c == '\u{85}'
    ||| c == '\u{a0}'
    ||| c == '\u{1680}'
    ||| '\u{2000}' <= c <= '\u{200a}'
    ||| c == '\u{2028}'
    ||| c == '\u{2029}'
    ||| c == '\u{202f}'
    ||| c == '\u{205f}'
    ||| c == '\u{3000}'
}

/// Whether `c` is Unicode white space.
pub fn is_white_space(c: char) -> (r: bool)
    ensures
        r == white_space(c),
{
    ('\u{9}' <= c && c <= '\u{d}') || c == ' ' || c == '\u{85}' || c == '\u{a0}' || c == '\u{1680}'
        || ('\u{2000}' <= c && c <= '\u{200a}') || c == '\u{2028}' || c == '\u{2029}' || c
        == '\u{202f}' || c == '\u{205f}' || c == '\u{3000}'
}

/// The characters of the Unicode category `Cc`.
pub open spec fn control(c: char) -> bool {
    c <= '\u{1f}' || '\u{7f}' <= c <= '\u{9f}'
}

/// Whether `c` is a control character.
pub fn is_control(c: char) -> (r: bool)
    ensures
        r == control(c),
{
    c <= '\u{1f}' || ('\u{7f}' <= c && c <= '\u{9f}')
}

/// The code point of `c`.
pub fn code_of(c: char) -> (r: u32)
    ensures
        r as nat == c as nat,
{
    c as u32
}

/// The characters of a string, in order.
pub fn chars_of(s: &str) -> (r: Vec<char>)
    ensures
        r@ == s@,
{
    let mut out: Vec<char> = Vec::new();
    for c in it: s.chars()
        invariant
            it.seq() == s@,
            out@ == s@.take(it.index()),
    {
        proof {
            assert(s@.take(it.index() + 1) =~= s@.take(it.index()).push(s@[it.index()]));
        }
        out.push(c);
    }
    proof {
        assert(s@.take(s@.len() as int) =~= s@);
    }
    out
}

/// The string made of the given characters.
pub fn string_of(chars: &[char]) -> (r: String)
    ensures
        r@ == chars@,
{
    let mut out = String::new();
    let mut i: usize = 0;
    while i < chars.len()
        invariant
            i <= chars.len(),
            out@ == chars@.take(i as int),
        decreases chars.len() - i,
    {
        proof {
            assert(chars@.take(i + 1) =~= chars@.take(i as int).push(chars@[i as int]));
        }
        out.push(chars[i]);
        i += 1;
    }
    proof {
        assert(chars@.take(chars@.len() as int) =~= chars@);
    }
    out
}

/// `s` without its leading white space.
pub open spec fn trim_start(s: Seq<char>) -> Seq<char>
    decreases s.len(),
{
    if s.len() > 0 && white_space(s[0]) {
        trim_start(s.drop_first())
    } else {
        s
    }
}

/// `s` without its trailing white space.
pub open spec fn trim_end(s: Seq<char>) -> Seq<char>
    decreases s.len(),
{
    if s.len() > 0 && white_space(s.last()) {
        trim_end(s.drop_last())
    } else {
        s
    }
}

/// `s` without the white space around it.
pub open spec fn trimmed(s: Seq<char>) -> Seq<char> {
    trim_end(trim_start(s))
}

/// The string without the white space around it.
pub fn trim(s: &str) -> (r: String)
    ensures
        r@ == trimmed(s@),
{
    let chars = chars_of(s);
    string_of(trim_chars(chars.as_slice()).as_slice())
}

/// The characters without the white space around them.
pub fn trim_chars(chars: &[char]) -> (r: Vec<char>)
    ensures
        r@ == trimmed(chars@),
{
    let mut start: usize = 0;
    proof {
        assert(chars@.skip(0) =~= chars@);
    }
    while start < chars.len() && is_white_space(chars[start])
        invariant
            start <= chars.len(),
            trim_start(chars@) == trim_start(chars@.skip(start as int)),
        decreases chars.len() - start,
    {
        proof {
            assert(chars@.skip(start as int).drop_first() =~= chars@.skip(start + 1));
        }
        start += 1;
    }
    proof {
        assert(chars@.skip(start as int).len() == chars.len() - start);
        assert(trim_start(chars@) == chars@.skip(start as int));
    }
    let mut end: usize = chars.len();
    proof {
        assert(chars@.subrange(start as int, end as int) =~= chars@.skip(start as int));
    }
    while end > start && is_white_space(chars[end - 1])
        invariant
            start <= end <= chars.len(),
            trimmed(chars@) == trim_end(chars@.subrange(start as int, end as int)),
        decreases end - start,
    {
        proof {
            assert(chars@.subrange(start as int, end as int).drop_last() =~= chars@.subrange(
                start as int,
                end - 1,
            ));
        }
        end -= 1;
    }
    slice_range(chars, start, end)
}

/// A copy of the items from `start` up to `end`.
pub fn slice_range<T: Copy>(items: &[T], start: usize, end: usize) -> (r: Vec<T>)
    requires
        start <= end <= items.len(),
    ensures
        r@ == items@.subrange(start as int, end as int),
{
    let mut out: Vec<T> = Vec::new();
    let mut i: usize = start;
    while i < end
        invariant
            start <= i <= end <= items.len(),
            out@ == items@.subrange(start as int, i as int),
        decreases end - i,
    {
        proof {
            assert(items@.subrange(start as int, i + 1) =~= items@.subrange(
                start as int,
                i as int,
            ).push(items@[i as int]));
        }
        out.push(items[i]);
        i += 1;
    }
    out
}

/// The character of a digit below sixteen.
pub open spec fn digit_char(d: int) -> char {
    if d < 10 {
        (48 + d) as char
    } else {
        (87 + d) as char
    }
}

/// The digits of `n` in the given base, most significant first.
pub open spec fn digits(n: nat, base: nat) -> Seq<char>
    decreases n,
{
    if base < 2 || n < base {
        seq![digit_char(n as int)]
    } else {
        proof {
            assert(n / base < n) by (nonlinear_arith)
                requires
                    n >= base,
                    base >= 2,
            ;
        }
        digits(n / base, base).push(digit_char((n % base) as int))
    }
}

/// `n` in decimal, with a minus sign if it is negative.
pub open spec fn decimal(n: int) -> Seq<char> {
    if n < 0 {
        seq!['-'] + digits((-n) as nat, 10)
    } else {
        digits(n as nat, 10)
    }
}

/// `s` with as many zeros before it as bring it to `width` characters.
pub open spec fn zero_padded(s: Seq<char>, width: nat) -> Seq<char> {
    if s.len() >= width {
        s
    } else {
        Seq::new((width - s.len()) as nat, |i: int| '0') + s
    }
}

fn digit_of(d: u64) -> (r: char)
    requires
        d < 16,
    ensures
        r == digit_char(d as int),
{
    if d < 10 {
        (48u8 + d as u8) as char
    } else {
        (87u8 + d as u8) as char
    }
}

/// The digits of `n` in the given base.
pub fn digits_of(n: u64, base: u64) -> (r: Vec<char>)
    requires
        2 <= base <= 16,
    ensures
        r@ == digits(n as nat, base as nat),
    decreases n,
{
    if n < base {
        let mut out: Vec<char> = Vec::new();
        out.push(digit_of(n));
        proof {
            assert(out@ =~= digits(n as nat, base as nat));
        }
        out
    } else {
        proof {
            assert(n / base < n) by (nonlinear_arith)
                requires
                    n >= base,
                    base >= 2,
            ;
            assert(0 <= n % base < base) by (nonlinear_arith)
                requires
                    base >= 2,
            ;
        }
        let mut out = digits_of(n / base, base);
        out.push(digit_of(n % base));
        out
    }
}

/// `n` in decimal.
pub fn decimal_u64(n: u64) -> (r: String)
    ensures
        r@ == decimal(n as int),
{
    string_of(digits_of(n, 10).as_slice())
}

/// `n` in decimal.
pub fn decimal_i64(n: i64) -> (r: String)
    ensures
        r@ == decimal(n as int),
{
    if n < 0 {
        let magnitude: u64 = (-(n as i128)) as u64;
        let mut out = String::new();
        out.push('-');
        let digits = digits_of(magnitude, 10);
        out.append(string_of(digits.as_slice()).as_str());
        proof {
            assert(out@ =~= decimal(n as int));
        }
        out
    } else {
        decimal_u64(n as u64)
    }
}

/// The digits of `n` in the given base, with leading zeros up to `width` characters.
pub fn padded_digits(n: u64, base: u64, width: usize) -> (r: String)
    requires
        2 <= base <= 16,
    ensures
        r@ == zero_padded(digits(n as nat, base as nat), width as nat),
{
    let digits = digits_of(n, base);
    let mut out = String::new();
    let mut i: usize = digits.len();
    while i < width
        invariant
            digits@.len() <= i,
            i <= width || i == digits@.len(),
            out@ == Seq::new((i - digits@.len()) as nat, |k: int| '0'),
        decreases width - i,
    {
        out.push('0');
        i += 1;
        proof {
            assert(out@ =~= Seq::new((i - digits@.len()) as nat, |k: int| '0'));
        }
    }
    out.append(string_of(digits.as_slice()).as_str());
    proof {
        assert(out@ =~= zero_padded(digits@, width as nat));
    }
    out
}

/// A hexadecimal digit in upper case.
pub open spec fn upper_digit(c: char) -> char {
    if 'a' <= c <= 'f' {
        (c as int - 32) as char
    } else {
        c
    }
}

/// `n` in upper-case hexadecimal.
pub open spec fn upper_hex(n: nat) -> Seq<char> {
    Seq::new(digits(n, 16).len(), |i: int| upper_digit(digits(n, 16)[i]))
}

/// `n` in upper-case hexadecimal, with leading zeros up to eight digits.
pub fn upper_hex_u32(n: u32) -> (r: String)
    ensures
        r@ == zero_padded(upper_hex(n as nat), 8),
{
    let lower = digits_of(n as u64, 16);
    let mut out = String::new();
    let mut i: usize = lower.len();
    while i < 8
        invariant
            lower@.len() <= i,
            i <= 8 || i == lower@.len(),
            out@ == Seq::new((i - lower@.len()) as nat, |k: int| '0'),
        decreases 8 - i,
    {
        out.push('0');
        i += 1;
        proof {
            assert(out@ =~= Seq::new((i - lower@.len()) as nat, |k: int| '0'));
        }
    }
    let ghost zeros = out@;
    let mut j: usize = 0;
    while j < lower.len()
        invariant
            j <= lower@.len(),
            lower@ == digits(n as nat, 16),
            out@ == zeros + upper_hex(n as nat).take(j as int),
        decreases lower@.len() - j,
    {
        let c: char = lower[j];
        let upper: char = match c {
            'a' => 'A',
            'b' => 'B',
            'c' => 'C',
            'd' => 'D',
            'e' => 'E',
            'f' => 'F',
            _ => c,
        };
        proof {
            assert(upper == upper_digit(c));
            assert(upper_hex(n as nat).take(j + 1) =~= upper_hex(n as nat).take(j as int).push(
                upper,
            ));
        }
        out.push(upper);
        j += 1;
    }
    proof {
        assert(upper_hex(n as nat).take(lower@.len() as int) =~= upper_hex(n as nat));
        assert(out@ =~= zero_padded(upper_hex(n as nat), 8));
    }
    out
}

/// The texts, with a separator between each two of them.
pub open spec fn separated(all: Seq<Seq<char>>, by: Seq<char>) -> Seq<char>
    decreases all.len(),
{
    if all.len() == 0 {
        Seq::empty()
    } else if all.len() == 1 {
        all[0]
    } else {
        separated(all.drop_last(), by) + by + all.last()
    }
}

/// The value of a decimal digit.
pub open spec fn digit_value(c: char) -> int {
    c as int - 48
}

/// Whether every character is a decimal digit.
pub open spec fn all_digits(s: Seq<char>) -> bool {
    forall|i: int| 0 <= i < s.len() ==> '0' <= #[trigger] s[i] <= '9'
}

/// The number that a row of decimal digits stands for.
pub open spec fn number(s: Seq<char>) -> nat
    decreases s.len(),
{
    if s.len() == 0 {
        0
    } else {
        10 * number(s.drop_last()) + digit_value(s.last()) as nat
    }
}

/// The integer that a text stands for: decimal digits, after a sign if there is one.
pub open spec fn integer(s: Seq<char>) -> Option<int> {
    let body = if s.len() > 0 && (s[0] == '-' || s[0] == '+') {
        s.drop_first()
    } else {
        s
    };
    if body.len() == 0 || !all_digits(body) {
        None
    } else if s[0] == '-' {
        Some(-(number(body) as int))
    } else {
        Some(number(body) as int)
    }
}

/// The `i64` that a text stands for: `integer`, if it is in range.
pub open spec fn integer_i64(s: Seq<char>) -> Option<i64> {
    match integer(s) {
        Some(n) => if i64::MIN <= n <= i64::MAX {
            Some(n as i64)
        } else {
            None
        },
        None => None,
    }
}

/// Reads an `i64` from its decimal text.
pub fn parse_i64(s: &str) -> (r: Option<i64>)
    ensures
        r == integer_i64(s@),
{
    let chars = chars_of(s);
    let signed = chars.len() > 0 && (chars[0] == '-' || chars[0] == '+');
    let start: usize = if signed {
        1
    } else {
        0
    };
    let ghost body = chars@.skip(start as int);
    proof {
        if signed {
            assert(body =~= s@.drop_first());
        } else {
            assert(body =~= s@);
        }
    }
    if chars.len() == start {
        return None;
    }
    let mut value: i128 = 0;
    let mut i: usize = start;
    let mut overflow = false;
    while i < chars.len()
        invariant
            start <= i <= chars.len(),
            body == chars@.skip(start as int),
            !all_digits(body) ==> integer_i64(s@) is None,
            all_digits(body.take(i - start)),
            overflow ==> number(body.take(i - start)) > 0x8000_0000_0000_0000,
            !overflow ==> value == number(body.take(i - start)),
            0 <= value <= 0x8000_0000_0000_0000,
        decreases chars.len() - i,
    {
        let c = chars[i];
        let ghost k = i - start;
        proof {
            assert(body[k] == c);
            assert(body.take(k + 1).drop_last() =~= body.take(k));
            assert(body.take(k + 1).last() == c);
        }
        if !('0' <= c && c <= '9') {
            proof {
                assert(!all_digits(body)) by {
                    assert(body[k] == c);
                }
            }
            return None;
        }
        proof {
            assert forall|j: int| 0 <= j < k + 1 implies '0' <= #[trigger] body.take(k + 1)[j]
                <= '9' by {
                if j < k {
                    assert(body.take(k + 1)[j] == body.take(k)[j]);
                }
            }
        }
        if !overflow {
            let next: i128 = value * 10 + (c as u32 as i128 - 48);
            if next > 0x8000_0000_0000_0000 {
                overflow = true;
            } else {
                value = next;
            }
        }
        i += 1;
    }
    proof {
        assert(body.take(body.len() as int) =~= body);
    }
    if overflow {
        return None;
    }
    let result: i128 = if chars[0] == '-' {
        -value
    } else {
        value
    };
    if result > i64::MAX as i128 {
        None
    } else {
        Some(result as i64)
    }
}

/// `part` under the path `base`: a part that starts with a slash stands alone, and
/// otherwise one slash parts the two.
pub open spec fn joined(base: Seq<char>, part: Seq<char>) -> Seq<char> {
    if part.len() > 0 && part[0] == '/' {
        part
    } else if base.len() == 0 || base.last() == '/' {
        base + part
    } else {
        base.push('/') + part
    }
}

/// The path of `part` under `base`.
pub fn join_path(base: &str, part: &str) -> (r: String)
    ensures
        r@ == joined(base@, part@),
{
    let base_chars = chars_of(base);
    let part_chars = chars_of(part);
    let mut out = String::new();
    if part_chars.len() > 0 && part_chars[0] == '/' {
        out.append(part);
        proof {
            assert(out@ =~= part@);
        }
        return out;
    }
    out.append(base);
    proof {
        assert(out@ =~= base@);
    }
    if base_chars.len() > 0 && base_chars[base_chars.len() - 1] != '/' {
        out.push('/');
    }
    out.append(part);
    out
}

/// The two texts, one after the other.
pub fn concat(a: &str, b: &str) -> (r: String)
    ensures
        r@ == a@ + b@,
{
    let mut out = String::new();
    out.append(a);
    out.append(b);
    proof {
        assert(out@ =~= a@ + b@);
    }
    out
}

/// The three texts, one after the other.
pub fn concat3(a: &str, b: &str, c: &str) -> (r: String)
    ensures
        r@ == a@ + b@ + c@,
{
    let mut out = concat(a, b);
    out.append(c);
    out
}

/// An owned copy of the text.
pub fn owned(s: &str) -> (r: String)
    ensures
        r@ == s@,
{
    let mut out = String::new();
    out.append(s);
    proof {
        assert(out@ =~= s@);
    }
    out
}

/// Whether the two texts hold the same characters.
pub fn same_text(a: &str, b: &str) -> (r: bool)
    ensures
        r == (a@ == b@),
{
    let x = chars_of(a);
    let y = chars_of(b);
    same_chars(x.as_slice(), y.as_slice())
}

/// What parts a text.
#[derive(Debug, Clone, Copy, PartialEq, Eq, Structural)]
pub enum Separator {
    Slash,
    WhiteSpace,
}

impl Separator {
    pub open spec fn separates(self, c: char) -> bool {
        match self {
            Separator::Slash => c == '/',
            Separator::WhiteSpace => white_space(c),
        }
    }

    fn is(self, c: char) -> (r: bool)
        ensures
            r == self.separates(c),
    {
        match self {
            Separator::Slash => c == '/',
            Separator::WhiteSpace => is_white_space(c),
        }
    }
}

/// The parts of a text between its separators, empty ones among them.
pub open spec fn parts(s: Seq<char>, by: Separator) -> Seq<Seq<char>>
    decreases s.len(),
{
    if s.len() == 0 {
        seq![Seq::empty()]
    } else {
        let before = parts(s.drop_last(), by);
        if by.separates(s.last()) {
            before.push(Seq::empty())
        } else {
            before.drop_last().push(before.last().push(s.last()))
        }
    }
}

/// The parts without the empty ones.
pub open spec fn nonempty(all: Seq<Seq<char>>) -> Seq<Seq<char>>
    decreases all.len(),
{
    if all.len() == 0 {
        Seq::empty()
    } else if all.last().len() == 0 {
        nonempty(all.drop_last())
    } else {
        nonempty(all.drop_last()).push(all.last())
    }
}

/// The parts of a text between its separators, without the empty ones.
pub open spec fn words(s: Seq<char>, by: Separator) -> Seq<Seq<char>> {
    nonempty(parts(s, by))
}

/// The contents of each vector.
pub open spec fn char_views(all: Seq<Vec<char>>) -> Seq<Seq<char>> {
    Seq::new(all.len(), |i: int| all[i]@)
}

/// The parts of a text between its separators, without the empty ones.
pub fn split_words(s: &str, by: Separator) -> (r: Vec<Vec<char>>)
    ensures
        char_views(r@) == words(s@, by),
{
    let chars = chars_of(s);
    let mut out: Vec<Vec<char>> = Vec::new();
    let mut current: Vec<char> = Vec::new();
    let mut i: usize = 0;
    proof {
        let none = parts(chars@.take(0), by);
        assert(none =~= seq![Seq::<char>::empty()]);
        assert(none.drop_last() =~= Seq::<Seq<char>>::empty());
        assert(char_views(out@) =~= nonempty(none.drop_last()));
        assert(current@ =~= none.last());
    }
    while i < chars.len()
        invariant
            i <= chars.len(),
            parts(chars@.take(i as int), by).len() > 0,
            char_views(out@) == nonempty(parts(chars@.take(i as int), by).drop_last()),
            current@ == parts(chars@.take(i as int), by).last(),
        decreases chars.len() - i,
    {
        let c = chars[i];
        let ghost before = parts(chars@.take(i as int), by);
        let ghost after = parts(chars@.take(i + 1), by);
        let ghost out_before = out@;
        proof {
            assert(chars@.take(i + 1).drop_last() =~= chars@.take(i as int));
            assert(chars@.take(i + 1).last() == c);
        }
        if by.is(c) {
            proof {
                assert(after.drop_last() =~= before);
            }
            if current.len() > 0 {
                out.push(current);
                proof {
                    assert(char_views(out@) =~= char_views(out_before).push(before.last()));
                }
            }
            current = Vec::new();
            proof {
                assert(current@ =~= after.last());
            }
        } else {
            current.push(c);
            proof {
                assert(after.drop_last() =~= before.drop_last());
            }
        }
        i += 1;
    }
    proof {
        assert(chars@.take(chars@.len() as int) =~= chars@);
    }
    let ghost out_before = out@;
    if current.len() > 0 {
        out.push(current);
        proof {
            assert(char_views(out@) =~= char_views(out_before).push(parts(s@, by).last()));
        }
    }
    out
}

/// Whether two rows of characters are the same.
pub fn same_chars(x: &[char], y: &[char]) -> (r: bool)
    ensures
        r == (x@ == y@),
{
    if x.len() != y.len() {
        return false;
    }
    let mut i: usize = 0;
    while i < x.len()
        invariant
            i <= x.len(),
            x@.len() == y@.len(),
            forall|k: int| 0 <= k < i ==> x@[k] == y@[k],
        decreases x.len() - i,
    {
        if x[i] != y[i] {
            return false;
        }
        i += 1;
    }
    proof {
        assert(x@ =~= y@);
    }
    true
}

/// The white space of Unicode, by code point.
pub proof fn white_space_is_that_of_unicode(c: char)
    ensures
        white_space(c) <==> {
            let n = c as int;
            ||| 9 <= n <= 13
            ||| n == 32
            ||| n == 0x85
            ||| n == 0xa0
            ||| n == 0x1680
            ||| 0x2000 <= n <= 0x200a
            ||| n == 0x2028
            ||| n == 0x2029
            ||| n == 0x202f
            ||| n == 0x205f
            ||| n == 0x3000
        },
        control(c) <==> (c as int) < 32 || 127 <= (c as int) < 160,
        Separator::WhiteSpace.separates(c) <==> white_space(c),
        Separator::Slash.separates(c) <==> c == '/',
{
}

proof fn lemma_trim_start(s: Seq<char>) -> (i: int)
    ensures
        0 <= i <= s.len(),
        trim_start(s) == s.skip(i),
        forall|k: int| 0 <= k < i ==> white_space(#[trigger] s[k]),
        i < s.len() ==> !white_space(s[i]),
    decreases s.len(),
{
    if s.len() > 0 && white_space(s[0]) {
        let i = lemma_trim_start(s.drop_first());
        assert(s.drop_first().skip(i) =~= s.skip(i + 1));
        assert forall|k: int| 0 <= k < i + 1 implies white_space(#[trigger] s[k]) by {
            if k > 0 {
                assert(s.drop_first()[k - 1] == s[k]);
            }
        }
        i + 1
    } else {
        assert(s.skip(0) =~= s);
        0
    }
}

proof fn lemma_trim_end(s: Seq<char>) -> (j: int)
    ensures
        0 <= j <= s.len(),
        trim_end(s) == s.take(j),
        forall|k: int| j <= k < s.len() ==> white_space(#[trigger] s[k]),
        0 < j ==> !white_space(s[j - 1]),
    decreases s.len(),
{
    if s.len() > 0 && white_space(s.last()) {
        let j = lemma_trim_end(s.drop_last());
        assert(s.drop_last().take(j) =~= s.take(j));
        assert forall|k: int| j <= k < s.len() implies white_space(#[trigger] s[k]) by {
            if k < s.len() - 1 {
                assert(s.drop_last()[k] == s[k]);
            }
        }
        j
    } else {
        assert(s.take(s.len() as int) =~= s);
        s.len() as int
    }
}

/// A trimmed text is what stands between the white space at both ends: nothing but that is left
/// out, and none of it is left.
pub proof fn trimming_takes_the_white_space_at_both_ends(s: Seq<char>)
    ensures
        exists|i: int, j: int|
            {
                &&& 0 <= i <= j <= s.len()
                &&& trimmed(s) == #[trigger] s.subrange(i, j)
                &&& forall|k: int| 0 <= k < i ==> white_space(#[trigger] s[k])
                &&& forall|k: int| j <= k < s.len() ==> white_space(#[trigger] s[k])
            },
        trimmed(s).len() > 0 ==> !white_space(trimmed(s)[0]) && !white_space(trimmed(s).last()),
{
    let i = lemma_trim_start(s);
    let rest = s.skip(i);
    let n = lemma_trim_end(rest);
    let j = i + n;
    assert(rest.take(n) =~= s.subrange(i, j));
    assert forall|k: int| j <= k < s.len() implies white_space(#[trigger] s[k]) by {
        assert(rest[k - i] == s[k]);
    }
    if trimmed(s).len() > 0 {
        assert(trimmed(s)[0] == s[i]);
        assert(trimmed(s).last() == rest[n - 1]);
    }
}

/// The last digit of a number stands for what is left of it by the base, and those before it for
/// what the base goes into it.
pub proof fn digits_stand_by_their_place(n: nat, base: nat)
    requires
        2 <= base <= 16,
    ensures
        n < base ==> digits(n, base).len() == 1,
        n >= base ==> digits(n, base).drop_last() == digits(n / base, base),
        digits(n, base).len() > 0,
        n % base < 10 ==> digits(n, base).last() as int == 48 + n % base,
        n % base >= 10 ==> digits(n, base).last() as int == 87 + n % base,
{
    assert(0 <= n % base < base) by (nonlinear_arith)
        requires
            base >= 2,
    ;
    if n < base {
        assert(n % base == n) by (nonlinear_arith)
            requires
                n < base,
        ;
        assert(n as int == n % base);
    } else {
        assert(digits(n, base) == digits(n / base, base).push(digit_char((n % base) as int)));
        assert(digits(n, base).drop_last() =~= digits(n / base, base));
        assert(digits(n, base).last() == digit_char((n % base) as int));
    }
}

/// A row of decimal digits counts its last digit once and those before it ten times.
pub proof fn a_row_of_digits_is_a_number(s: Seq<char>, c: char)
    requires
        '0' <= c <= '9',
    ensures
        number(Seq::empty()) == 0,
        number(s.push(c)) == 10 * number(s) + (c as int - 48),
{
    assert(s.push(c).drop_last() =~= s);
}

proof fn lemma_digits_read_back(n: nat)
    ensures
        number(digits(n, 10)) == n,
        all_digits(digits(n, 10)),
        digits(n, 10).len() > 0,
        n > 0 ==> digits(n, 10)[0] != '0',
        n == 0 ==> digits(n, 10) == seq!['0'],
    decreases n,
{
    let d = digits(n, 10);
    digits_stand_by_their_place(n, 10);
    if n >= 10 {
        lemma_digits_read_back(n / 10);
        let before = digits(n / 10, 10);
        assert(d == before.push(d.last()));
        assert(d[0] == before[0]);
        assert forall|i: int| 0 <= i < d.len() implies '0' <= #[trigger] d[i] <= '9' by {
            if i < before.len() {
                assert(d[i] == before[i]);
            }
        }
    } else {
        assert(d =~= Seq::<char>::empty().push(d[0]));
        assert(number(Seq::<char>::empty()) == 0);
        assert(d.drop_last() =~= Seq::<char>::empty());
        assert(n == 0 ==> d =~= seq!['0']);
    }
}

/// A number in decimal reads back as that number, and has no zero before its first digit.
pub proof fn a_decimal_reads_back(n: int)
    ensures
        n >= 0 ==> all_digits(decimal(n)) && number(decimal(n)) == n && decimal(n).len() > 0,
        n < 0 ==> decimal(n).len() > 1 && decimal(n)[0] == '-' && all_digits(
            decimal(n).drop_first(),
        ) && number(decimal(n).drop_first()) == -n && decimal(n)[1] != '0',
        n > 0 ==> decimal(n)[0] != '0',
        n == 0 ==> decimal(n) == seq!['0'],
        integer(decimal(n)) == Some(n),
        i64::MIN <= n <= i64::MAX ==> integer_i64(decimal(n)) == Some(n as i64),
{
    if n < 0 {
        lemma_digits_read_back((-n) as nat);
        assert(decimal(n).drop_first() =~= digits((-n) as nat, 10));
    } else {
        lemma_digits_read_back(n as nat);
        assert('0' <= decimal(n)[0] <= '9');
    }
}

/// A text is an integer if it is decimal digits, after a sign if there is one; the minus makes it
/// negative. One that does not fit into 64 bits is none.
pub proof fn an_integer_is_digits_after_a_sign(s: Seq<char>)
    ensures
        s.len() == 0 ==> integer(s) is None,
        s.len() > 0 && s[0] != '-' && s[0] != '+' ==> (integer(s) is Some <==> forall|i: int|
            0 <= i < s.len() ==> '0' <= #[trigger] s[i] <= '9') && (integer(s) is Some ==> integer(
            s,
        )->0 == number(s)),
        s.len() > 0 && (s[0] == '-' || s[0] == '+') ==> (integer(s) is Some <==> s.len() > 1
            && forall|i: int| 1 <= i < s.len() ==> '0' <= #[trigger] s[i] <= '9') && (integer(
            s,
        ) is Some ==> integer(s)->0 == (if s[0] == '-' {
            -(number(s.drop_first()) as int)
        } else {
            number(s.drop_first()) as int
        })),
        integer_i64(s) is Some <==> integer(s) is Some && -0x8000_0000_0000_0000 <= integer(s)->0
            <= 0x7fff_ffff_ffff_ffff,
        integer_i64(s) is Some ==> integer_i64(s)->0 == integer(s)->0,
{
    if s.len() > 0 && (s[0] == '-' || s[0] == '+') {
        let body = s.drop_first();
        if forall|i: int| 1 <= i < s.len() ==> '0' <= #[trigger] s[i] <= '9' {
            assert forall|i: int| 0 <= i < body.len() implies '0' <= #[trigger] body[i] <= '9' by {
                assert(body[i] == s[i + 1]);
            }
        }
        if all_digits(body) {
            assert forall|i: int| 1 <= i < s.len() implies '0' <= #[trigger] s[i] <= '9' by {
                assert(body[i - 1] == s[i]);
            }
        }
    }
}

/// Padding puts zeros before a text until it is wide enough, and changes nothing else.
pub proof fn padding_only_adds_zeros(s: Seq<char>, width: nat)
    ensures
        zero_padded(s, width).len() == (if s.len() >= width {
            s.len()
        } else {
            width
        }),
        zero_padded(s, width).skip(zero_padded(s, width).len() - s.len()) == s,
        forall|i: int|
            0 <= i < zero_padded(s, width).len() - s.len() ==> #[trigger] zero_padded(s, width)[i]
                == '0',
{
    let p = zero_padded(s, width);
    assert(p.skip(p.len() - s.len()) =~= s);
}

/// Upper-case hexadecimal has the digits of lower-case hexadecimal, with its letters raised.
pub proof fn upper_hex_raises_the_letters(n: nat, i: int)
    requires
        0 <= i < digits(n, 16).len(),
    ensures
        upper_hex(n).len() == digits(n, 16).len(),
        '0' <= digits(n, 16)[i] <= '9' ==> upper_hex(n)[i] == digits(n, 16)[i],
        'a' <= digits(n, 16)[i] <= 'f' ==> upper_hex(n)[i] as int == digits(n, 16)[i] as int - 32,
{
}

/// Texts are joined with one separator between each two: joining all of two lists is joining
/// each, with a separator between.
pub proof fn a_separator_stands_between_each_two(a: Seq<Seq<char>>, b: Seq<Seq<char>>, by: Seq<char>)
    ensures
        separated(Seq::empty(), by).len() == 0,
        forall|x: Seq<char>| #[trigger] separated(seq![x], by) == x,
        a.len() > 0 && b.len() > 0 ==> separated(a + b, by) == separated(a, by) + by + separated(
            b,
            by,
        ),
    decreases b.len(),
{
    if a.len() > 0 && b.len() > 0 {
        if b.len() == 1 {
            assert((a + b).drop_last() =~= a);
            assert((a + b).last() == b[0]);
        } else {
            a_separator_stands_between_each_two(a, b.drop_last(), by);
            assert((a + b).drop_last() =~= a + b.drop_last());
            let x = separated(a, by);
            let y = separated(b.drop_last(), by);
            assert((x + by + y) + by + b.last() =~= x + by + (y + by + b.last()));
        }
    }
}

/// A part comes after its base and one slash, unless it starts with a slash itself.
pub proof fn a_part_comes_after_one_slash(base: Seq<char>, part: Seq<char>)
    ensures
        part.len() > 0 && part[0] == '/' ==> joined(base, part) == part,
        !(part.len() > 0 && part[0] == '/') ==> {
            &&& base.len() == 0 ==> joined(base, part) == part
            &&& base.len() > 0 && base.last() == '/' ==> joined(base, part) == base + part
            &&& base.len() > 0 && base.last() != '/' ==> joined(base, part) == base + seq!['/']
                + part
        },
{
    assert(base.len() == 0 ==> base + part =~= part);
    assert(base.push('/') + part =~= base + seq!['/'] + part);
}

proof fn lemma_parts_join(a: Seq<char>, c: char, b: Seq<char>, by: Separator)
    requires
        by.separates(c),
    ensures
        parts(a + seq![c] + b, by) == parts(a, by) + parts(b, by),
        parts(b, by).len() > 0,
    decreases b.len(),
{
    let s = a + seq![c] + b;
    if b.len() == 0 {
        assert(s.drop_last() =~= a);
        assert(parts(b, by) =~= seq![Seq::<char>::empty()]);
        assert(parts(s, by) =~= parts(a, by) + parts(b, by));
    } else {
        lemma_parts_join(a, c, b.drop_last(), by);
        assert(s.drop_last() =~= a + seq![c] + b.drop_last());
        assert(s.last() == b.last());
        let before = parts(b.drop_last(), by);
        assert((parts(a, by) + before).drop_last() =~= parts(a, by) + before.drop_last());
        assert(parts(s, by) =~= parts(a, by) + parts(b, by));
    }
}

proof fn lemma_nonempty_join(a: Seq<Seq<char>>, b: Seq<Seq<char>>)
    ensures
        nonempty(a + b) == nonempty(a) + nonempty(b),
    decreases b.len(),
{
    if b.len() == 0 {
        assert(a + b =~= a);
        assert(nonempty(a) + nonempty(b) =~= nonempty(a));
    } else {
        lemma_nonempty_join(a, b.drop_last());
        assert((a + b).drop_last() =~= a + b.drop_last());
        assert(nonempty(a + b) =~= nonempty(a) + nonempty(b));
    }
}

proof fn lemma_one_part(s: Seq<char>, by: Separator)
    requires
        forall|i: int| 0 <= i < s.len() ==> !by.separates(#[trigger] s[i]),
    ensures
        parts(s, by) == seq![s],
    decreases s.len(),
{
    if s.len() > 0 {
        assert forall|i: int| 0 <= i < s.drop_last().len() implies !by.separates(
            #[trigger] s.drop_last()[i],
        ) by {
            assert(s.drop_last()[i] == s[i]);
        }
        lemma_one_part(s.drop_last(), by);
        assert(s.drop_last().push(s.last()) =~= s);
        let before = parts(s.drop_last(), by);
        assert(before.last() == s.drop_last());
        assert(!by.separates(s[s.len() - 1]));
        assert(before.drop_last() =~= Seq::<Seq<char>>::empty());
        assert(parts(s, by) =~= seq![s]);
    } else {
        assert(s =~= Seq::<char>::empty());
        assert(parts(s, by) =~= seq![s]);
    }
}

/// The words of a text are what stands between its separators: a separator parts the words before
/// it from those after it, what holds none is one word, and nothing holds no word.
pub proof fn separators_part_the_words(a: Seq<char>, c: char, b: Seq<char>, by: Separator)
    ensures
        by.separates(c) ==> words(a + seq![c] + b, by) == words(a, by) + words(b, by),
        a.len() > 0 && (forall|i: int| 0 <= i < a.len() ==> !by.separates(#[trigger] a[i]))
            ==> words(a, by) == seq![a],
        words(Seq::empty(), by).len() == 0,
{
    if by.separates(c) {
        lemma_parts_join(a, c, b, by);
        lemma_nonempty_join(parts(a, by), parts(b, by));
    }
    if a.len() > 0 && forall|i: int| 0 <= i < a.len() ==> !by.separates(#[trigger] a[i]) {
        lemma_one_part(a, by);
        lemma_nonempty_of_one(a);
    }
    lemma_one_part(Seq::<char>::empty(), by);
    lemma_nonempty_of_one(Seq::<char>::empty());
}

proof fn lemma_nonempty_of_one(s: Seq<char>)
    ensures
        s.len() > 0 ==> nonempty(seq![s]) == seq![s],
        s.len() == 0 ==> nonempty(seq![s]).len() == 0,
{
    let one = seq![s];
    assert(one.drop_last() =~= Seq::<Seq<char>>::empty());
    assert(nonempty(one.drop_last()) =~= Seq::<Seq<char>>::empty());
    assert(one.last() == s);
    if s.len() > 0 {
        assert(nonempty(one) =~= seq![s]);
    }
}

/// The characters of each word, one by one.
pub proof fn the_views_of_words_are_their_characters(all: Seq<Vec<char>>)
    ensures
        char_views(all).len() == all.len(),
        forall|i: int| 0 <= i < all.len() ==> #[trigger] char_views(all)[i] == all[i]@,
{
}

/// What is read of a text, and put together to one, is its characters, all of them and in order.
pub proof fn texts_are_their_characters(
    s: &str,
    a: &str,
    b: &str,
    c: &str,
    chars: Vec<char>,
    slice: &[char],
    made: String,
    two: String,
    three: String,
    copy: String,
    same: bool,
)
    requires
        call_ensures(chars_of, (s,), chars),
        call_ensures(string_of, (slice,), made),
        call_ensures(concat, (a, b), two),
        call_ensures(concat3, (a, b, c), three),
        call_ensures(owned, (s,), copy),
        call_ensures(same_text, (a, b), same),
    ensures
        chars@ == s@,
        made@ == slice@,
        two@ == a@ + b@,
        three@ == a@ + b@ + c@,
        copy@ == s@,
        same <==> a@ == b@,
{
}

/// A text is trimmed of the white space at both ends, and of nothing else; a part of a row is the
/// items from its start up to its end.
pub proof fn a_text_is_trimmed_at_both_ends(
    s: &str,
    r: String,
    slice: &[char],
    row: Vec<char>,
    start: usize,
    end: usize,
    part: Vec<char>,
)
    requires
        call_ensures(trim, (s,), r),
        call_ensures(trim_chars, (slice,), row),
        start <= end <= slice@.len(),
        call_ensures(slice_range::<char>, (slice, start, end), part),
    ensures
        r@ == trimmed(s@),
        row@ == trimmed(slice@),
        part@.len() == end - start,
        forall|i: int| 0 <= i < part@.len() ==> #[trigger] part@[i] == slice@[start + i],
        exists|i: int, j: int|
            {
                &&& 0 <= i <= j <= s@.len()
                &&& r@ == #[trigger] s@.subrange(i, j)
                &&& forall|k: int| 0 <= k < i ==> white_space(#[trigger] s@[k])
                &&& forall|k: int| j <= k < s@.len() ==> white_space(#[trigger] s@[k])
            },
        r@.len() > 0 ==> !white_space(r@[0]) && !white_space(r@.last()),
{
    trimming_takes_the_white_space_at_both_ends(s@);
}

/// A number is written so that it reads back, padded with zeros to its width, and read from
/// nothing but its own text.
pub proof fn a_number_is_written_as_it_reads(
    n: u64,
    k: i64,
    m: u32,
    width: usize,
    unsigned: String,
    signed: String,
    padded: String,
    hex: String,
    s: &str,
    parsed: Option<i64>,
)
    requires
        call_ensures(decimal_u64, (n,), unsigned),
        call_ensures(decimal_i64, (k,), signed),
        call_ensures(padded_digits, (n, 10, width), padded),
        call_ensures(upper_hex_u32, (m,), hex),
        call_ensures(parse_i64, (s,), parsed),
    ensures
        integer(unsigned@) == Some(n as int),
        integer(signed@) == Some(k as int),
        integer_i64(signed@) == Some(k),
        unsigned@ == decimal(n as int),
        signed@ == decimal(k as int),
        padded@ == zero_padded(unsigned@, width as nat),
        hex@ == zero_padded(upper_hex(m as nat), 8),
        parsed == integer_i64(s@),
{
    a_decimal_reads_back(n as int);
    a_decimal_reads_back(k as int);
}

/// A path is joined, and words are parted, as their characters say.
pub proof fn paths_and_words_go_by_their_characters(
    base: &str,
    part: &str,
    path: String,
    s: &str,
    by: Separator,
    r: Vec<Vec<char>>,
    c: char,
    space: bool,
    ctrl: bool,
    code: u32,
)
    requires
        call_ensures(join_path, (base, part), path),
        call_ensures(split_words, (s, by), r),
        call_ensures(is_white_space, (c,), space),
        call_ensures(is_control, (c,), ctrl),
        call_ensures(code_of, (c,), code),
    ensures
        path@ == joined(base@, part@),
        r@.len() == words(s@, by).len(),
        forall|i: int| 0 <= i < r@.len() ==> (#[trigger] r@[i])@ == words(s@, by)[i],
        space <==> white_space(c),
        ctrl <==> control(c),
        code as int == c as int,
{
    the_views_of_words_are_their_characters(r@);
    assert forall|i: int| 0 <= i < r@.len() implies (#[trigger] r@[i])@ == words(s@, by)[i] by {
        assert(char_views(r@)[i] == r@[i]@);
    }
}

/// The digits of a number stand by their place, and rows of characters are the same if each
/// character is.
pub proof fn digits_and_rows_are_written_out(
    n: u64,
    base: u64,
    r: Vec<char>,
    x: &[char],
    y: &[char],
    same: bool,
)
    requires
        2 <= base <= 16,
        call_ensures(digits_of, (n, base), r),
        call_ensures(same_chars, (x, y), same),
    ensures
        r@ == digits(n as nat, base as nat),
        r@.len() > 0,
        n < base ==> r@.len() == 1,
        n >= base ==> r@.drop_last() == digits(n as nat / base as nat, base as nat),
        same <==> x@.len() == y@.len() && forall|i: int|
            0 <= i < x@.len() ==> #[trigger] x@[i] == y@[i],
{
    if x@.len() == y@.len() && forall|i: int| 0 <= i < x@.len() ==> #[trigger] x@[i] == y@[i] {
        assert(x@ =~= y@);
    }
    if n >= base {
        assert(digits(n as nat, base as nat).drop_last() =~= digits(
            n as nat / base as nat,
            base as nat,
        ));
    }
}

} // verus!
