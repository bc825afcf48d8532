//! Text building blocks: digits, fixed-width numerals, prefixes and trimming,
//! each with its meaning stated over sequences of characters.

use vstd::prelude::*;

verus! {

/// The numeral for a digit value below sixteen, in lower case.
pub open spec fn digit_char(d: int) -> char {
    if d == 0 {
        '0'
    } else if d == 1 {
        '1'
    } else if d == 2 {
        '2'
    } else if d == 3 {
        '3'
    } else if d == 4 {
        '4'
    } else if d == 5 {
        '5'
    } else if d == 6 {
        '6'
    } else if d == 7 {
        '7'
    } else if d == 8 {
        '8'
    } else if d == 9 {
        '9'
    } else if d == 10 {
        'a'
    } else if d == 11 {
        'b'
    } else if d == 12 {
        'c'
    } else if d == 13 {
        'd'
    } else if d == 14 {
        'e'
    } else {
        'f'
    }
}

/// The shortest decimal numeral of `n`: no leading zero, and "0" for zero.
pub open spec fn decimal_text(n: nat) -> Seq<char>
    decreases n,
{
    if n < 10 {
        seq![digit_char(n as int)]
    } else {
        decimal_text(n / 10).push(digit_char((n % 10) as int))
    }
}

/// The last `width` hexadecimal digits of `n`, most significant first.
pub open spec fn hex_text(n: nat, width: nat) -> Seq<char>
    decreases width,
{
    if width == 0 {
        Seq::empty()
    } else {
        hex_text(n / 16, (width - 1) as nat).push(digit_char((n % 16) as int))
    }
}

/// `count` zeros.
pub open spec fn zeros(count: nat) -> Seq<char> {
    Seq::new(count, |i: int| '0')
}

/// The decimal numeral of `n`, filled with zeros on the left up to `width` characters.
pub open spec fn zero_padded(n: nat, width: nat) -> Seq<char> {
    let digits = decimal_text(n);
    if digits.len() >= width {
        digits
    } else {
        zeros((width - digits.len()) as nat) + digits
    }
}

/// `String::push` appends exactly one character to the end of the string.
#[verifier::external_body]
pub(crate) fn push_char(text: &mut String, c: char)
    ensures
        final(text)@ == old(text)@.push(c),
{
    text.push(c)
}

/// The numeral of a digit value below sixteen.
pub fn digit_of(d: u8) -> (c: char)
    requires
        d < 16,
    ensures
        c == digit_char(d as int),
{
    if d == 0 {
        '0'
    } else if d == 1 {
        '1'
    } else if d == 2 {
        '2'
    } else if d == 3 {
        '3'
    } else if d == 4 {
        '4'
    } else if d == 5 {
        '5'
    } else if d == 6 {
        '6'
    } else if d == 7 {
        '7'
    } else if d == 8 {
        '8'
    } else if d == 9 {
        '9'
    } else if d == 10 {
        'a'
    } else if d == 11 {
        'b'
    } else if d == 12 {
        'c'
    } else if d == 13 {
        'd'
    } else if d == 14 {
        'e'
    } else {
        'f'
    }
}

/// Appends the characters of `chars`, last one first, to `text`.
fn push_reversed(text: &mut String, chars: &Vec<char>)
    ensures
        final(text)@ == old(text)@ + chars@.reverse(),
{
    let mut i: usize = chars.len();
    while i > 0
        invariant
            i <= chars.len(),
            text@ == old(text)@ + chars@.subrange(i as int, chars.len() as int).reverse(),
        decreases i,
    {
        i = i - 1;
        push_char(text, chars[i]);
        proof {
            let done = chars@.subrange(i as int + 1, chars.len() as int);
            let now = chars@.subrange(i as int, chars.len() as int);
            assert(now.reverse() =~= done.reverse().push(chars@[i as int]));
        }
    }
    proof {
        assert(chars@.subrange(0, chars.len() as int) =~= chars@);
    }
}

/// The digits of `n` in decimal, least significant first.
spec fn decimal_digits_reversed(n: nat) -> Seq<char>
    decreases n,
{
    if n < 10 {
        seq![digit_char(n as int)]
    } else {
        seq![digit_char((n % 10) as int)] + decimal_digits_reversed(n / 10)
    }
}

proof fn lemma_decimal_reversed(n: nat)
    ensures
        decimal_digits_reversed(n).reverse() == decimal_text(n),
        decimal_text(n).len() == decimal_digits_reversed(n).len(),
    decreases n,
{
    if n < 10 {
        assert(decimal_digits_reversed(n).reverse() =~= decimal_text(n));
    } else {
        lemma_decimal_reversed(n / 10);
        let head = seq![digit_char((n % 10) as int)];
        let tail = decimal_digits_reversed(n / 10);
        assert((head + tail).reverse() =~= tail.reverse().push(digit_char((n % 10) as int)));
    }
}

/// Appends the decimal numeral of `n` to `text`.
pub fn push_decimal(text: &mut String, n: u64)
    ensures
        final(text)@ == old(text)@ + decimal_text(n as nat),
{
    let mut digits: Vec<char> = Vec::new();
    let mut rest: u64 = n;
    while rest >= 10
        invariant
            decimal_digits_reversed(n as nat) == digits@ + decimal_digits_reversed(rest as nat),
        decreases rest,
    {
        let d: u8 = (rest % 10) as u8;
        let ghost before = digits@;
        digits.push(digit_of(d));
        proof {
            let head = seq![digit_char((rest % 10) as int)];
            let tail = decimal_digits_reversed((rest / 10) as nat);
            assert(digits@ =~= before + head);
            assert(digits@ + tail =~= before + (head + tail));
        }
        rest = rest / 10;
    }
    digits.push(digit_of(rest as u8));
    proof {
        lemma_decimal_reversed(n as nat);
    }
    push_reversed(text, &digits);
}

/// How many characters the decimal numeral of `n` has.
pub fn decimal_width(n: u64) -> (width: usize)
    ensures
        width == decimal_text(n as nat).len(),
        1 <= width <= 20,
{
    let mut width: usize = 1;
    let mut rest: u64 = n;
    proof {
        assert(pow10(0) == 1);
        assert(rest as nat * 1 == rest as nat);
    }
    while rest >= 10
        invariant
            1 <= width <= 20,
            decimal_text(n as nat).len() == decimal_text(rest as nat).len() + width - 1,
            rest as nat * pow10((width - 1) as nat) <= n,
        decreases rest,
    {
        proof {
            let unit = pow10((width - 1) as nat);
            let next = (rest / 10) as nat;
            lemma_pow10_step((width - 1) as nat);
            lemma_pow10_grows(20, width as nat);
            assert(next * (10 * unit) <= rest as nat * unit) by (nonlinear_arith)
                requires
                    next * 10 <= rest as nat,
                    unit >= 0,
            ;
            assert(next * pow10(width as nat) >= pow10(width as nat)) by (nonlinear_arith)
                requires
                    next >= 1,
                    pow10(width as nat) >= 0,
            ;
        }
        rest = rest / 10;
        width = width + 1;
    }
    width
}

/// Ten to the power `e`.
pub open spec fn pow10(e: nat) -> nat
    decreases e,
{
    if e == 0 {
        1
    } else {
        10 * pow10((e - 1) as nat)
    }
}

proof fn lemma_pow10_step(e: nat)
    ensures
        pow10(e + 1) == 10 * pow10(e),
        pow10(e) >= 1,
    decreases e,
{
    if e > 0 {
        lemma_pow10_step((e - 1) as nat);
    }
}

/// Powers of ten grow with the exponent; the twentieth no longer fits in 64 bits.
pub proof fn lemma_pow10_grows(high: nat, low: nat)
    requires
        low <= high,
    ensures
        1 <= pow10(low) <= pow10(high),
        pow10(19) == 10_000_000_000_000_000_000,
        pow10(20) > u64::MAX,
    decreases high,
{
    reveal_with_fuel(pow10, 21);
    lemma_pow10_step(low);
    if low < high {
        lemma_pow10_grows((high - 1) as nat, low);
    }
}

/// Appends the decimal numeral of `n`, filled with zeros on the left up to `width` characters.
pub fn push_zero_padded(text: &mut String, n: u64, width: usize)
    ensures
        final(text)@ == old(text)@ + zero_padded(n as nat, width as nat),
{
    let used = decimal_width(n);
    let mut filled: usize = used;
    while filled < width
        invariant
            used <= filled,
            filled <= width || filled == used,
            text@ == old(text)@ + zeros((filled - used) as nat),
        decreases width - filled,
    {
        let ghost before = text@;
        push_char(text, '0');
        proof {
            assert(zeros((filled + 1 - used) as nat) =~= zeros((filled - used) as nat).push('0'));
            assert(text@ =~= old(text)@ + zeros((filled + 1 - used) as nat));
        }
        filled = filled + 1;
    }
    let ghost padded = text@;
    push_decimal(text, n);
    proof {
        let digits = decimal_text(n as nat);
        if digits.len() >= width {
            assert(zeros(0) =~= Seq::<char>::empty());
            assert(text@ =~= old(text)@ + digits);
        } else {
            assert(text@ =~= old(text)@ + (zeros((width - digits.len()) as nat) + digits));
        }
    }
}

spec fn hex_digits_reversed(n: nat, width: nat) -> Seq<char>
    decreases width,
{
    if width == 0 {
        Seq::empty()
    } else {
        seq![digit_char((n % 16) as int)] + hex_digits_reversed(n / 16, (width - 1) as nat)
    }
}

proof fn lemma_hex_reversed(n: nat, width: nat)
    ensures
        hex_digits_reversed(n, width).reverse() == hex_text(n, width),
    decreases width,
{
    if width == 0 {
        assert(hex_digits_reversed(n, width).reverse() =~= hex_text(n, width));
    } else {
        lemma_hex_reversed(n / 16, (width - 1) as nat);
        let head = seq![digit_char((n % 16) as int)];
        let tail = hex_digits_reversed(n / 16, (width - 1) as nat);
        assert((head + tail).reverse() =~= tail.reverse().push(digit_char((n % 16) as int)));
    }
}

/// Appends the last `width` hexadecimal digits of `n`, in lower case.
pub fn push_hex(text: &mut String, n: u64, width: usize)
    ensures
        final(text)@ == old(text)@ + hex_text(n as nat, width as nat),
{
    let mut digits: Vec<char> = Vec::new();
    let mut rest: u64 = n;
    let mut produced: usize = 0;
    while produced < width
        invariant
            produced <= width,
            hex_digits_reversed(n as nat, width as nat) == digits@ + hex_digits_reversed(
                rest as nat,
                (width - produced) as nat,
            ),
        decreases width - produced,
    {
        let d: u8 = (rest % 16) as u8;
        let ghost before = digits@;
        digits.push(digit_of(d));
        proof {
            let head = seq![digit_char((rest % 16) as int)];
            let tail = hex_digits_reversed((rest / 16) as nat, (width - produced - 1) as nat);
            assert(digits@ =~= before + head);
            assert(digits@ + tail =~= before + (head + tail));
        }
        rest = rest / 16;
        produced = produced + 1;
    }
    proof {
        lemma_hex_reversed(n as nat, width as nat);
        assert(digits@ + Seq::<char>::empty() =~= digits@);
    }
    push_reversed(text, &digits);
}

/// Whether `text` begins with `prefix`.
pub open spec fn has_prefix(text: Seq<char>, prefix: Seq<char>) -> bool {
    prefix.len() <= text.len() && text.subrange(0, prefix.len() as int) == prefix
}

/// Tests whether `text` begins with `prefix`.
pub fn starts_with(text: &str, prefix: &str) -> (found: bool)
    ensures
        found == has_prefix(text@, prefix@),
{
    let wanted = prefix.unicode_len();
    if text.unicode_len() < wanted {
        return false;
    }
    let mut i: usize = 0;
    while i < wanted
        invariant
            i <= wanted,
            wanted == prefix@.len(),
            wanted <= text@.len(),
            text@.subrange(0, i as int) == prefix@.subrange(0, i as int),
        decreases wanted - i,
    {
        if text.get_char(i) != prefix.get_char(i) {
            proof {
                assert(text@.subrange(0, wanted as int)[i as int] != prefix@[i as int]);
            }
            return false;
        }
        proof {
            assert(text@.subrange(0, i + 1) =~= text@.subrange(0, i as int).push(text@[i as int]));
            assert(prefix@.subrange(0, i + 1) =~= prefix@.subrange(0, i as int).push(
                prefix@[i as int],
            ));
        }
        i = i + 1;
    }
    proof {
        assert(prefix@.subrange(0, wanted as int) =~= prefix@);
    }
    true
}

/// The characters of `text`, one by one.
pub fn chars_of(text: &str) -> (chars: Vec<char>)
    ensures
        chars@ == text@,
{
    let count = text.unicode_len();
    let mut chars: Vec<char> = Vec::new();
    let mut i: usize = 0;
    while i < count
        invariant
            i <= count,
            count == text@.len(),
            chars@ == text@.subrange(0, i as int),
        decreases count - i,
    {
        chars.push(text.get_char(i));
        proof {
            assert(chars@ =~= text@.subrange(0, i + 1));
        }
        i = i + 1;
    }
    proof {
        assert(text@.subrange(0, count as int) =~= text@);
    }
    chars
}

/// Whether `c` has the Unicode property White_Space, as `char::is_whitespace` tells it.
pub uninterp spec fn is_white_space(c: char) -> bool;

/// `char::is_whitespace`: the answer depends on the character alone.
#[verifier::external_body]
pub(crate) fn char_is_whitespace(c: char) -> (white: bool)
    ensures
        white == is_white_space(c),
{
    c.is_whitespace()
}

/// `text` without the white space it begins with.
pub open spec fn trim_start(text: Seq<char>) -> Seq<char>
    decreases text.len(),
{
    if text.len() > 0 && is_white_space(text[0]) {
        trim_start(text.drop_first())
    } else {
        text
    }
}

/// `text` without the white space it ends with.
pub open spec fn trim_end(text: Seq<char>) -> Seq<char>
    decreases text.len(),
{
    if text.len() > 0 && is_white_space(text.last()) {
        trim_end(text.drop_last())
    } else {
        text
    }
}

/// `text` without the white space at either end.
pub open spec fn trimmed(text: Seq<char>) -> Seq<char> {
    trim_end(trim_start(text))
}

/// The bounds of the part of `chars` that is left when the white space at both ends goes.
pub fn trim_bounds(chars: &Vec<char>) -> (bounds: (usize, usize))
    ensures
        bounds.0 <= bounds.1 <= chars.len(),
        chars@.subrange(bounds.0 as int, bounds.1 as int) == trimmed(chars@),
{
    let len = chars.len();
    let mut start: usize = 0;
    proof {
        assert(chars@.subrange(0, len as int) =~= chars@);
    }
    while start < len && char_is_whitespace(chars[start])
        invariant
            start <= len,
            len == chars.len(),
            trim_start(chars@) == trim_start(chars@.subrange(start as int, len as int)),
        decreases len - start,
    {
        proof {
            let rest = chars@.subrange(start as int, len as int);
            assert(rest.drop_first() =~= chars@.subrange(start + 1, len as int));
        }
        start = start + 1;
    }
    let ghost body = chars@.subrange(start as int, len as int);
    let mut end: usize = len;
    proof {
        assert(trim_start(body) == body);
    }
    while end > start && char_is_whitespace(chars[end - 1])
        invariant
            start <= end <= len,
            len == chars.len(),
            trim_end(body) == trim_end(chars@.subrange(start as int, end as int)),
            body == chars@.subrange(start as int, len as int),
        decreases end - start,
    {
        proof {
            let rest = chars@.subrange(start as int, end as int);
            assert(rest.drop_last() =~= chars@.subrange(start as int, end - 1));
        }
        end = end - 1;
    }
    (start, end)
}

} // verus!
