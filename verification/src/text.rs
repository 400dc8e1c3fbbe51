//! Decimal formatting of numbers used in file names and messages.
use vstd::prelude::*;

verus! {

/// The character of decimal digit `d`.
pub open spec fn digit_char(d: nat) -> char {
    if d == 0 {
        '0'
    } else if d == 1 {
        '1'
    } else if d == 2 {
        '2'
    } else if d == 3 {
        '3'
    } else if d == 4 {
        '4'
    } else if d == 5 {
        '5'
    } else if d == 6 {
        '6'
    } else if d == 7 {
        '7'
    } else if d == 8 {
        '8'
    } else {
        '9'
    }
}

/// Decimal representation of `n`, without leading zeros.
pub open spec fn decimal(n: nat) -> Seq<char>
    decreases n,
{
    if n < 10 {
        seq![digit_char(n)]
    } else {
        decimal(n / 10) + seq![digit_char(n % 10)]
    }
}

/// Decimal representation of `n`, left-padded with `'0'` to at least `width` characters.
pub open spec fn zero_padded(n: nat, width: nat) -> Seq<char> {
    let digits = decimal(n);
    if digits.len() >= width {
        digits
    } else {
        Seq::new((width - digits.len()) as nat, |i: int| '0') + digits
    }
}

/// `Debug` rendering of a list of numbers: `[a, b, c]`.
pub open spec fn list_text(values: Seq<usize>) -> Seq<char> {
    seq!['['] + list_items(values) + seq![']']
}

/// The numbers of `values` in decimal, separated by `", "`.
pub open spec fn list_items(values: Seq<usize>) -> Seq<char>
    decreases values.len(),
{
    if values.len() == 0 {
        Seq::empty()
    } else if values.len() == 1 {
        decimal(values[0] as nat)
    } else {
        list_items(values.drop_last()) + seq![',', ' '] + decimal(values.last() as nat)
    }
}

fn digit(d: usize) -> (c: char)
    requires
        d < 10,
    ensures
        c == digit_char(d as nat),
{
    if d == 0 {
        '0'
    } else if d == 1 {
        '1'
    } else if d == 2 {
        '2'
    } else if d == 3 {
        '3'
    } else if d == 4 {
        '4'
    } else if d == 5 {
        '5'
    } else if d == 6 {
        '6'
    } else if d == 7 {
        '7'
    } else if d == 8 {
        '8'
    } else {
        '9'
    }
}

/// Digits of `s` from the last one backwards, as characters.
spec fn reversed_digits(s: Seq<usize>) -> Seq<char>
    decreases s.len(),
{
    if s.len() == 0 {
        Seq::empty()
    } else {
        seq![digit_char(s.last() as nat)] + reversed_digits(s.drop_last())
    }
}

proof fn lemma_reversed_digits(s: Seq<usize>)
    ensures
        reversed_digits(s).len() == s.len(),
        forall|k: int| 0 <= k < s.len() ==> #[trigger] reversed_digits(s)[k] == digit_char(s[s.len() - 1 - k] as nat),
    decreases s.len(),
{
    if s.len() > 0 {
        lemma_reversed_digits(s.drop_last());
        assert forall|k: int| 0 <= k < s.len() implies #[trigger] reversed_digits(s)[k] == digit_char(
            s[s.len() - 1 - k] as nat,
        ) by {
            if k > 0 {
                assert(reversed_digits(s)[k] == reversed_digits(s.drop_last())[k - 1]);
            }
        }
    }
}

/// Appends the decimal digits of `n` to `out`.
pub fn push_decimal(out: &mut Vec<char>, n: usize)
    ensures
        final(out)@ == old(out)@ + decimal(n as nat),
{
    let mut rem = n;
    let mut low: Vec<usize> = Vec::new();
    while rem >= 10
        invariant
            decimal(n as nat) == decimal(rem as nat) + reversed_digits(low@),
            forall|k: int| 0 <= k < low@.len() ==> #[trigger] low@[k] < 10,
        decreases rem,
    {
        let ghost before = low@;
        low.push(rem % 10);
        proof {
            assert(low@.drop_last() =~= before);
            assert(decimal(rem as nat) == decimal((rem / 10) as nat) + seq![digit_char((rem % 10) as nat)]);
            assert(reversed_digits(low@) == seq![digit_char((rem % 10) as nat)] + reversed_digits(before));
            assert(decimal(n as nat) =~= decimal((rem / 10) as nat) + reversed_digits(low@));
        }
        rem = rem / 10;
    }
    let ghost start = out@;
    out.push(digit(rem));
    proof {
        lemma_reversed_digits(low@);
    }
    let mut k: usize = low.len();
    while k > 0
        invariant
            k <= low@.len(),
            forall|x: int| 0 <= x < low@.len() ==> #[trigger] low@[x] < 10,
            reversed_digits(low@).len() == low@.len(),
            forall|x: int|
                0 <= x < low@.len() ==> #[trigger] reversed_digits(low@)[x] == digit_char(low@[low@.len() - 1 - x] as nat),
            decimal(n as nat) == seq![digit_char(rem as nat)] + reversed_digits(low@),
            out@ == start + seq![digit_char(rem as nat)] + reversed_digits(low@).subrange(0, (low@.len() - k) as int),
        decreases k,
    {
        k = k - 1;
        let ghost before = out@;
        out.push(digit(low[k]));
        proof {
            let r = reversed_digits(low@);
            assert(r.subrange(0, (low@.len() - k) as int) =~= r.subrange(0, (low@.len() - k - 1) as int).push(
                r[low@.len() - k - 1],
            ));
        }
    }
    proof {
        assert(reversed_digits(low@).subrange(0, low@.len() as int) =~= reversed_digits(low@));
        assert(out@ =~= start + decimal(n as nat));
    }
}

/// Decimal representation of `n` padded with leading zeros to at least `width` characters.
pub fn zero_padded_chars(n: usize, width: usize) -> (text: Vec<char>)
    ensures
        text@ == zero_padded(n as nat, width as nat),
{
    let mut digits: Vec<char> = Vec::new();
    push_decimal(&mut digits, n);
    assert(digits@ =~= decimal(n as nat));
    if digits.len() >= width {
        return digits;
    }
    let pad = width - digits.len();
    let mut text: Vec<char> = Vec::new();
    let mut i: usize = 0;
    while i < pad
        invariant
            i <= pad,
            text@ == Seq::new(i as nat, |x: int| '0'),
        decreases pad - i,
    {
        text.push('0');
        i = i + 1;
        assert(text@ =~= Seq::new(i as nat, |x: int| '0'));
    }
    let mut j: usize = 0;
    let ghost zeros = text@;
    while j < digits.len()
        invariant
            j <= digits@.len(),
            text@ == zeros + digits@.subrange(0, j as int),
        decreases digits@.len() - j,
    {
        text.push(digits[j]);
        j = j + 1;
        assert(text@ =~= zeros + digits@.subrange(0, j as int));
    }
    assert(digits@.subrange(0, digits@.len() as int) =~= digits@);
    text
}

/// `Debug` rendering of a list of numbers, e.g. `[512, 512, 512]`.
pub fn list_chars(values: &Vec<usize>) -> (text: Vec<char>)
    ensures
        text@ == list_text(values@),
{
    let mut text: Vec<char> = Vec::new();
    text.push('[');
    let mut i: usize = 0;
    while i < values.len()
        invariant
            i <= values@.len(),
            text@ == seq!['['] + list_items(values@.subrange(0, i as int)),
        decreases values@.len() - i,
    {
        let ghost before = text@;
        if i > 0 {
            text.push(',');
            text.push(' ');
        }
        push_decimal(&mut text, values[i]);
        proof {
            let prefix = values@.subrange(0, i + 1);
            assert(prefix.drop_last() =~= values@.subrange(0, i as int));
            if i == 0 {
                assert(values@.subrange(0, 0) =~= Seq::<usize>::empty());
            }
            assert(text@ =~= seq!['['] + list_items(prefix));
        }
        i = i + 1;
    }
    text.push(']');
    assert(values@.subrange(0, values@.len() as int) =~= values@);
    assert(text@ =~= list_text(values@));
    text
}

/// `String::from_iter` over characters: the string made of exactly the
/// characters of `chars`, in order, as its documentation states.
#[verifier::external_body]
pub(crate) fn string_from_chars(chars: &Vec<char>) -> (text: String)
    ensures
        text@ == chars@,
{
    String::from_iter(chars.iter())
}

/// Decimal representations differ for different numbers.
pub proof fn lemma_decimal_injective(a: nat, b: nat)
    requires
        decimal(a) == decimal(b),
    ensures
        a == b,
    decreases a,
{
    lemma_decimal_len(a);
    lemma_decimal_len(b);
    if a < 10 && b < 10 {
    } else if a >= 10 && b >= 10 {
        let da = decimal(a);
        let db = decimal(b);
        assert(da.last() == digit_char(a % 10));
        assert(db.last() == digit_char(b % 10));
        assert(decimal(a / 10) =~= da.drop_last());
        assert(decimal(b / 10) =~= db.drop_last());
        lemma_decimal_injective(a / 10, b / 10);
    }
}

/// A decimal representation is never empty, has one digit exactly below ten,
/// and starts with `'0'` only for zero.
pub proof fn lemma_decimal_len(n: nat)
    ensures
        decimal(n).len() >= 1,
        decimal(n).len() == 1 <==> n < 10,
        decimal(n)[0] == '0' <==> n == 0,
    decreases n,
{
    if n >= 10 {
        lemma_decimal_len(n / 10);
        assert(decimal(n)[0] == decimal(n / 10)[0]);
    }
}

/// Zero-padded decimal representations of the same width differ for different numbers.
pub proof fn lemma_zero_padded_injective(a: nat, b: nat, width: nat)
    requires
        zero_padded(a, width) == zero_padded(b, width),
    ensures
        a == b,
{
    lemma_decimal_len(a);
    lemma_decimal_len(b);
    let da = decimal(a);
    let db = decimal(b);
    if da.len() >= width && db.len() >= width {
        lemma_decimal_injective(a, b);
    } else if da.len() < width && db.len() < width {
        let pa = zero_padded(a, width);
        if da.len() == db.len() {
            assert(da =~= pa.subrange(width - da.len(), width as int));
            assert(db =~= pa.subrange(width - db.len(), width as int));
            lemma_decimal_injective(a, b);
        } else if da.len() < db.len() {
            assert(pa[width - db.len()] == db[0]);
            assert(pa[width - db.len()] == '0');
        } else {
            assert(pa[width - da.len()] == da[0]);
            assert(zero_padded(b, width)[width - da.len()] == '0');
        }
    } else if da.len() >= width {
        assert(zero_padded(b, width)[0] == '0');
        assert(da[0] == '0');
    } else {
        assert(zero_padded(a, width)[0] == '0');
        assert(db[0] == '0');
    }
}

/// `c` is one of the ten decimal digits.
pub open spec fn is_digit_char(c: char) -> bool {
    c == '0' || c == '1' || c == '2' || c == '3' || c == '4' || c == '5' || c == '6' || c == '7' || c == '8'
        || c == '9'
}

/// Decimal and zero-padded representations consist of digits only.
pub proof fn lemma_zero_padded_digits(n: nat, width: nat)
    ensures
        forall|k: int| 0 <= k < decimal(n).len() ==> is_digit_char(#[trigger] decimal(n)[k]),
        forall|k: int| 0 <= k < zero_padded(n, width).len() ==> is_digit_char(#[trigger] zero_padded(n, width)[k]),
    decreases n,
{
    if n >= 10 {
        lemma_zero_padded_digits(n / 10, width);
        let d = decimal(n);
        assert forall|k: int| 0 <= k < d.len() implies is_digit_char(#[trigger] d[k]) by {
            if k < decimal(n / 10).len() {
                assert(d[k] == decimal(n / 10)[k]);
            }
        }
    }
    let z = zero_padded(n, width);
    assert forall|k: int| 0 <= k < z.len() implies is_digit_char(#[trigger] z[k]) by {
        let digits = decimal(n);
        if digits.len() < width {
            let pad = (width - digits.len()) as int;
            if k >= pad {
                assert(z[k] == digits[k - pad]);
            }
        }
    }
}

} // verus!
