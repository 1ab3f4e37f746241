//! Decimal and hexadecimal renderings of integers, as `format!` writes them.

use vstd::prelude::*;

verus! {

/// The lowercase digit of value `d` (below sixteen).
pub open spec fn digit_char(d: int) -> char {
    if d < 10 {
        ('0' as int + d) as char
    } else {
        ('a' as int + (d - 10)) as char
    }
}

/// `n` in decimal, without leading zeros (`{}`).
pub open spec fn decimal(n: nat) -> Seq<char>
    decreases n,
{
    if n < 10 {
        seq![digit_char(n as int)]
    } else {
        decimal(n / 10).push(digit_char((n % 10) as int))
    }
}

/// `s` with zeros in front, up to `width` characters (`{:0width}` on a number).
pub open spec fn zero_padded(s: Seq<char>, width: nat) -> Seq<char> {
    if s.len() >= width {
        s
    } else {
        Seq::new((width - s.len()) as nat, |i: int| '0') + s
    }
}

/// The last `k` hexadecimal digits of `n`, zeros in front (`{:0k$x}` for a value below `16^k`).
pub open spec fn hex_digits(n: nat, k: nat) -> Seq<char>
    decreases k,
{
    if k == 0 {
        Seq::empty()
    } else {
        hex_digits(n / 16, (k - 1) as nat).push(digit_char((n % 16) as int))
    }
}

/// Appends the digit of value `d`.
pub fn push_digit(s: &mut String, d: u64)
    requires
        d < 16,
    ensures
        final(s)@ == old(s)@.push(digit_char(d as int)),
{
    let lit: &str = match d {
        0 => {
            proof { reveal_strlit("0"); }
            "0"
        },
        1 => {
            proof { reveal_strlit("1"); }
            "1"
        },
        2 => {
            proof { reveal_strlit("2"); }
            "2"
        },
        3 => {
            proof { reveal_strlit("3"); }
            "3"
        },
        4 => {
            proof { reveal_strlit("4"); }
            "4"
        },
        5 => {
            proof { reveal_strlit("5"); }
            "5"
        },
        6 => {
            proof { reveal_strlit("6"); }
            "6"
        },
        7 => {
            proof { reveal_strlit("7"); }
            "7"
        },
        8 => {
            proof { reveal_strlit("8"); }
            "8"
        },
        9 => {
            proof { reveal_strlit("9"); }
            "9"
        },
        10 => {
            proof { reveal_strlit("a"); }
            "a"
        },
        11 => {
            proof { reveal_strlit("b"); }
            "b"
        },
        12 => {
            proof { reveal_strlit("c"); }
            "c"
        },
        13 => {
            proof { reveal_strlit("d"); }
            "d"
        },
        14 => {
            proof { reveal_strlit("e"); }
            "e"
        },
        _ => {
            proof { reveal_strlit("f"); }
            "f"
        },
    };
    assert(lit@ =~= seq![digit_char(d as int)]);
    s.append(lit);
}

/// Appends `n` in decimal.
pub fn push_decimal(s: &mut String, n: u64)
    ensures
        final(s)@ == old(s)@ + decimal(n as nat),
    decreases n,
{
    if n >= 10 {
        push_decimal(s, n / 10);
    }
    push_digit(s, n % 10);
    assert(s@ =~= old(s)@ + decimal(n as nat)) by {
        if n >= 10 {
            assert(decimal(n as nat) == decimal((n / 10) as nat).push(digit_char((n % 10) as int)));
        }
    };
}

/// Appends `n` in decimal with zeros in front, up to `width` characters.
pub fn push_zero_padded_decimal(s: &mut String, n: u64, width: usize)
    ensures
        final(s)@ == old(s)@ + zero_padded(decimal(n as nat), width as nat),
{
    let mut digits = String::new();
    push_decimal(&mut digits, n);
    assert(digits@ =~= decimal(n as nat));
    let len = digits.as_str().unicode_len();
    let mut i: usize = len;
    let ghost start = s@;
    while i < width
        invariant
            len as nat == decimal(n as nat).len(),
            len <= i,
            i <= width || len >= width,
            len >= width ==> i == len,
            s@ == start + Seq::new((i - len) as nat, |k: int| '0'),
        decreases width - i,
    {
        proof { reveal_strlit("0"); }
        s.append("0");
        i = i + 1;
        assert(s@ =~= start + Seq::new((i - len) as nat, |k: int| '0'));
    }
    let ghost pad = s@;
    s.append(digits.as_str());
    proof {
        let d = decimal(n as nat);
        if d.len() >= width {
            assert(i == len);
            assert(pad =~= start);
        } else {
            assert(i == width);
        }
    }
    assert(s@ =~= start + zero_padded(decimal(n as nat), width as nat));
}

/// Appends the last `k` hexadecimal digits of `n`.
pub fn push_hex_digits(s: &mut String, n: u64, k: u32)
    ensures
        final(s)@ == old(s)@ + hex_digits(n as nat, k as nat),
    decreases k,
{
    if k > 0 {
        push_hex_digits(s, n / 16, k - 1);
        push_digit(s, n % 16);
        assert(s@ =~= old(s)@ + hex_digits(n as nat, k as nat));
    } else {
        assert(s@ =~= old(s)@ + hex_digits(n as nat, k as nat));
    }
}

/// `k` hexadecimal digits are `k` characters, each a digit or a letter from `a` to `f`.
pub proof fn lemma_hex_digits_shape(n: nat, k: nat)
    ensures
        hex_digits(n, k).len() == k,
        forall|i: int|
            0 <= i < k ==> ('0' as int) <= (#[trigger] hex_digits(n, k)[i]) as int && (hex_digits(n, k)[i] as int) <= (
            'f' as int),
    decreases k,
{
    if k > 0 {
        lemma_hex_digits_shape(n / 16, (k - 1) as nat);
        let d = (n % 16) as int;
        assert(('0' as int) <= digit_char(d) as int <= ('f' as int));
    }
}

/// The number a string of decimal digits stands for.
pub open spec fn digits_value(s: Seq<char>) -> nat
    decreases s.len(),
{
    if s.len() == 0 {
        0
    } else {
        digits_value(s.drop_last()) * 10 + ((s.last() as int - '0' as int) as nat)
    }
}

/// A run of `k` zeros.
pub open spec fn zeros(k: nat) -> Seq<char> {
    Seq::new(k, |i: int| '0')
}

/// `n` in decimal stands for `n`.
pub proof fn lemma_decimal_value(n: nat)
    ensures
        digits_value(decimal(n)) == n,
        decimal(n).len() >= 1,
    decreases n,
{
    let s = decimal(n);
    if n < 10 {
        assert(s.drop_last() =~= Seq::<char>::empty());
        assert(s.last() == digit_char(n as int));
        assert(digit_char(n as int) as int == '0' as int + n);
        assert(digits_value(s.drop_last()) == 0);
    } else {
        lemma_decimal_value(n / 10);
        assert(s.drop_last() =~= decimal(n / 10));
        assert(s.last() == digit_char((n % 10) as int));
        assert(digit_char((n % 10) as int) as int == '0' as int + n % 10);
        assert((n / 10) * 10 + n % 10 == n);
    }
    assert(digits_value(s) == digits_value(s.drop_last()) * 10 + ((s.last() as int - '0' as int) as nat));
}

/// Zeros in front do not change what a digit string stands for.
pub proof fn lemma_zeros_value(k: nat, s: Seq<char>)
    ensures
        digits_value(zeros(k) + s) == digits_value(s),
    decreases s.len(), k,
{
    if s.len() > 0 {
        assert((zeros(k) + s).drop_last() =~= zeros(k) + s.drop_last());
        lemma_zeros_value(k, s.drop_last());
    } else if k > 0 {
        assert(zeros(k) + s =~= zeros(k));
        assert(zeros(k).drop_last() =~= zeros((k - 1) as nat) + s);
        lemma_zeros_value((k - 1) as nat, s);
    } else {
        assert(zeros(k) + s =~= Seq::<char>::empty());
    }
}

/// Distinct numbers have distinct decimal renderings, with or without zeros in front.
pub proof fn lemma_decimal_injective(a: nat, b: nat, width: nat)
    ensures
        decimal(a) == decimal(b) ==> a == b,
        zero_padded(decimal(a), width) == zero_padded(decimal(b), width) ==> a == b,
{
    lemma_decimal_value(a);
    lemma_decimal_value(b);
    if decimal(a).len() < width {
        assert(zero_padded(decimal(a), width) == zeros((width - decimal(a).len()) as nat) + decimal(a));
        lemma_zeros_value((width - decimal(a).len()) as nat, decimal(a));
    }
    if decimal(b).len() < width {
        assert(zero_padded(decimal(b), width) == zeros((width - decimal(b).len()) as nat) + decimal(b));
        lemma_zeros_value((width - decimal(b).len()) as nat, decimal(b));
    }
}

} // verus!
