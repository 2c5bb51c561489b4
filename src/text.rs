use vstd::prelude::*;

verus! {

/// The decimal digit `d` (0..=9) as a character.
pub open spec fn digit_char(d: int) -> char {
    if d == 0 {
        '0'
    } else if d == 1 {
        '1'
    } else if d == 2 {
        '2'
    } else if d == 3 {
        '3'
    } else if d == 4 {
        '4'
    } else if d == 5 {
        '5'
    } else if d == 6 {
        '6'
    } else if d == 7 {
        '7'
    } else if d == 8 {
        '8'
    } else {
        '9'
    }
}

/// Decimal digits of `n`, most significant first, without leading zeros.
pub open spec fn decimal(n: nat) -> Seq<char>
    decreases n,
{
    if n < 10 {
        seq![digit_char(n as int)]
    } else {
        decimal(n / 10).push(digit_char((n % 10) as int))
    }
}

/// A fixed-point value (see `SCALE`) written with two decimals, truncated
/// toward zero: `12_345_678` is `"12.34"`, `-1_500_000` is `"-1.50"`.
pub open spec fn fixed_text(v: int) -> Seq<char> {
    let hundredths = (if v < 0 {
        -v
    } else {
        v
    }) / 10_000;
    let sign = if v < 0 && hundredths > 0 {
        seq!['-']
    } else {
        Seq::<char>::empty()
    };
    sign + decimal((hundredths / 100) as nat) + seq![
        '.',
        digit_char((hundredths % 100) / 10),
        digit_char(hundredths % 10),
    ]
}

/// The digit `d` as a one-character string.
fn digit_str(d: u8) -> (r: &'static str)
    requires
        d < 10,
    ensures
        r@ == seq![digit_char(d as int)],
{
    proof {
        reveal_strlit("0");
        reveal_strlit("1");
        reveal_strlit("2");
        reveal_strlit("3");
        reveal_strlit("4");
        reveal_strlit("5");
        reveal_strlit("6");
        reveal_strlit("7");
        reveal_strlit("8");
        reveal_strlit("9");
    }
    if d == 0 {
        "0"
    } else if d == 1 {
        "1"
    } else if d == 2 {
        "2"
    } else if d == 3 {
        "3"
    } else if d == 4 {
        "4"
    } else if d == 5 {
        "5"
    } else if d == 6 {
        "6"
    } else if d == 7 {
        "7"
    } else if d == 8 {
        "8"
    } else {
        "9"
    }
}

/// Appends the decimal digits of `n`.
pub fn push_decimal(out: &mut String, n: u128)
    ensures
        final(out)@ == old(out)@ + decimal(n as nat),
    decreases n,
{
    if n >= 10 {
        push_decimal(out, n / 10);
    }
    let ghost mid = out@;
    out.append(digit_str((n % 10) as u8));
    proof {
        if n >= 10 {
            assert(out@ =~= old(out)@ + decimal(n as nat));
        } else {
            assert(out@ =~= old(out)@ + decimal(n as nat));
        }
    }
}

/// Appends a fixed-point value with two decimals; see [`fixed_text`].
pub fn push_fixed(out: &mut String, v: i128)
    ensures
        final(out)@ == old(out)@ + fixed_text(v as int),
{
    let magnitude: u128 = if v < 0 {
        (-(v + 1)) as u128 + 1
    } else {
        v as u128
    };
    let hundredths = magnitude / 10_000;
    if v < 0 && hundredths > 0 {
        proof {
            reveal_strlit("-");
        }
        out.append("-");
    }
    push_decimal(out, hundredths / 100);
    proof {
        reveal_strlit(".");
    }
    out.append(".");
    out.append(digit_str(((hundredths % 100) / 10) as u8));
    out.append(digit_str((hundredths % 10) as u8));
    assert(out@ =~= old(out)@ + fixed_text(v as int));
}

/// A fixed-point value with two decimals; see [`fixed_text`].
pub fn fixed_string(v: i128) -> (r: String)
    ensures
        r@ == fixed_text(v as int),
{
    let mut out = String::new();
    push_fixed(&mut out, v);
    assert(out@ =~= fixed_text(v as int));
    out
}

pub open spec fn is_digit(c: char) -> bool {
    '0' <= c && c <= '9'
}

/// The value of a run of decimal digits.
pub open spec fn digits_value(cs: Seq<char>) -> int
    decreases cs.len(),
{
    if cs.len() == 0 {
        0
    } else {
        digits_value(cs.drop_last()) * 10 + (cs.last() as u32 - '0' as u32)
    }
}

/// The text after an optional leading `+`.
pub open spec fn unsigned_digits(cs: Seq<char>) -> Seq<char> {
    if cs.len() > 0 && cs[0] == '+' {
        cs.skip(1)
    } else {
        cs
    }
}

/// More digits never make the value smaller.
proof fn lemma_digits_grow(cs: Seq<char>, i: int)
    requires
        0 <= i <= cs.len(),
        forall|k: int| 0 <= k < cs.len() ==> is_digit(#[trigger] cs[k]),
    ensures
        digits_value(cs.take(i)) <= digits_value(cs),
        0 <= digits_value(cs.take(i)),
    decreases cs.len() - i,
{
    if i < cs.len() {
        let next = cs.take(i + 1);
        assert(next.drop_last() =~= cs.take(i));
        assert(next.last() == cs[i]);
        assert(forall|k: int| 0 <= k < next.len() ==> #[trigger] next[k] == cs[k]);
        lemma_digits_grow(cs, i + 1);
    } else {
        assert(cs.take(i) =~= cs);
        lemma_digits_nonnegative(cs);
    }
}

proof fn lemma_digits_nonnegative(cs: Seq<char>)
    requires
        forall|k: int| 0 <= k < cs.len() ==> is_digit(#[trigger] cs[k]),
    ensures
        0 <= digits_value(cs),
    decreases cs.len(),
{
    if cs.len() > 0 {
        let q = cs.drop_last();
        assert(forall|k: int| 0 <= k < q.len() ==> #[trigger] q[k] == cs[k]);
        lemma_digits_nonnegative(q);
        assert(is_digit(cs.last()));
    }
}

/// The value of the text in the form an unsigned integer is read from: an
/// optional `+`, then one or more decimal digits; none when the text has
/// another form or the value exceeds `max`.
pub open spec fn unsigned_number(cs: Seq<char>, max: int) -> Option<int> {
    let body = unsigned_digits(cs);
    if body.len() > 0 && (forall|i: int| 0 <= i < body.len() ==> is_digit(#[trigger] body[i]))
        && digits_value(body) <= max {
        Some(digits_value(body))
    } else {
        None
    }
}

/// Reads an unsigned integer of at most `max`; see [`unsigned_number`].
pub fn parse_unsigned(s: &str, max: u64) -> (r: Option<u64>)
    ensures
        match r {
            Some(v) => unsigned_number(s@, max as int) == Some(v as int),
            None => unsigned_number(s@, max as int) is None,
        },
{
    let n = s.unicode_len();
    let start: usize = if n > 0 && s.get_char(0) == '+' {
        1
    } else {
        0
    };
    let ghost body = s@.skip(start as int);
    assert(body =~= unsigned_digits(s@));
    if start >= n {
        return None;
    }
    let mut value: u128 = 0;
    let mut i: usize = start;
    while i < n
        invariant
            start <= i <= n,
            n == s@.len(),
            body == s@.skip(start as int),
            body == unsigned_digits(s@),
            forall|k: int| 0 <= k < i - start ==> is_digit(#[trigger] body[k]),
            value == digits_value(body.take(i - start)),
            value <= max,
        decreases n - i,
    {
        let c = s.get_char(i);
        let ghost before = body.take(i - start);
        let ghost after = body.take(i - start + 1);
        assert(after.drop_last() =~= before);
        assert(body[i - start] == c);
        if c < '0' || c > '9' {
            assert(!is_digit(body[i - start]));
            assert(!(forall|k: int| 0 <= k < body.len() ==> is_digit(#[trigger] body[k])));
            return None;
        }
        let next = value * 10 + (c as u32 - '0' as u32) as u128;
        if next > max as u128 {
            proof {
                assert forall|k: int| 0 <= k < i - start + 1 implies is_digit(#[trigger] body[k])
                    by {
                    if k == i - start {
                        assert(body[k] == c);
                    }
                }
                assert(after.last() == c);
                assert(digits_value(after) == next);
                if forall|k: int| 0 <= k < body.len() ==> is_digit(#[trigger] body[k]) {
                    lemma_digits_grow(body, i - start + 1);
                }
            }
            return None;
        }
        value = next;
        i = i + 1;
    }
    assert(body.take(n - start) =~= body);
    Some(value as u64)
}

} // verus!
