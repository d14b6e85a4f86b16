use vstd::prelude::*;

use vstd::arithmetic::div_mod::lemma_fundamental_div_mod;

verus! {

/// The character for the decimal digit `d`.
pub open spec fn digit_char(d: int) -> char {
    if d == 0 {
        '0'
    } else if d == 1 {
        '1'
    } else if d == 2 {
        '2'
    } else if d == 3 {
        '3'
    } else if d == 4 {
        '4'
    } else if d == 5 {
        '5'
    } else if d == 6 {
        '6'
    } else if d == 7 {
        '7'
    } else if d == 8 {
        '8'
    } else {
        '9'
    }
}

/// The decimal digits of a nonnegative `n`, most significant first.
pub open spec fn spec_decimal(n: int) -> Seq<char>
    decreases n,
{
    if n < 10 {
        seq![digit_char(n)]
    } else {
        spec_decimal(n / 10).push(digit_char(n % 10))
    }
}

/// Integer division truncating toward zero (`b > 0`), as the duration
/// arithmetic uses it.
pub open spec fn trunc_div(a: int, b: int) -> int {
    if a >= 0 {
        a / b
    } else {
        -((-a) / b)
    }
}

/// Remainder of truncating division: its sign follows the dividend.
pub open spec fn trunc_rem(a: int, b: int) -> int {
    a - b * trunc_div(a, b)
}

/// One rendered component of a duration: its decimal digits, a leading
/// minus exactly when the component's own truncated value is negative,
/// and — for the padded minute component — a leading zero bringing a
/// single digit up to width two.
pub open spec fn component_text(v: int, pad: bool) -> Seq<char> {
    if v < 0 {
        seq!['-'] + spec_decimal(-v)
    } else if pad && v < 10 {
        seq!['0'] + spec_decimal(v)
    } else {
        spec_decimal(v)
    }
}

/// A duration in milliseconds rendered as H:MM — whole hours without
/// zero-padding, then minutes within the hour zero-padded to two digits.
/// Seconds are discarded (truncated, not rounded), and both divisions
/// truncate toward zero, so negative durations carry the sign on each
/// nonzero component.
pub open spec fn spec_format_duration(ms: int) -> Seq<char> {
    component_text(trunc_div(ms, 3600000), false) + seq![':'] + component_text(
        trunc_rem(trunc_div(ms, 60000), 60),
        true,
    )
}

fn digit_str(d: u64) -> (r: &'static str)
    requires
        d < 10,
    ensures
        r@ == seq![digit_char(d as int)],
{
    proof {
        reveal_strlit("0");
        reveal_strlit("1");
        reveal_strlit("2");
        reveal_strlit("3");
        reveal_strlit("4");
        reveal_strlit("5");
        reveal_strlit("6");
        reveal_strlit("7");
        reveal_strlit("8");
        reveal_strlit("9");
    }
    let r: &'static str = if d == 0 {
        "0"
    } else if d == 1 {
        "1"
    } else if d == 2 {
        "2"
    } else if d == 3 {
        "3"
    } else if d == 4 {
        "4"
    } else if d == 5 {
        "5"
    } else if d == 6 {
        "6"
    } else if d == 7 {
        "7"
    } else if d == 8 {
        "8"
    } else {
        "9"
    };
    proof {
        assert(r@ =~= seq![digit_char(d as int)]);
    }
    r
}

/// The digits of a digit sequence read back to front.
spec fn rev_digit_chars(d: Seq<u64>) -> Seq<char> {
    Seq::new(d.len(), |i: int| digit_char(d[d.len() - 1 - i] as int))
}

/// `n` written in decimal.
pub fn decimal_string(n: u64) -> (s: String)
    ensures
        s@ == spec_decimal(n as int),
{
    let mut low: Vec<u64> = Vec::new();
    let mut cur: u64 = n;
    while cur >= 10
        invariant
            spec_decimal(n as int) == spec_decimal(cur as int) + rev_digit_chars(low@),
            forall|j: int| 0 <= j < low@.len() ==> #[trigger] low@[j] < 10,
        decreases cur,
    {
        let d = cur % 10;
        low.push(d);
        proof {
            assert(rev_digit_chars(low@) =~= seq![digit_char(d as int)] + rev_digit_chars(
                low@.drop_last(),
            ));
            assert(spec_decimal(cur as int) == spec_decimal(cur as int / 10).push(
                digit_char(cur as int % 10),
            ));
            assert(spec_decimal(cur as int) + rev_digit_chars(low@.drop_last()) =~= spec_decimal(
                (cur / 10) as int,
            ) + rev_digit_chars(low@));
        }
        cur = cur / 10;
    }
    let ghost full = spec_decimal(n as int);
    proof {
        assert(full.len() == 1 + low@.len());
        assert(full[0] == digit_char(cur as int));
    }
    let mut s = String::new();
    s.append(digit_str(cur));
    proof {
        assert(s@ =~= full.take(1));
    }
    let count = low.len();
    let mut j: usize = 0;
    while j < count
        invariant
            0 <= j <= count,
            count == low@.len(),
            full == spec_decimal(n as int),
            full.len() == 1 + count,
            forall|k: int| 0 <= k < low@.len() ==> #[trigger] low@[k] < 10,
            forall|k: int|
                0 <= k < count ==> #[trigger] full[1 + k] == digit_char(low@[count - 1 - k] as int),
            s@ == full.take(1 + j),
        decreases count - j,
    {
        s.append(digit_str(low[count - 1 - j]));
        proof {
            assert(s@ =~= full.take(1 + j + 1));
        }
        j += 1;
    }
    proof {
        assert(full.take(1 + count as int) =~= full);
    }
    s
}

/// Render `ms` milliseconds as H:MM, as `spec_format_duration` states.
pub fn format_duration(ms: i64) -> (s: String)
    ensures
        s@ == spec_format_duration(ms as int),
{
    let neg = ms < 0;
    let mag: u64 = if ms >= 0 {
        ms as u64
    } else {
        (-(ms as i128)) as u64
    };
    let hu: u64 = mag / 3600000;
    let mmu: u64 = (mag / 60000) % 60;
    let ghost h = trunc_div(ms as int, 3600000);
    let ghost mm = trunc_rem(trunc_div(ms as int, 60000), 60);
    proof {
        let x = mag as int / 60000;
        lemma_fundamental_div_mod(x, 60);
        assert(h == if neg {
            -(hu as int)
        } else {
            hu as int
        });
        assert(mm == if neg {
            -(mmu as int)
        } else {
            mmu as int
        });
    }
    let mut s = String::new();
    if neg && hu > 0 {
        s.append("-");
        proof {
            reveal_strlit("-");
        }
    }
    let hs = decimal_string(hu);
    s.append(hs.as_str());
    proof {
        assert(s@ =~= component_text(h, false));
    }
    s.append(":");
    proof {
        reveal_strlit(":");
        assert(s@ =~= component_text(h, false) + seq![':']);
    }
    if neg && mmu > 0 {
        s.append("-");
        proof {
            reveal_strlit("-");
        }
    } else if mmu < 10 {
        s.append("0");
        proof {
            reveal_strlit("0");
        }
    }
    let ms_str = decimal_string(mmu);
    s.append(ms_str.as_str());
    proof {
        assert(s@ =~= component_text(h, false) + seq![':'] + component_text(mm, true));
    }
    s
}

} // verus!
