//! Text rendering of numbers and lists for reports and file names.

use vstd::prelude::*;

verus! {

/// Lower-case hexadecimal digit for `d` in `0..16`.
pub open spec fn hex_char(d: int) -> char {
    if d == 0 {
        '0'
    } else if d == 1 {
        '1'
    } else if d == 2 {
        '2'
    } else if d == 3 {
        '3'
    } else if d == 4 {
        '4'
    } else if d == 5 {
        '5'
    } else if d == 6 {
        '6'
    } else if d == 7 {
        '7'
    } else if d == 8 {
        '8'
    } else if d == 9 {
        '9'
    } else if d == 10 {
        'a'
    } else if d == 11 {
        'b'
    } else if d == 12 {
        'c'
    } else if d == 13 {
        'd'
    } else if d == 14 {
        'e'
    } else {
        'f'
    }
}

/// Decimal digits of `n`, most significant first, without leading zeros.
pub open spec fn spec_decimal(n: nat) -> Seq<char>
    decreases n,
{
    if n < 10 {
        seq![hex_char(n as int)]
    } else {
        spec_decimal(n / 10) + seq![hex_char((n % 10) as int)]
    }
}

/// The last `width` hexadecimal digits of `n`, zero-padded, most significant
/// first.
pub open spec fn spec_hex_fixed(n: nat, width: nat) -> Seq<char>
    decreases width,
{
    if width == 0 {
        Seq::empty()
    } else {
        spec_hex_fixed(n / 16, (width - 1) as nat) + seq![hex_char((n % 16) as int)]
    }
}

/// The decimals of `items` separated by `", "`.
pub open spec fn spec_joined(items: Seq<usize>) -> Seq<char>
    decreases items.len(),
{
    if items.len() == 0 {
        Seq::empty()
    } else if items.len() == 1 {
        spec_decimal(items[0] as nat)
    } else {
        spec_joined(items.drop_last()) + ", "@ + spec_decimal(items.last() as nat)
    }
}

/// A list of integers as `[a, b, c]`.
pub open spec fn spec_list(items: Seq<usize>) -> Seq<char> {
    "["@ + spec_joined(items) + "]"@
}

/// The one-character string of digit `d`.
fn digit_str(d: u64) -> (r: &'static str)
    requires
        d < 16,
    ensures
        r@ == seq![hex_char(d as int)],
{
    match d {
        0 => {
            proof {
                reveal_strlit("0");
            }
            "0"
        },
        1 => {
            proof {
                reveal_strlit("1");
            }
            "1"
        },
        2 => {
            proof {
                reveal_strlit("2");
            }
            "2"
        },
        3 => {
            proof {
                reveal_strlit("3");
            }
            "3"
        },
        4 => {
            proof {
                reveal_strlit("4");
            }
            "4"
        },
        5 => {
            proof {
                reveal_strlit("5");
            }
            "5"
        },
        6 => {
            proof {
                reveal_strlit("6");
            }
            "6"
        },
        7 => {
            proof {
                reveal_strlit("7");
            }
            "7"
        },
        8 => {
            proof {
                reveal_strlit("8");
            }
            "8"
        },
        9 => {
            proof {
                reveal_strlit("9");
            }
            "9"
        },
        10 => {
            proof {
                reveal_strlit("a");
            }
            "a"
        },
        11 => {
            proof {
                reveal_strlit("b");
            }
            "b"
        },
        12 => {
            proof {
                reveal_strlit("c");
            }
            "c"
        },
        13 => {
            proof {
                reveal_strlit("d");
            }
            "d"
        },
        14 => {
            proof {
                reveal_strlit("e");
            }
            "e"
        },
        _ => {
            proof {
                reveal_strlit("f");
            }
            "f"
        },
    }
}

/// Appends the decimal digits of `n` to `out`.
pub fn push_decimal(out: &mut String, n: u64)
    ensures
        final(out)@ == old(out)@ + spec_decimal(n as nat),
    decreases n,
{
    if n >= 10 {
        push_decimal(out, n / 10);
    }
    out.append(digit_str(n % 10));
    proof {
        if n < 10 {
            assert(n % 10 == n);
        }
    }
}

/// Appends the last `width` hexadecimal digits of `n`, zero-padded.
pub fn push_hex_fixed(out: &mut String, n: u64, width: u32)
    ensures
        final(out)@ == old(out)@ + spec_hex_fixed(n as nat, width as nat),
    decreases width,
{
    if width == 0 {
        proof {
            assert(old(out)@ + Seq::<char>::empty() =~= old(out)@);
        }
        return;
    }
    push_hex_fixed(out, n / 16, width - 1);
    out.append(digit_str(n % 16));
}

/// Appends `items` as `[a, b, c]`.
pub fn push_list(out: &mut String, items: &[usize])
    ensures
        final(out)@ == old(out)@ + spec_list(items@),
{
    let ghost start = out@;
    out.append("[");
    let mut i: usize = 0;
    while i < items.len()
        invariant
            i <= items@.len(),
            out@ == start + "["@ + spec_joined(items@.take(i as int)),
        decreases items@.len() - i,
    {
        proof {
            assert(items@.take(i + 1).drop_last() =~= items@.take(i as int));
            assert(items@.take(i + 1).last() == items@[i as int]);
        }
        if i > 0 {
            out.append(", ");
        }
        push_decimal(out, items[i] as u64);
        proof {
            if i == 0 {
                assert(spec_joined(items@.take(0)) =~= Seq::<char>::empty());
            }
            assert(out@ =~= start + "["@ + spec_joined(items@.take(i + 1)));
        }
        i = i + 1;
    }
    out.append("]");
    proof {
        assert(items@.take(items@.len() as int) =~= items@);
        assert(out@ =~= old(out)@ + spec_list(items@));
    }
}

} // verus!
