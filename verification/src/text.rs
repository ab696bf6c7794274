// Decimal and hexadecimal rendering of numbers, for messages and reports.
use vstd::prelude::*;
use vstd::string::StringExecFns;

verus! {

/// The digits of `n` in base `b`, most significant first.
pub open spec fn digits(n: nat, b: nat) -> Seq<nat>
    decreases n,
{
    if b < 2 || n < b {
        seq![n]
    } else {
        proof {
            assert(n / b < n) by (nonlinear_arith)
                requires
                    b >= 2,
                    n >= b,
            ;
        }
        digits(n / b, b).push(n % b)
    }
}

/// The character of a digit value below 16 (lower-case letters unless `upper`).
pub open spec fn digit_char(d: nat, upper: bool) -> char {
    if d < 10 {
        ((48 + d) as u8) as char
    } else if upper {
        ((55 + d) as u8) as char
    } else {
        ((87 + d) as u8) as char
    }
}

/// `n` written in base `b` with at least `width` digits (zero padded).
pub open spec fn numeral(n: nat, b: nat, width: nat, upper: bool) -> Seq<char> {
    let ds = digits(n, b).map_values(|d: nat| digit_char(d, upper));
    if ds.len() >= width {
        ds
    } else {
        Seq::new((width - ds.len()) as nat, |i: int| '0') + ds
    }
}

/// Decimal text of `n`.
pub open spec fn decimal(n: nat) -> Seq<char> {
    numeral(n, 10, 0, false)
}

/// Lower-case hexadecimal text of `n`, as `{:x}` writes it.
pub open spec fn hex_lower(n: nat) -> Seq<char> {
    numeral(n, 16, 0, false)
}

/// Upper-case hexadecimal text of `n`, as `{:X}` writes it.
pub open spec fn hex_upper(n: nat) -> Seq<char> {
    numeral(n, 16, 0, true)
}

fn digit_str(d: u64, upper: bool) -> (r: &'static str)
    requires
        d < 16,
    ensures
        r@ == seq![digit_char(d as nat, upper)],
{
    proof {
        reveal_strlit("0");
        reveal_strlit("1");
        reveal_strlit("2");
        reveal_strlit("3");
        reveal_strlit("4");
        reveal_strlit("5");
        reveal_strlit("6");
        reveal_strlit("7");
        reveal_strlit("8");
        reveal_strlit("9");
        reveal_strlit("a");
        reveal_strlit("b");
        reveal_strlit("c");
        reveal_strlit("d");
        reveal_strlit("e");
        reveal_strlit("f");
        reveal_strlit("A");
        reveal_strlit("B");
        reveal_strlit("C");
        reveal_strlit("D");
        reveal_strlit("E");
        reveal_strlit("F");
    }
    if d == 0 {
        "0"
    } else if d == 1 {
        "1"
    } else if d == 2 {
        "2"
    } else if d == 3 {
        "3"
    } else if d == 4 {
        "4"
    } else if d == 5 {
        "5"
    } else if d == 6 {
        "6"
    } else if d == 7 {
        "7"
    } else if d == 8 {
        "8"
    } else if d == 9 {
        "9"
    } else if upper {
        if d == 10 {
            "A"
        } else if d == 11 {
            "B"
        } else if d == 12 {
            "C"
        } else if d == 13 {
            "D"
        } else if d == 14 {
            "E"
        } else {
            "F"
        }
    } else {
        if d == 10 {
            "a"
        } else if d == 11 {
            "b"
        } else if d == 12 {
            "c"
        } else if d == 13 {
            "d"
        } else if d == 14 {
            "e"
        } else {
            "f"
        }
    }
}

/// Digit values of `n`, most significant first.
fn digit_values(n: u64, b: u64) -> (r: Vec<u64>)
    requires
        2 <= b <= 16,
    ensures
        r@.map_values(|d: u64| d as nat) == digits(n as nat, b as nat),
        forall|i: int| 0 <= i < r@.len() ==> r@[i] < b,
    decreases n,
{
    if n < b {
        let mut v = Vec::new();
        v.push(n);
        assert(v@.map_values(|d: u64| d as nat) =~= seq![n as nat]);
        v
    } else {
        assert(n / b < n) by (nonlinear_arith)
            requires
                b >= 2,
                n >= b,
        ;
        let mut v = digit_values(n / b, b);
        let ghost before = v@;
        v.push(n % b);
        assert(v@.map_values(|d: u64| d as nat) =~= before.map_values(|d: u64| d as nat).push(
            (n % b) as nat,
        ));
        v
    }
}

/// Appends `n` in base `b` with at least `width` digits to `out`.
pub fn push_numeral(out: &mut String, n: u64, b: u64, width: usize, upper: bool)
    requires
        2 <= b <= 16,
    ensures
        final(out)@ == old(out)@ + numeral(n as nat, b as nat, width as nat, upper),
{
    let ds = digit_values(n, b);
    let ghost chars = digits(n as nat, b as nat).map_values(|d: nat| digit_char(d, upper));
    assert(chars.len() == ds@.len());
    let mut pad: usize = 0;
    let padding: usize = if ds.len() >= width {
        0
    } else {
        width - ds.len()
    };
    while pad < padding
        invariant
            pad <= padding,
            out@ == old(out)@ + Seq::new(pad as nat, |i: int| '0'),
        decreases padding - pad,
    {
        proof {
            reveal_strlit("0");
        }
        out.append("0");
        pad = pad + 1;
        assert(out@ =~= old(out)@ + Seq::new(pad as nat, |i: int| '0'));
    }
    let ghost padded = out@;
    let mut i: usize = 0;
    while i < ds.len()
        invariant
            i <= ds@.len(),
            ds@.len() == chars.len(),
            b <= 16,
            forall|k: int| 0 <= k < ds@.len() ==> ds@[k] < b,
            forall|k: int|
                0 <= k < ds@.len() ==> chars[k] == digit_char(ds@[k] as nat, upper),
            out@ == padded + chars.subrange(0, i as int),
        decreases ds@.len() - i,
    {
        let s = digit_str(ds[i], upper);
        out.append(s);
        i = i + 1;
        assert(out@ =~= padded + chars.subrange(0, i as int));
    }
    assert(chars.subrange(0, chars.len() as int) =~= chars);
    assert(out@ =~= old(out)@ + numeral(n as nat, b as nat, width as nat, upper));
}

/// Decimal text of `n`, as `{}` writes it.
pub fn decimal_string(n: u64) -> (r: String)
    ensures
        r@ == decimal(n as nat),
{
    let mut s = String::new();
    push_numeral(&mut s, n, 10, 0, false);
    s
}

/// Lower-case hexadecimal text of `n`, as `{:x}` writes it.
pub fn hex_string(n: u64) -> (r: String)
    ensures
        r@ == hex_lower(n as nat),
{
    let mut s = String::new();
    push_numeral(&mut s, n, 16, 0, false);
    s
}

} // verus!
