use vstd::prelude::*;

verus! {

/// The character of a digit below sixteen, lower-case.
pub open spec fn digit_char(d: nat) -> char {
    if d < 10 {
        (('0' as nat) + d) as char
    } else {
        (('a' as nat) + (d - 10)) as char
    }
}

/// `n` written in base `b` (2 to 16) with no leading zeros; zero is "0".
pub open spec fn digits_in_base(n: nat, b: nat) -> Seq<char>
    decreases n
    via digits_in_base_decreases
{
    if b < 2 || n < b {
        seq![digit_char(n % 16)]
    } else {
        digits_in_base(n / b, b) + seq![digit_char(n % b)]
    }
}

#[via_fn]
proof fn digits_in_base_decreases(n: nat, b: nat) {
    if !(b < 2 || n < b) {
        assert(n / b < n) by (nonlinear_arith)
            requires
                b >= 2,
                n >= b,
        ;
    }
}

/// The last `width` hexadecimal digits of `n`, zeros in front.
pub open spec fn hex_padded(n: nat, width: nat) -> Seq<char>
    decreases width,
{
    if width == 0 {
        Seq::empty()
    } else {
        hex_padded(n / 16, (width - 1) as nat) + seq![digit_char(n % 16)]
    }
}

/// `p` is a prefix of `s`.
pub open spec fn has_prefix(s: Seq<char>, p: Seq<char>) -> bool {
    p.len() <= s.len() && s.subrange(0, p.len() as int) == p
}

/// A one-character string holding the digit `d`.
pub fn digit_str(d: u64) -> (r: &'static str)
    requires
        d < 16,
    ensures
        r@ == seq![digit_char(d as nat)],
{
    let r = match d {
        0 => "0",
        1 => "1",
        2 => "2",
        3 => "3",
        4 => "4",
        5 => "5",
        6 => "6",
        7 => "7",
        8 => "8",
        9 => "9",
        10 => "a",
        11 => "b",
        12 => "c",
        13 => "d",
        14 => "e",
        _ => "f",
    };
    proof {
        reveal_strlit("0");
        reveal_strlit("1");
        reveal_strlit("2");
        reveal_strlit("3");
        reveal_strlit("4");
        reveal_strlit("5");
        reveal_strlit("6");
        reveal_strlit("7");
        reveal_strlit("8");
        reveal_strlit("9");
        reveal_strlit("a");
        reveal_strlit("b");
        reveal_strlit("c");
        reveal_strlit("d");
        reveal_strlit("e");
        reveal_strlit("f");
        assert(r@ =~= seq![digit_char(d as nat)]);
    }
    r
}

/// Appends `n` in base `b` to `out`.
pub fn append_digits(out: &mut String, n: u128, b: u128)
    requires
        2 <= b <= 16,
    ensures
        final(out)@ == old(out)@ + digits_in_base(n as nat, b as nat),
    decreases n,
{
    if n >= b {
        assert(n / b < n) by (nonlinear_arith)
            requires
                b >= 2,
                n >= b,
        ;
        append_digits(out, n / b, b);
    }
    let ghost before = out@;
    let d = (n % b) as u64;
    out.append(digit_str(d));
    proof {
        let dn = (n % b) as nat;
        assert(dn % 16 == dn);
        if n < b {
            assert(n as nat % b as nat == n as nat) by (nonlinear_arith)
                requires
                    n < b,
            ;
            assert(n as nat % 16 == n as nat);
            assert(before == old(out)@);
        } else {
            assert(before == old(out)@ + digits_in_base((n / b) as nat, b as nat));
        }
        assert(out@ =~= old(out)@ + digits_in_base(n as nat, b as nat));
    }
}

/// `n` in decimal.
pub fn decimal_string(n: u128) -> (r: String)
    ensures
        r@ == digits_in_base(n as nat, 10),
{
    let mut s = String::new();
    append_digits(&mut s, n, 10);
    assert(s@ =~= digits_in_base(n as nat, 10));
    s
}

/// Appends the last `width` hexadecimal digits of `n` to `out`.
pub fn append_hex_padded(out: &mut String, n: u128, width: u32)
    ensures
        final(out)@ == old(out)@ + hex_padded(n as nat, width as nat),
    decreases width,
{
    if width > 0 {
        append_hex_padded(out, n / 16, width - 1);
        out.append(digit_str((n % 16) as u64));
        assert(out@ =~= old(out)@ + hex_padded(n as nat, width as nat));
    } else {
        assert(out@ =~= old(out)@ + hex_padded(n as nat, width as nat));
    }
}

/// Whether `s` begins with `p`.
pub fn starts_with(s: &str, p: &str) -> (r: bool)
    ensures
        r == has_prefix(s@, p@),
{
    let pl = p.unicode_len();
    let sl = s.unicode_len();
    if pl > sl {
        return false;
    }
    let mut i: usize = 0;
    while i < pl
        invariant
            pl == p@.len(),
            sl == s@.len(),
            pl <= sl,
            i <= pl,
            forall|j: int| 0 <= j < i ==> s@[j] == p@[j],
        decreases pl - i,
    {
        if s.get_char(i) != p.get_char(i) {
            assert(s@.subrange(0, p@.len() as int)[i as int] != p@[i as int]);
            return false;
        }
        i = i + 1;
    }
    assert(s@.subrange(0, p@.len() as int) =~= p@);
    true
}

} // verus!
