//! Dotted-decimal text of an IPv4 address.

use vstd::prelude::*;

verus! {

/// The decimal digits of `n` as characters, most significant first, without
/// leading zeros.
pub open spec fn decimal_text(n: nat) -> Seq<char>
    decreases n,
{
    if n < 10 {
        seq![(48 + n) as char]
    } else {
        decimal_text(n / 10) + seq![(48 + n % 10) as char]
    }
}

/// The dotted-decimal text of the address whose four octets are `b`.
pub open spec fn ipv4_text(b: Seq<u8>) -> Seq<char> {
    decimal_text(b[0] as nat) + seq!['.'] + decimal_text(b[1] as nat) + seq!['.'] + decimal_text(
        b[2] as nat,
    ) + seq!['.'] + decimal_text(b[3] as nat)
}

/// Appends the digit `d`.
fn append_digit(s: &mut String, d: u8)
    requires
        d < 10,
    ensures
        final(s)@ == old(s)@ + seq![(48 + d) as char],
{
    if d == 0 {
        proof {
            reveal_strlit("0");
        }
        s.append("0");
    } else if d == 1 {
        proof {
            reveal_strlit("1");
        }
        s.append("1");
    } else if d == 2 {
        proof {
            reveal_strlit("2");
        }
        s.append("2");
    } else if d == 3 {
        proof {
            reveal_strlit("3");
        }
        s.append("3");
    } else if d == 4 {
        proof {
            reveal_strlit("4");
        }
        s.append("4");
    } else if d == 5 {
        proof {
            reveal_strlit("5");
        }
        s.append("5");
    } else if d == 6 {
        proof {
            reveal_strlit("6");
        }
        s.append("6");
    } else if d == 7 {
        proof {
            reveal_strlit("7");
        }
        s.append("7");
    } else if d == 8 {
        proof {
            reveal_strlit("8");
        }
        s.append("8");
    } else {
        proof {
            reveal_strlit("9");
        }
        s.append("9");
    }
}

/// Appends the decimal digits of `n`.
fn append_decimal(s: &mut String, n: u8)
    ensures
        final(s)@ == old(s)@ + decimal_text(n as nat),
{
    let ghost s0 = s@;
    if n >= 100 {
        append_digit(s, n / 100);
    }
    let ghost s1 = s@;
    if n >= 10 {
        append_digit(s, (n / 10) % 10);
    }
    let ghost s2 = s@;
    append_digit(s, n % 10);
    proof {
        let c = (48 + n % 10) as char;
        assert(n >= 10 ==> decimal_text(n as nat) == decimal_text((n / 10) as nat) + seq![c]);
        if n >= 100 {
            let t = (n / 10) as nat;
            assert(decimal_text(t) == decimal_text(t / 10) + seq![(48 + t % 10) as char]);
            assert(decimal_text((n / 100) as nat) == seq![(48 + n / 100) as char]);
            assert(s2 =~= s0 + decimal_text(t));
        } else if n >= 10 {
            assert(decimal_text((n / 10) as nat) == seq![(48 + n / 10) as char]);
            assert(s2 =~= s0 + decimal_text((n / 10) as nat));
        }
    }
    assert(s@ =~= old(s)@ + decimal_text(n as nat));
}

/// Appends a dot.
fn append_dot(s: &mut String)
    ensures
        final(s)@ == old(s)@ + seq!['.'],
{
    proof {
        reveal_strlit(".");
    }
    s.append(".");
}

/// The dotted-decimal text of the address with octets `b`, as
/// `Ipv4Addr::new(b[0], b[1], b[2], b[3]).to_string()` writes it.
pub fn bytes_to_ip(b: &[u8; 4]) -> (r: String)
    ensures
        r@ == ipv4_text(b@),
{
    let mut s = String::new();
    append_decimal(&mut s, b[0]);
    append_dot(&mut s);
    append_decimal(&mut s, b[1]);
    append_dot(&mut s);
    append_decimal(&mut s, b[2]);
    append_dot(&mut s);
    append_decimal(&mut s, b[3]);
    assert(s@ =~= ipv4_text(b@));
    s
}

} // verus!
