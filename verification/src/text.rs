use vstd::prelude::*;

verus! {

/// Relies on `String::push`: appends exactly the given character.
pub assume_specification[ std::string::String::push ](s: &mut String, c: char)
    ensures
        final(s)@ == old(s)@.push(c),
;

/// The character for one decimal digit.
pub open spec fn digit_char(d: nat) -> char {
    if d == 0 {
        '0'
    } else if d == 1 {
        '1'
    } else if d == 2 {
        '2'
    } else if d == 3 {
        '3'
    } else if d == 4 {
        '4'
    } else if d == 5 {
        '5'
    } else if d == 6 {
        '6'
    } else if d == 7 {
        '7'
    } else if d == 8 {
        '8'
    } else {
        '9'
    }
}

/// The decimal digits of a non-negative number, most significant first,
/// with no leading zeros (except for the number zero itself).
pub open spec fn dec_digits(n: nat) -> Seq<char>
    decreases n,
{
    if n < 10 {
        seq![digit_char(n)]
    } else {
        dec_digits(n / 10).push(digit_char(n % 10))
    }
}

/// The displayed form of an integer: decimal, with a leading minus sign
/// when negative.
pub open spec fn int_text(n: int) -> Seq<char> {
    if n < 0 {
        seq!['-'] + dec_digits((-n) as nat)
    } else {
        dec_digits(n as nat)
    }
}

/// The displayed form of a boolean.
pub open spec fn bool_text(b: bool) -> Seq<char> {
    if b {
        "true"@
    } else {
        "false"@
    }
}

/// The displayed form of the unit value.
pub open spec fn unit_text() -> Seq<char> {
    "()"@
}

fn push_digit(s: &mut String, d: u64)
    requires
        d < 10,
    ensures
        final(s)@ == old(s)@.push(digit_char(d as nat)),
{
    if d == 0 {
        s.push('0')
    } else if d == 1 {
        s.push('1')
    } else if d == 2 {
        s.push('2')
    } else if d == 3 {
        s.push('3')
    } else if d == 4 {
        s.push('4')
    } else if d == 5 {
        s.push('5')
    } else if d == 6 {
        s.push('6')
    } else if d == 7 {
        s.push('7')
    } else if d == 8 {
        s.push('8')
    } else {
        s.push('9')
    }
}

/// Appends the decimal digits of `n` to `s`.
pub fn push_u64_decimal(s: &mut String, n: u64)
    ensures
        final(s)@ == old(s)@ + dec_digits(n as nat),
    decreases n,
{
    if n < 10 {
        push_digit(s, n);
        proof {
            assert(old(s)@ + dec_digits(n as nat) =~= old(s)@.push(digit_char(n as nat)));
        }
    } else {
        let ghost mid = old(s)@ + dec_digits((n / 10) as nat);
        push_u64_decimal(s, n / 10);
        push_digit(s, n % 10);
        proof {
            assert(old(s)@ + dec_digits(n as nat) =~= mid.push(digit_char((n % 10) as nat)));
        }
    }
}

/// The decimal text of a 64-bit signed integer, exactly as `writeln` shows it.
pub fn int_to_text(n: i64) -> (r: String)
    ensures
        r@ == int_text(n as int),
{
    let mut s = String::new();
    if n < 0 {
        s.push('-');
        let m: u64 = if n == i64::MIN {
            9223372036854775808u64
        } else {
            (-n) as u64
        };
        push_u64_decimal(&mut s, m);
        proof {
            assert(int_text(n as int) =~= Seq::<char>::empty().push('-') + dec_digits(
                (-(n as int)) as nat,
            ));
        }
    } else {
        push_u64_decimal(&mut s, n as u64);
        proof {
            assert(Seq::<char>::empty() + dec_digits(n as nat) =~= dec_digits(n as nat));
        }
    }
    s
}

/// The text of a boolean, exactly as `writeln` shows it.
pub fn bool_to_text(b: bool) -> (r: String)
    ensures
        r@ == bool_text(b),
{
    if b {
        String::from_str("true")
    } else {
        String::from_str("false")
    }
}

/// The text of the unit value, exactly as `writeln` shows it.
pub fn unit_to_text() -> (r: String)
    ensures
        r@ == unit_text(),
{
    String::from_str("()")
}

} // verus!
