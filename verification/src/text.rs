use vstd::prelude::*;
use vstd::string::StringExecFns;

verus! {

/// The character of the decimal digit `d`.
pub open spec fn digit_char(d: nat) -> char {
    if d == 0 {
        '0'
    } else if d == 1 {
        '1'
    } else if d == 2 {
        '2'
    } else if d == 3 {
        '3'
    } else if d == 4 {
        '4'
    } else if d == 5 {
        '5'
    } else if d == 6 {
        '6'
    } else if d == 7 {
        '7'
    } else if d == 8 {
        '8'
    } else {
        '9'
    }
}

/// The decimal digits of `n`, most significant first, without leading zeros.
pub open spec fn dec_nat(n: nat) -> Seq<char>
    decreases n,
{
    if n < 10 {
        seq![digit_char(n)]
    } else {
        dec_nat(n / 10).push(digit_char(n % 10))
    }
}

/// `x` written in decimal, with a leading '-' when negative: what `{}`
/// prints for an integer.
pub open spec fn dec_int(x: int) -> Seq<char> {
    if x < 0 {
        seq!['-'] + dec_nat((-x) as nat)
    } else {
        dec_nat(x as nat)
    }
}

/// `n` in decimal, padded on the left with zeros to at least four digits:
/// what `{:04}` prints.
pub open spec fn dec_pad4(n: nat) -> Seq<char> {
    let d = dec_nat(n);
    if d.len() < 4 {
        Seq::new((4 - d.len()) as nat, |i: int| '0') + d
    } else {
        d
    }
}

/// Every character is a decimal digit.
pub open spec fn all_digits(s: Seq<char>) -> bool {
    forall|i: int| 0 <= i < s.len() ==> '0' <= #[trigger] s[i] <= '9'
}

/// The decimal form of a number is at least one digit long and is made of
/// digits.
pub proof fn lemma_dec_nat_digits(n: nat)
    ensures
        dec_nat(n).len() >= 1,
        all_digits(dec_nat(n)),
    decreases n,
{
    if n >= 10 {
        lemma_dec_nat_digits(n / 10);
    }
}

/// Numbers of four digits, 1000 to 9999, are printed with exactly four
/// digits and no padding.
pub proof fn lemma_dec_four_digits(n: nat)
    requires
        1000 <= n <= 9999,
    ensures
        dec_nat(n).len() == 4,
        dec_pad4(n) == dec_nat(n),
{
    reveal_with_fuel(dec_nat, 5);
}

/// The one-character string of the digit `d`.
fn digit_str(d: u64) -> (s: &'static str)
    requires
        d < 10,
    ensures
        s@ == seq![digit_char(d as nat)],
{
    proof {
        reveal_strlit("0");
        reveal_strlit("1");
        reveal_strlit("2");
        reveal_strlit("3");
        reveal_strlit("4");
        reveal_strlit("5");
        reveal_strlit("6");
        reveal_strlit("7");
        reveal_strlit("8");
        reveal_strlit("9");
    }
    if d == 0 {
        "0"
    } else if d == 1 {
        "1"
    } else if d == 2 {
        "2"
    } else if d == 3 {
        "3"
    } else if d == 4 {
        "4"
    } else if d == 5 {
        "5"
    } else if d == 6 {
        "6"
    } else if d == 7 {
        "7"
    } else if d == 8 {
        "8"
    } else {
        "9"
    }
}

/// `n` in decimal.
pub fn fmt_u64(n: u64) -> (s: String)
    ensures
        s@ == dec_nat(n as nat),
    decreases n,
{
    if n < 10 {
        String::from_str(digit_str(n))
    } else {
        let mut s = fmt_u64(n / 10);
        s.append(digit_str(n % 10));
        s
    }
}

/// `x` in decimal, as `{}` prints it.
pub fn fmt_i64(x: i64) -> (s: String)
    ensures
        s@ == dec_int(x as int),
{
    if x < 0 {
        let mag: u64 = (0i128 - (x as i128)) as u64;
        let digits = fmt_u64(mag);
        proof {
            reveal_strlit("-");
        }
        String::from_str("-").concat(digits.as_str())
    } else {
        fmt_u64(x as u64)
    }
}

/// `n` in decimal padded with zeros to four digits, as `{:04}` prints it.
pub fn fmt_pad4(n: u16) -> (s: String)
    ensures
        s@ == dec_pad4(n as nat),
{
    let d = fmt_u64(n as u64);
    let len = d.as_str().unicode_len();
    if len < 4 {
        let mut s = String::new();
        let mut i: usize = len;
        while i < 4
            invariant
                len <= i <= 4,
                s@ == Seq::new((i - len) as nat, |k: int| '0'),
            decreases 4 - i,
        {
            proof {
                reveal_strlit("0");
            }
            s.append("0");
            assert(s@ =~= Seq::new((i + 1 - len) as nat, |k: int| '0'));
            i = i + 1;
        }
        s.concat(d.as_str())
    } else {
        d
    }
}

/// The concatenation of two strings.
pub fn cat2(a: &str, b: &str) -> (s: String)
    ensures
        s@ == a@ + b@,
{
    String::from_str(a).concat(b)
}

/// The concatenation of three strings.
pub fn cat3(a: &str, b: &str, c: &str) -> (s: String)
    ensures
        s@ == a@ + b@ + c@,
{
    String::from_str(a).concat(b).concat(c)
}

/// The concatenation of four strings.
pub fn cat4(a: &str, b: &str, c: &str, d: &str) -> (s: String)
    ensures
        s@ == a@ + b@ + c@ + d@,
{
    String::from_str(a).concat(b).concat(c).concat(d)
}

/// The concatenation of five strings.
pub fn cat5(a: &str, b: &str, c: &str, d: &str, e: &str) -> (s: String)
    ensures
        s@ == a@ + b@ + c@ + d@ + e@,
{
    String::from_str(a).concat(b).concat(c).concat(d).concat(e)
}

/// The concatenation of six strings.
pub fn cat6(a: &str, b: &str, c: &str, d: &str, e: &str, f: &str) -> (s: String)
    ensures
        s@ == a@ + b@ + c@ + d@ + e@ + f@,
{
    String::from_str(a).concat(b).concat(c).concat(d).concat(e).concat(f)
}

} // verus!
