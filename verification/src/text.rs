//! The texts the proxy prints and the addresses it builds.

use vstd::prelude::*;
use vstd::string::*;

verus! {

/// The character for the decimal digit `d`.
pub open spec fn digit(d: nat) -> char {
    (('0' as nat) + d) as char
}

/// `n` written in base ten, without leading zeros.
pub open spec fn decimal(n: nat) -> Seq<char>
    decreases n,
{
    if n < 10 {
        seq![digit(n)]
    } else {
        decimal(n / 10).push(digit(n % 10))
    }
}

/// The number that a row of decimal digits stands for.
pub open spec fn value(s: Seq<char>) -> int
    decreases s.len(),
{
    if s.len() == 0 {
        0
    } else {
        10 * value(s.drop_last()) + (s.last() as int - '0' as int)
    }
}

/// An address and a port as one text: the address, a colon, the port in base
/// ten.
pub open spec fn endpoint(address: Seq<char>, port: nat) -> Seq<char> {
    address + ":"@ + decimal(port)
}

/// `text` between the escape sequences that switch a terminal to red and back.
pub open spec fn red(text: Seq<char>) -> Seq<char> {
    "\x1B[31m"@ + text + "\x1B[0m"@
}

/// Reading back what `decimal` writes gives the number again.
pub proof fn decimal_reads_back(n: nat)
    ensures
        value(decimal(n)) == n,
    decreases n,
{
    if n < 10 {
        assert(decimal(n).drop_last() =~= Seq::empty());
        assert(value(Seq::empty()) == 0);
        assert(decimal(n).last() as int - '0' as int == n);
    } else {
        decimal_reads_back(n / 10);
        assert(decimal(n).drop_last() =~= decimal(n / 10));
        assert(decimal(n).last() as int - '0' as int == n % 10);
    }
}

/// What `decimal` writes is made of the ten digits, and begins with a zero only
/// for the number zero.
pub proof fn decimal_is_plain(n: nat)
    ensures
        decimal(n).len() > 0,
        forall|i: int| 0 <= i < decimal(n).len() ==> '0' <= #[trigger] decimal(n)[i] <= '9',
        decimal(n)[0] == '0' ==> n == 0,
        n == 0 ==> decimal(n).len() == 1,
    decreases n,
{
    if n >= 10 {
        decimal_is_plain(n / 10);
        assert(decimal(n)[0] == decimal(n / 10)[0]);
    }
}

/// An endpoint's text is the address, one colon, and the port in base ten.
pub proof fn endpoint_reads_back(address: Seq<char>, port: nat)
    ensures
        endpoint(address, port).len() > address.len() + 1,
        endpoint(address, port).take(address.len() as int) == address,
        endpoint(address, port)[address.len() as int] == ':',
        value(endpoint(address, port).skip(address.len() as int + 1)) == port,
{
    reveal_strlit(":");
    decimal_is_plain(port);
    decimal_reads_back(port);
    assert(endpoint(address, port).take(address.len() as int) =~= address);
    assert(endpoint(address, port).skip(address.len() as int + 1) =~= decimal(port));
}

/// No digit is a colon.
proof fn decimal_has_no_colon(n: nat)
    ensures
        decimal(n).len() > 0,
        forall|i: int| 0 <= i < decimal(n).len() ==> decimal(n)[i] != ':',
    decreases n,
{
    if n >= 10 {
        decimal_has_no_colon(n / 10);
    }
}

/// An endpoint's text names one address and one port only: two endpoints with
/// the same text have the same address and the same port.
pub proof fn endpoint_is_unambiguous(a: Seq<char>, p: nat, b: Seq<char>, q: nat)
    requires
        endpoint(a, p) == endpoint(b, q),
    ensures
        a == b,
        p == q,
{
    reveal_strlit(":");
    decimal_has_no_colon(p);
    decimal_has_no_colon(q);
    let s = endpoint(a, p);
    assert(s.len() == a.len() + 1 + decimal(p).len());
    assert(s.len() == b.len() + 1 + decimal(q).len());
    assert(s[a.len() as int] == ':');
    assert(s[b.len() as int] == ':');
    if a.len() < b.len() {
        assert(s[b.len() as int] == decimal(p)[b.len() - a.len() - 1]);
    }
    if b.len() < a.len() {
        assert(s[a.len() as int] == decimal(q)[a.len() - b.len() - 1]);
    }
    assert(a =~= s.take(a.len() as int));
    assert(b =~= s.take(a.len() as int));
    assert(decimal(p) =~= s.skip(a.len() as int + 1));
    assert(decimal(q) =~= s.skip(a.len() as int + 1));
    decimal_reads_back(p);
    decimal_reads_back(q);
}

/// The text of one decimal digit.
fn digit_text(d: u64) -> (s: &'static str)
    requires
        d < 10,
    ensures
        s@ == seq![digit(d as nat)],
{
    proof {
        reveal_strlit("0");
        reveal_strlit("1");
        reveal_strlit("2");
        reveal_strlit("3");
        reveal_strlit("4");
        reveal_strlit("5");
        reveal_strlit("6");
        reveal_strlit("7");
        reveal_strlit("8");
        reveal_strlit("9");
    }
    match d {
        0 => "0",
        1 => "1",
        2 => "2",
        3 => "3",
        4 => "4",
        5 => "5",
        6 => "6",
        7 => "7",
        8 => "8",
        _ => "9",
    }
}

/// Writes `n` in base ten.
pub fn decimal_text(n: u64) -> (s: String)
    ensures
        s@ == decimal(n as nat),
    decreases n,
{
    let mut s = if n < 10 {
        String::new()
    } else {
        decimal_text(n / 10)
    };
    s.append(digit_text(n % 10));
    s
}

/// The text of the endpoint at `address` and `port`.
pub fn endpoint_text(address: &str, port: u16) -> (s: String)
    ensures
        s@ == endpoint(address@, port as nat),
{
    let mut s = String::from_str(address);
    s.append(":");
    s.append(decimal_text(port as u64).as_str());
    s
}

/// Colours `text` red for a terminal.
///
/// Calls `ansi_term::Colour::paint` on `Colour::Red` and renders the result
/// with `to_string`. Trusted: the rendering is the escape sequence for a red
/// foreground (code 31), then `text` unchanged, then the sequence that resets
/// the style.
#[verifier::external_body]
pub(crate) fn paint_red(text: &str) -> (s: String)
    ensures
        s@ == red(text@),
{
    ansi_term::Colour::Red.paint(text).to_string()
}

} // verus!
