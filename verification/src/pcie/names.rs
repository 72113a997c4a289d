//! Names of switch ports.
use vstd::prelude::*;
use vstd::string::StringExecFns;

verus! {

/// A digit.
pub open spec fn digit_text(d: int) -> Seq<char> {
    if d == 0 {
        "0"@
    } else if d == 1 {
        "1"@
    } else if d == 2 {
        "2"@
    } else if d == 3 {
        "3"@
    } else if d == 4 {
        "4"@
    } else if d == 5 {
        "5"@
    } else if d == 6 {
        "6"@
    } else if d == 7 {
        "7"@
    } else if d == 8 {
        "8"@
    } else {
        "9"@
    }
}

/// A number in decimal.
pub open spec fn decimal(n: int) -> Seq<char>
    decreases n,
{
    if n < 10 {
        digit_text(n)
    } else {
        decimal(n / 10) + digit_text(n % 10)
    }
}

/// The name of a downstream port of a switch.
pub open spec fn downstream_name(switch: Seq<char>, i: int) -> Seq<char> {
    switch + "-downstream-"@ + decimal(i)
}

fn digit(d: usize) -> (r: &'static str)
    requires
        d < 10,
    ensures
        r@ == digit_text(d as int),
{
    if d == 0 {
        "0"
    } else if d == 1 {
        "1"
    } else if d == 2 {
        "2"
    } else if d == 3 {
        "3"
    } else if d == 4 {
        "4"
    } else if d == 5 {
        "5"
    } else if d == 6 {
        "6"
    } else if d == 7 {
        "7"
    } else if d == 8 {
        "8"
    } else {
        "9"
    }
}

/// Appends a number in decimal.
fn append_decimal(text: String, n: usize) -> (r: String)
    ensures
        r@ == text@ + decimal(n as int),
    decreases n,
{
    if n < 10 {
        text.concat(digit(n))
    } else {
        let front: String = append_decimal(text, n / 10);
        let r: String = front.concat(digit(n % 10));
        assert(r@ =~= text@ + (decimal((n / 10) as int) + digit_text((n % 10) as int)));
        r
    }
}

/// Returns the name of a downstream port of a switch.
pub fn downstream_port_name(switch: &String, i: usize) -> (r: String)
    ensures
        r@ == downstream_name(switch@, i as int),
{
    append_decimal(switch.clone().concat("-downstream-"), i)
}

/// The number that digits stand for.
pub open spec fn parsed(text: Seq<char>) -> int
    decreases text.len(),
{
    if text.len() == 0 {
        0
    } else {
        10 * parsed(text.drop_last()) + (text.last() as int - 48)
    }
}

proof fn lemma_digit(d: int)
    requires
        0 <= d < 10,
    ensures
        digit_text(d).len() == 1,
        digit_text(d)[0] as int == 48 + d,
{
    reveal_strlit("0");
    reveal_strlit("1");
    reveal_strlit("2");
    reveal_strlit("3");
    reveal_strlit("4");
    reveal_strlit("5");
    reveal_strlit("6");
    reveal_strlit("7");
    reveal_strlit("8");
    reveal_strlit("9");
}

/// A number is written so that its digits stand for it.
pub proof fn law_decimal_parsed(n: int)
    requires
        0 <= n,
    ensures
        parsed(decimal(n)) == n,
        decimal(n).len() > 0,
    decreases n,
{
    if n < 10 {
        lemma_digit(n);
        assert(parsed(decimal(n).drop_last()) == 0);
        assert(decimal(n).last() == digit_text(n)[0]);
    } else {
        lemma_digit(n % 10);
        law_decimal_parsed(n / 10);
        assert(decimal(n).drop_last() =~= decimal(n / 10));
        assert(decimal(n).last() == digit_text(n % 10)[0]);
    }
}

/// The ports of a switch have different names.
pub proof fn law_port_names_differ(switch: Seq<char>, i: int, j: int)
    requires
        0 <= i,
        0 <= j,
        downstream_name(switch, i) == downstream_name(switch, j),
    ensures
        i == j,
{
    let start = switch + "-downstream-"@;
    let n = start.len() as int;
    assert(downstream_name(switch, i).skip(n) =~= decimal(i));
    assert(downstream_name(switch, j).skip(n) =~= decimal(j));
    law_decimal_parsed(i);
    law_decimal_parsed(j);
}

}
