use vstd::prelude::*;

verus! {

/// How many distinct join codes exist.
pub const CODE_SPACE: u32 = 1_000_000;

/// The decimal digit `d` (below ten) as a character.
pub open spec fn digit_char(d: nat) -> char {
    (('0' as nat) + d) as char
}

/// The text of join code `n` (below `CODE_SPACE`): six decimal digits,
/// zero-padded on the left.
pub open spec fn code_text(n: nat) -> Seq<char> {
    seq![
        digit_char(n / 100000 % 10),
        digit_char(n / 10000 % 10),
        digit_char(n / 1000 % 10),
        digit_char(n / 100 % 10),
        digit_char(n / 10 % 10),
        digit_char(n % 10),
    ]
}

fn digit_str(d: u32) -> (r: &'static str)
    requires
        d < 10,
    ensures
        r@ == seq![digit_char(d as nat)],
{
    proof {
        reveal_strlit("0");
        reveal_strlit("1");
        reveal_strlit("2");
        reveal_strlit("3");
        reveal_strlit("4");
        reveal_strlit("5");
        reveal_strlit("6");
        reveal_strlit("7");
        reveal_strlit("8");
        reveal_strlit("9");
    }
    match d {
        0 => "0",
        1 => "1",
        2 => "2",
        3 => "3",
        4 => "4",
        5 => "5",
        6 => "6",
        7 => "7",
        8 => "8",
        _ => "9",
    }
}

/// The join code that a random sample stands for: the sample reduced
/// modulo `CODE_SPACE`, written as six digits.
pub fn join_code_from_sample(sample: u32) -> (code: String)
    ensures
        code@ == code_text((sample % CODE_SPACE) as nat),
{
    let n: u32 = sample % CODE_SPACE;
    let mut code = String::new();
    code.append(digit_str(n / 100000 % 10));
    code.append(digit_str(n / 10000 % 10));
    code.append(digit_str(n / 1000 % 10));
    code.append(digit_str(n / 100 % 10));
    code.append(digit_str(n / 10 % 10));
    code.append(digit_str(n % 10));
    assert(code@ =~= code_text(n as nat));
    code
}

} // verus!
