use vstd::prelude::*;

use crate::MAX_CODE;
use crate::workflow::CSUser;
use vstd::string::StringExecFns;

verus! {

/// The character for the decimal digit `d` (any value ten or above maps to
/// '9'; callers stay below ten).
pub open spec fn digit_char(d: int) -> char {
    if d == 0 {
        '0'
    } else if d == 1 {
        '1'
    } else if d == 2 {
        '2'
    } else if d == 3 {
        '3'
    } else if d == 4 {
        '4'
    } else if d == 5 {
        '5'
    } else if d == 6 {
        '6'
    } else if d == 7 {
        '7'
    } else if d == 8 {
        '8'
    } else {
        '9'
    }
}

/// The six decimal digits of a code value, most significant first,
/// zero-padded on the left.
pub open spec fn code_digits(code: u64) -> Seq<char> {
    seq![
        digit_char(code as int / 100000 % 10),
        digit_char(code as int / 10000 % 10),
        digit_char(code as int / 1000 % 10),
        digit_char(code as int / 100 % 10),
        digit_char(code as int / 10 % 10),
        digit_char(code as int % 10),
    ]
}

/// A one-character string slice holding the decimal digit `d`.
fn digit_str(d: u64) -> (s: &'static str)
    requires
        d <= 9,
    ensures
        s@ == seq![digit_char(d as int)],
{
    if d == 0 {
        proof {
            reveal_strlit("0");
            assert("0"@ =~= seq![digit_char(d as int)]);
        }
        "0"
    } else if d == 1 {
        proof {
            reveal_strlit("1");
            assert("1"@ =~= seq![digit_char(d as int)]);
        }
        "1"
    } else if d == 2 {
        proof {
            reveal_strlit("2");
            assert("2"@ =~= seq![digit_char(d as int)]);
        }
        "2"
    } else if d == 3 {
        proof {
            reveal_strlit("3");
            assert("3"@ =~= seq![digit_char(d as int)]);
        }
        "3"
    } else if d == 4 {
        proof {
            reveal_strlit("4");
            assert("4"@ =~= seq![digit_char(d as int)]);
        }
        "4"
    } else if d == 5 {
        proof {
            reveal_strlit("5");
            assert("5"@ =~= seq![digit_char(d as int)]);
        }
        "5"
    } else if d == 6 {
        proof {
            reveal_strlit("6");
            assert("6"@ =~= seq![digit_char(d as int)]);
        }
        "6"
    } else if d == 7 {
        proof {
            reveal_strlit("7");
            assert("7"@ =~= seq![digit_char(d as int)]);
        }
        "7"
    } else if d == 8 {
        proof {
            reveal_strlit("8");
            assert("8"@ =~= seq![digit_char(d as int)]);
        }
        "8"
    } else {
        proof {
            reveal_strlit("9");
            assert("9"@ =~= seq![digit_char(d as int)]);
        }
        "9"
    }
}

/// A code value as the requester sees it: exactly six decimal digits,
/// zero-padded on the left.
pub fn format_code(code: u64) -> (s: String)
    requires
        code <= MAX_CODE,
    ensures
        s@ == code_digits(code),
        s@.len() == 6,
{
    let mut s = String::new();
    s.append(digit_str(code / 100000 % 10));
    s.append(digit_str(code / 10000 % 10));
    s.append(digit_str(code / 1000 % 10));
    s.append(digit_str(code / 100 % 10));
    s.append(digit_str(code / 10 % 10));
    s.append(digit_str(code % 10));
    proof {
        assert(s@ =~= code_digits(code));
    }
    s
}

/// The display name the notifier greets with: the record's first and last
/// name joined by a single space.
pub fn full_name(user: &CSUser) -> (s: String)
    ensures
        s@ == user.first_name@ + seq![' '] + user.last_name@,
{
    let mut s = user.first_name.clone();
    s.append(" ");
    s.append(user.last_name.as_str());
    proof {
        reveal_strlit(" ");
        assert(s@ =~= user.first_name@ + seq![' '] + user.last_name@);
    }
    s
}

} // verus!
