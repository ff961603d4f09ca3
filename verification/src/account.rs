//! Derivation of the identity a freshly spawned match unit lives at:
//! `match_<sequence>.<coordinator>`, with the sequence number rendered
//! in decimal.

use vstd::prelude::*;
use vstd::string::StringExecFns;

verus! {

/// The decimal digit character for one value below ten.
pub open spec fn dec_digit(n: int) -> char
    recommends
        0 <= n < 10,
{
    if n == 0 {
        '0'
    } else if n == 1 {
        '1'
    } else if n == 2 {
        '2'
    } else if n == 3 {
        '3'
    } else if n == 4 {
        '4'
    } else if n == 5 {
        '5'
    } else if n == 6 {
        '6'
    } else if n == 7 {
        '7'
    } else if n == 8 {
        '8'
    } else {
        '9'
    }
}

/// The decimal numeral of a number, most significant digit first; a
/// single `0` for zero.
pub open spec fn dec_str(n: int) -> Seq<char>
    recommends
        n >= 0,
    decreases n,
{
    if n < 10 {
        seq![dec_digit(n)]
    } else {
        dec_str(n / 10).push(dec_digit(n % 10))
    }
}

/// The one-character string for a digit.
fn dec_digit_str(d: u32) -> (r: &'static str)
    requires
        d < 10,
    ensures
        r@ == seq![dec_digit(d as int)],
{
    proof {
        reveal_strlit("0");
        reveal_strlit("1");
        reveal_strlit("2");
        reveal_strlit("3");
        reveal_strlit("4");
        reveal_strlit("5");
        reveal_strlit("6");
        reveal_strlit("7");
        reveal_strlit("8");
        reveal_strlit("9");
    }
    let r = if d == 0 {
        "0"
    } else if d == 1 {
        "1"
    } else if d == 2 {
        "2"
    } else if d == 3 {
        "3"
    } else if d == 4 {
        "4"
    } else if d == 5 {
        "5"
    } else if d == 6 {
        "6"
    } else if d == 7 {
        "7"
    } else if d == 8 {
        "8"
    } else {
        "9"
    };
    proof {
        assert(r@ =~= seq![dec_digit(d as int)]);
    }
    r
}

/// Renders a sequence number in decimal.
pub fn u32_to_dec(n: u32) -> (r: String)
    ensures
        r@ == dec_str(n as int),
{
    let mut n_left = n;
    let mut s = String::new();
    proof {
        assert(dec_str(n as int) + Seq::<char>::empty() =~= dec_str(n as int));
    }
    while n_left >= 10
        invariant
            dec_str(n as int) == dec_str(n_left as int) + s@,
        decreases n_left,
    {
        let ghost prev = n_left as int;
        let d = n_left % 10;
        let mut t = String::from_str(dec_digit_str(d));
        t.append(s.as_str());
        n_left = n_left / 10;
        proof {
            assert(dec_str(prev) == dec_str(prev / 10).push(dec_digit(prev % 10)));
            assert(dec_str(prev / 10).push(dec_digit(prev % 10)) + s@ =~= dec_str(prev / 10) + t@);
        }
        s = t;
    }
    let mut t = String::from_str(dec_digit_str(n_left));
    t.append(s.as_str());
    proof {
        assert(seq![dec_digit(n_left as int)] + s@ =~= dec_str(n_left as int) + s@);
    }
    t
}

/// The identity of the `game_id`-th unit spawned under a coordinator.
pub open spec fn game_account_spec(game_id: int, base_id: Seq<char>) -> Seq<char> {
    "match_"@ + dec_str(game_id) + "."@ + base_id
}

/// Derives the fresh identity for a spawned unit: `match_<id>.<base>`.
pub fn create_new_account_id(game_id: u32, base_id: &String) -> (r: String)
    ensures
        r@ == game_account_spec(game_id as int, base_id@),
{
    let mut s = String::from_str("match_");
    let digits = u32_to_dec(game_id);
    s.append(digits.as_str());
    s.append(".");
    s.append(base_id.as_str());
    proof {
        assert(s@ =~= game_account_spec(game_id as int, base_id@));
    }
    s
}

} // verus!
