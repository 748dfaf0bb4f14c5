//! Session identifiers.
//!
//! An identifier pairs a serial number the registry hands out in order
//! with a random token, rendered as `<decimal serial>-<token>`.  The
//! serial makes identifiers provably pairwise distinct — the registry
//! never issues the same serial twice — while the token keeps them hard
//! to guess, as an opaque handle should be.

use vstd::prelude::*;

verus! {

/// The character for one decimal digit.
pub open spec fn digit_char(d: nat) -> char
    recommends
        d < 10,
{
    if d == 0 {
        '0'
    } else if d == 1 {
        '1'
    } else if d == 2 {
        '2'
    } else if d == 3 {
        '3'
    } else if d == 4 {
        '4'
    } else if d == 5 {
        '5'
    } else if d == 6 {
        '6'
    } else if d == 7 {
        '7'
    } else if d == 8 {
        '8'
    } else {
        '9'
    }
}

pub open spec fn is_digit(c: char) -> bool {
    c == '0' || c == '1' || c == '2' || c == '3' || c == '4' || c == '5' || c == '6' || c == '7'
        || c == '8' || c == '9'
}

/// Canonical decimal rendering of a natural number, most significant
/// digit first, without leading zeros.
pub open spec fn dec(n: nat) -> Seq<char>
    decreases n,
{
    if n < 10 {
        seq![digit_char(n)]
    } else {
        dec(n / 10) + seq![digit_char(n % 10)]
    }
}

/// The rendered identifier for a serial number and a token.
pub open spec fn spec_session_id(serial: nat, token: Seq<char>) -> Seq<char> {
    dec(serial) + seq!['-'] + token
}

proof fn lemma_dec_len(n: nat)
    ensures
        dec(n).len() >= 1,
        n >= 10 ==> dec(n).len() >= 2,
    decreases n,
{
    if n >= 10 {
        lemma_dec_len(n / 10);
    }
}

proof fn lemma_dec_digits(n: nat)
    ensures
        forall|i: int| 0 <= i < dec(n).len() ==> is_digit(#[trigger] dec(n)[i]),
    decreases n,
{
    if n < 10 {
        assert(is_digit(dec(n)[0]));
    } else {
        lemma_dec_digits(n / 10);
        assert forall|i: int| 0 <= i < dec(n).len() implies is_digit(#[trigger] dec(n)[i]) by {
            if i < dec(n / 10).len() {
                assert(dec(n)[i] == dec(n / 10)[i]);
            } else {
                assert(dec(n)[i] == digit_char(n % 10));
            }
        }
    }
}

proof fn lemma_digit_char_injective(a: nat, b: nat)
    requires
        a < 10,
        b < 10,
        digit_char(a) == digit_char(b),
    ensures
        a == b,
{
}

proof fn lemma_dec_injective(a: nat, b: nat)
    requires
        dec(a) == dec(b),
    ensures
        a == b,
    decreases a,
{
    lemma_dec_len(a);
    lemma_dec_len(b);
    if a < 10 && b < 10 {
        assert(dec(a)[0] == digit_char(a));
        assert(dec(b)[0] == digit_char(b));
        lemma_digit_char_injective(a, b);
    } else if a < 10 {
        assert(dec(a).len() == 1);
        assert(dec(b).len() >= 2);
    } else if b < 10 {
        assert(dec(b).len() == 1);
        assert(dec(a).len() >= 2);
    } else {
        let la = dec(a / 10).len() as int;
        let lb = dec(b / 10).len() as int;
        assert(dec(a).len() == la + 1);
        assert(dec(b).len() == lb + 1);
        assert(la == lb);
        assert(dec(a)[la] == digit_char(a % 10));
        assert(dec(b)[la] == digit_char(b % 10));
        lemma_digit_char_injective(a % 10, b % 10);
        assert(dec(a / 10) =~= dec(b / 10)) by {
            assert forall|i: int| 0 <= i < la implies #[trigger] dec(a / 10)[i] == dec(b / 10)[i] by {
                assert(dec(a)[i] == dec(a / 10)[i]);
                assert(dec(b)[i] == dec(b / 10)[i]);
            }
        }
        lemma_dec_injective(a / 10, b / 10);
        assert(a == 10 * (a / 10) + a % 10);
        assert(b == 10 * (b / 10) + b % 10);
    }
}

/// Identifiers rendered from a serial and a token determine both: equal
/// identifier strings come from the same serial and the same token.
pub proof fn lemma_session_id_injective(s1: nat, t1: Seq<char>, s2: nat, t2: Seq<char>)
    requires
        spec_session_id(s1, t1) == spec_session_id(s2, t2),
    ensures
        s1 == s2,
        t1 == t2,
{
    let d1 = dec(s1);
    let d2 = dec(s2);
    let l1 = d1.len() as int;
    let l2 = d2.len() as int;
    lemma_dec_digits(s1);
    lemma_dec_digits(s2);
    let whole = spec_session_id(s1, t1);
    assert(whole.len() == l1 + 1 + t1.len());
    assert(whole.len() == l2 + 1 + t2.len());
    assert(whole[l1] == '-') by {
        assert(whole[l1] == (dec(s1) + seq!['-'])[l1]);
    }
    assert(whole[l2] == '-') by {
        assert(spec_session_id(s2, t2)[l2] == (dec(s2) + seq!['-'])[l2]);
    }
    if l1 < l2 {
        assert(whole[l1] == d2[l1]) by {
            assert(spec_session_id(s2, t2)[l1] == (dec(s2) + seq!['-'])[l1]);
        }
        assert(is_digit(d2[l1]));
        assert(false);
    }
    if l2 < l1 {
        assert(whole[l2] == d1[l2]) by {
            assert(whole[l2] == (dec(s1) + seq!['-'])[l2]);
        }
        assert(is_digit(d1[l2]));
        assert(false);
    }
    assert(l1 == l2);
    assert(d1 =~= d2) by {
        assert forall|i: int| 0 <= i < l1 implies d1[i] == d2[i] by {
            assert(whole[i] == (dec(s1) + seq!['-'])[i]);
            assert(spec_session_id(s2, t2)[i] == (dec(s2) + seq!['-'])[i]);
        }
    }
    lemma_dec_injective(s1, s2);
    assert(t1 =~= t2) by {
        assert forall|i: int| 0 <= i < t1.len() implies t1[i] == t2[i] by {
            assert(whole[l1 + 1 + i] == t1[i]);
            assert(spec_session_id(s2, t2)[l2 + 1 + i] == t2[i]);
        }
    }
}

/// Law: identifiers issued at distinct serial numbers are distinct
/// strings, whatever their tokens.  Together with the registry's
/// strictly increasing serial counter this makes every pair of
/// successfully started sessions carry different identifiers, stopped
/// ones included.
pub proof fn lemma_identifiers_pairwise_distinct(s1: nat, t1: Seq<char>, s2: nat, t2: Seq<char>)
    requires
        s1 != s2,
    ensures
        spec_session_id(s1, t1) != spec_session_id(s2, t2),
{
    if spec_session_id(s1, t1) == spec_session_id(s2, t2) {
        lemma_session_id_injective(s1, t1, s2, t2);
    }
}

fn digit_str(d: u64) -> (r: &'static str)
    requires
        d < 10,
    ensures
        r@ == seq![digit_char(d as nat)],
{
    proof {
        reveal_strlit("0");
        reveal_strlit("1");
        reveal_strlit("2");
        reveal_strlit("3");
        reveal_strlit("4");
        reveal_strlit("5");
        reveal_strlit("6");
        reveal_strlit("7");
        reveal_strlit("8");
        reveal_strlit("9");
    }
    let r: &'static str = if d == 0 {
        "0"
    } else if d == 1 {
        "1"
    } else if d == 2 {
        "2"
    } else if d == 3 {
        "3"
    } else if d == 4 {
        "4"
    } else if d == 5 {
        "5"
    } else if d == 6 {
        "6"
    } else if d == 7 {
        "7"
    } else if d == 8 {
        "8"
    } else {
        "9"
    };
    proof {
        assert(r@ =~= seq![digit_char(d as nat)]);
    }
    r
}

/// Render a number in decimal, matching the canonical spec rendering.
pub fn u64_to_dec(n: u64) -> (r: String)
    ensures
        r@ == dec(n as nat),
    decreases n,
{
    if n < 10 {
        String::from_str(digit_str(n))
    } else {
        let mut s = u64_to_dec(n / 10);
        s.append(digit_str(n % 10));
        proof {
            assert(s@ =~= dec(n as nat));
        }
        s
    }
}

/// Relies on `uuid::Uuid::new_v4` and the hyphenated `Display` form of a
/// UUID: a fresh random version-4 UUID rendered as 36 characters.  The
/// value is random, so nothing beyond its length is promised.
#[verifier::external_body]
pub(crate) fn fresh_token() -> (r: String)
    ensures
        r@.len() == 36,
{
    uuid::Uuid::new_v4().to_string()
}

/// Render the identifier `<decimal serial>-<token>`.
pub fn render_session_id(serial: u64, token: &String) -> (r: String)
    ensures
        r@ == spec_session_id(serial as nat, token@),
{
    let mut s = u64_to_dec(serial);
    s.append("-");
    s.append(token.as_str());
    proof {
        reveal_strlit("-");
        assert("-"@ =~= seq!['-']);
        assert(s@ =~= spec_session_id(serial as nat, token@));
    }
    s
}

} // verus!
