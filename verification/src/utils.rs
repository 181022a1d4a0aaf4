use vstd::prelude::*;

verus! {

/// The character that writes the decimal digit `d` (for `0 <= d < 10`).
pub open spec fn digit_char(d: int) -> char {
    if d == 0 {
        '0'
    } else if d == 1 {
        '1'
    } else if d == 2 {
        '2'
    } else if d == 3 {
        '3'
    } else if d == 4 {
        '4'
    } else if d == 5 {
        '5'
    } else if d == 6 {
        '6'
    } else if d == 7 {
        '7'
    } else if d == 8 {
        '8'
    } else {
        '9'
    }
}

/// The decimal representation of `n`, most significant digit first,
/// without leading zeros (`0` is written `"0"`).
pub open spec fn decimal(n: nat) -> Seq<char>
    decreases n,
{
    if n < 10 {
        seq![digit_char(n as int)]
    } else {
        decimal(n / 10) + seq![digit_char((n % 10) as int)]
    }
}

/// The text `refresh_token_` followed by the decimal form of `user_id`.
pub open spec fn refresh_key(user_id: nat) -> Seq<char> {
    "refresh_token_"@ + decimal(user_id)
}

fn digit_str(d: usize) -> (r: &'static str)
    requires
        d < 10,
    ensures
        r@ == seq![digit_char(d as int)],
{
    proof {
        reveal_strlit("0");
        reveal_strlit("1");
        reveal_strlit("2");
        reveal_strlit("3");
        reveal_strlit("4");
        reveal_strlit("5");
        reveal_strlit("6");
        reveal_strlit("7");
        reveal_strlit("8");
        reveal_strlit("9");
    }
    if d == 0 {
        "0"
    } else if d == 1 {
        "1"
    } else if d == 2 {
        "2"
    } else if d == 3 {
        "3"
    } else if d == 4 {
        "4"
    } else if d == 5 {
        "5"
    } else if d == 6 {
        "6"
    } else if d == 7 {
        "7"
    } else if d == 8 {
        "8"
    } else {
        "9"
    }
}

/// Appends the decimal form of `n` to `s`.
pub fn push_decimal(s: &mut String, n: usize)
    ensures
        final(s)@ == old(s)@ + decimal(n as nat),
    decreases n,
{
    if n >= 10 {
        push_decimal(s, n / 10);
    }
    s.append(digit_str(n % 10));
}

/// The key under which the refresh token of user `user_id` is stored.
pub fn refresh_token_generate(user_id: usize) -> (r: String)
    ensures
        r@ == refresh_key(user_id as nat),
{
    let mut s = String::from_str("refresh_token_");
    push_decimal(&mut s, user_id);
    s
}

proof fn lemma_decimal_len(n: nat)
    ensures
        decimal(n).len() >= 1,
        n >= 10 ==> decimal(n).len() >= 2,
    decreases n,
{
    if n >= 10 {
        lemma_decimal_len(n / 10);
    }
}

proof fn lemma_digit_char_injective(a: int, b: int)
    requires
        0 <= a < 10,
        0 <= b < 10,
        digit_char(a) == digit_char(b),
    ensures
        a == b,
{
}

/// Distinct numbers have distinct decimal forms.
pub proof fn lemma_decimal_injective(a: nat, b: nat)
    ensures
        (decimal(a) == decimal(b)) == (a == b),
    decreases a,
{
    if decimal(a) == decimal(b) {
        lemma_decimal_len(a);
        lemma_decimal_len(b);
        let da = decimal(a);
        let db = decimal(b);
        if a < 10 && b < 10 {
            assert(da[0] == digit_char(a as int));
            assert(db[0] == digit_char(b as int));
            lemma_digit_char_injective(a as int, b as int);
        } else if a < 10 {
            assert(da.len() == 1);
        } else if b < 10 {
            assert(db.len() == 1);
        } else {
            assert(da.last() == digit_char((a % 10) as int));
            assert(db.last() == digit_char((b % 10) as int));
            lemma_digit_char_injective((a % 10) as int, (b % 10) as int);
            assert(da.drop_last() =~= decimal(a / 10));
            assert(db.drop_last() =~= decimal(b / 10));
            lemma_decimal_injective(a / 10, b / 10);
        }
    }
}

/// Two users share a refresh-token key only if they are the same user:
/// the key names its user unambiguously.
pub proof fn lemma_refresh_key_injective(a: nat, b: nat)
    ensures
        (refresh_key(a) == refresh_key(b)) == (a == b),
{
    if refresh_key(a) == refresh_key(b) {
        let p = "refresh_token_"@;
        assert(refresh_key(a).subrange(p.len() as int, refresh_key(a).len() as int) =~= decimal(a));
        assert(refresh_key(b).subrange(p.len() as int, refresh_key(b).len() as int) =~= decimal(b));
        lemma_decimal_injective(a, b);
    }
}

/// The number that a digit character stands for.
pub open spec fn digit_value(c: char) -> int {
    c as int - '0' as int
}

/// The number that a string of decimal digits stands for.
pub open spec fn digits_value(s: Seq<char>) -> int
    decreases s.len(),
{
    if s.len() == 0 {
        0
    } else {
        digits_value(s.drop_last()) * 10 + digit_value(s.last())
    }
}

/// The decimal form of `n` is made of the digits `0` to `9` only, reads back
/// as `n`, and has no leading zero (only `0` itself starts with `0`).
pub proof fn lemma_decimal_reads_back(n: nat)
    ensures
        forall|i: int| 0 <= i < decimal(n).len() ==> '0' <= #[trigger] decimal(n)[i] <= '9',
        digits_value(decimal(n)) == n,
        decimal(n).len() >= 1,
        decimal(n)[0] == '0' ==> n == 0,
    decreases n,
{
    if n < 10 {
        assert(digits_value(decimal(n).drop_last()) == 0) by {
            assert(decimal(n).drop_last() =~= Seq::<char>::empty());
        }
    } else {
        lemma_decimal_reads_back(n / 10);
        let d = decimal(n);
        assert(d.drop_last() =~= decimal(n / 10));
        assert(d[0] == decimal(n / 10)[0]);
        assert forall|i: int| 0 <= i < d.len() implies '0' <= #[trigger] d[i] <= '9' by {
            if i < d.len() - 1 {
                assert(d[i] == decimal(n / 10)[i]);
            }
        }
    }
}

/// The refresh-token key of every user is the same prefix `refresh_token_`
/// followed by the decimal digits of the user's id, which read back as the
/// id, with no leading zero.
pub proof fn lemma_refresh_key_shape(user_id: nat)
    ensures
        refresh_key(user_id).len() > 14,
        refresh_key(user_id).subrange(0, 14) == seq![
            'r',
            'e',
            'f',
            'r',
            'e',
            's',
            'h',
            '_',
            't',
            'o',
            'k',
            'e',
            'n',
            '_',
        ],
        forall|i: int|
            14 <= i < refresh_key(user_id).len() ==> '0' <= #[trigger] refresh_key(user_id)[i]
                <= '9',
        digits_value(refresh_key(user_id).subrange(14, refresh_key(user_id).len() as int))
            == user_id,
        refresh_key(user_id)[14] == '0' ==> user_id == 0,
{
    reveal_strlit("refresh_token_");
    lemma_decimal_reads_back(user_id);
    let k = refresh_key(user_id);
    assert(k.subrange(0, 14) =~= seq![
        'r',
        'e',
        'f',
        'r',
        'e',
        's',
        'h',
        '_',
        't',
        'o',
        'k',
        'e',
        'n',
        '_',
    ]);
    assert(k.subrange(14, k.len() as int) =~= decimal(user_id));
    assert forall|i: int| 14 <= i < k.len() implies '0' <= #[trigger] k[i] <= '9' by {
        assert(k[i] == decimal(user_id)[i - 14]);
    }
}

} // verus!
