//! String derivations: rendering an id in decimal and extracting the
//! extension of a file name or URL.

use vstd::prelude::*;

verus! {

/// The decimal digit character for `d < 10`.
pub open spec fn digit_char(d: nat) -> char {
    if d == 0 {
        '0'
    } else if d == 1 {
        '1'
    } else if d == 2 {
        '2'
    } else if d == 3 {
        '3'
    } else if d == 4 {
        '4'
    } else if d == 5 {
        '5'
    } else if d == 6 {
        '6'
    } else if d == 7 {
        '7'
    } else if d == 8 {
        '8'
    } else {
        '9'
    }
}

/// The decimal representation of `n`: most significant digit first, no
/// leading zeros, a single `'0'` for zero.
pub open spec fn dec_str(n: nat) -> Seq<char>
    decreases n,
{
    if n < 10 {
        seq![digit_char(n)]
    } else {
        dec_str(n / 10).push(digit_char(n % 10))
    }
}

/// The extension of `s`: the characters after the last `'.'`, the whole
/// sequence when no `'.'` occurs, and empty when `s` ends with `'.'`.
pub open spec fn ext_of(s: Seq<char>) -> Seq<char>
    decreases s.len(),
{
    if s.len() == 0 {
        Seq::empty()
    } else if s.last() == '.' {
        Seq::empty()
    } else {
        ext_of(s.drop_last()).push(s.last())
    }
}

/// A one-character string slice holding a single decimal digit.
fn digit_str(d: u32) -> (r: &'static str)
    requires
        d < 10,
    ensures
        r@ =~= seq![digit_char(d as nat)],
{
    proof {
        reveal_strlit("0");
        reveal_strlit("1");
        reveal_strlit("2");
        reveal_strlit("3");
        reveal_strlit("4");
        reveal_strlit("5");
        reveal_strlit("6");
        reveal_strlit("7");
        reveal_strlit("8");
        reveal_strlit("9");
    }
    match d {
        0 => "0",
        1 => "1",
        2 => "2",
        3 => "3",
        4 => "4",
        5 => "5",
        6 => "6",
        7 => "7",
        8 => "8",
        _ => "9",
    }
}

/// Renders `n` in decimal.
pub fn u32_to_string(n: u32) -> (r: String)
    ensures
        r@ == dec_str(n as nat),
    decreases n,
{
    if n < 10 {
        String::from_str(digit_str(n))
    } else {
        let r = u32_to_string(n / 10).concat(digit_str(n % 10));
        proof {
            assert(dec_str((n as nat) / 10).push(digit_char((n as nat) % 10)) =~= dec_str(
                (n as nat) / 10,
            ) + seq![digit_char((n as nat) % 10)]);
        }
        r
    }
}

/// The part of `s` after its last `'.'`, or all of `s` when it has none.
pub fn extension_of(s: &str) -> (r: String)
    ensures
        r@ == ext_of(s@),
{
    let len = s.unicode_len();
    let mut i = len;
    proof {
        assert(s@.subrange(0, len as int) =~= s@);
        assert(s@.subrange(len as int, len as int) =~= Seq::<char>::empty());
        assert(ext_of(s@) + Seq::<char>::empty() =~= ext_of(s@));
    }
    loop
        invariant
            i <= len,
            len == s@.len(),
            ext_of(s@) == ext_of(s@.subrange(0, i as int)) + s@.subrange(i as int, len as int),
        ensures
            i == 0 || s@[i as int - 1] == '.',
        decreases i,
    {
        if i == 0 {
            break ;
        }
        let c = s.get_char(i - 1);
        if c == '.' {
            break ;
        }
        proof {
            let t = s@.subrange(0, i as int);
            assert(t.last() == s@[i as int - 1]);
            assert(t.drop_last() =~= s@.subrange(0, i as int - 1));
            assert(ext_of(t) == ext_of(s@.subrange(0, i as int - 1)).push(s@[i as int - 1]));
            assert(ext_of(s@.subrange(0, i as int - 1)).push(s@[i as int - 1]) + s@.subrange(
                i as int,
                len as int,
            ) =~= ext_of(s@.subrange(0, i as int - 1)) + s@.subrange(i as int - 1, len as int));
        }
        i = i - 1;
    }
    proof {
        if i == 0 {
            assert(s@.subrange(0, 0) =~= Seq::<char>::empty());
            assert(ext_of(Seq::<char>::empty()) + s@.subrange(0, len as int) =~= s@.subrange(
                0,
                len as int,
            ));
        } else {
            let t = s@.subrange(0, i as int);
            assert(t.last() == s@[i as int - 1]);
            assert(ext_of(t) == Seq::<char>::empty());
            assert(Seq::<char>::empty() + s@.subrange(i as int, len as int) =~= s@.subrange(
                i as int,
                len as int,
            ));
        }
    }
    let sub = s.substring_char(i, len);
    String::from_str(sub)
}

} // verus!
