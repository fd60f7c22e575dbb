//! Task identifiers.
//!
//! A task id is the canonical hyphenated rendering of a 128-bit value:
//! 32 lower-case hex digits in five groups of 8, 4, 4, 4 and 12 digits.
//! The 128 random bits come from one trusted call into the `uuid` crate;
//! the rendering itself is verified here.

use vstd::prelude::*;
use vstd::seq_lib::*;
use vstd::string::StringExecFns;

verus! {

/// The lower-case hex digit standing for a value below 16.
pub open spec fn hex_char_of(d: u8) -> char
    recommends
        d < 16,
{
    if d == 0 {
        '0'
    } else if d == 1 {
        '1'
    } else if d == 2 {
        '2'
    } else if d == 3 {
        '3'
    } else if d == 4 {
        '4'
    } else if d == 5 {
        '5'
    } else if d == 6 {
        '6'
    } else if d == 7 {
        '7'
    } else if d == 8 {
        '8'
    } else if d == 9 {
        '9'
    } else if d == 10 {
        'a'
    } else if d == 11 {
        'b'
    } else if d == 12 {
        'c'
    } else if d == 13 {
        'd'
    } else if d == 14 {
        'e'
    } else {
        'f'
    }
}

/// The `count` least significant hex digits of `n`, least significant first.
pub open spec fn hex_digits_rev(n: u128, count: nat) -> Seq<char>
    decreases count,
{
    if count == 0 {
        Seq::empty()
    } else {
        seq![hex_char_of((n % 16) as u8)] + hex_digits_rev(n / 16, (count - 1) as nat)
    }
}

/// All 32 hex digits of `n`, most significant first.
pub open spec fn hex_chars_of(n: u128) -> Seq<char> {
    hex_digits_rev(n, 32).reverse()
}

/// The canonical hyphenated task-id rendering of `n`.
pub open spec fn task_id_chars(n: u128) -> Seq<char> {
    let d = hex_chars_of(n);
    d.subrange(0, 8) + seq!['-'] + d.subrange(8, 12) + seq!['-'] + d.subrange(12, 16)
        + seq!['-'] + d.subrange(16, 20) + seq!['-'] + d.subrange(20, 32)
}

pub proof fn lemma_hex_digits_rev_len(n: u128, count: nat)
    ensures
        hex_digits_rev(n, count).len() == count,
    decreases count,
{
    if count > 0 {
        lemma_hex_digits_rev_len(n / 16, (count - 1) as nat);
    }
}

/// A task id is always 36 characters long.
pub proof fn lemma_task_id_chars_len(n: u128)
    ensures
        task_id_chars(n).len() == 36,
        hex_chars_of(n).len() == 32,
{
    lemma_hex_digits_rev_len(n, 32);
}

/// The one-character string for a hex digit value.
fn hex_str_of(d: u8) -> (r: &'static str)
    requires
        d < 16,
    ensures
        r@ =~= seq![hex_char_of(d)],
{
    proof {
        reveal_strlit("0");
        reveal_strlit("1");
        reveal_strlit("2");
        reveal_strlit("3");
        reveal_strlit("4");
        reveal_strlit("5");
        reveal_strlit("6");
        reveal_strlit("7");
        reveal_strlit("8");
        reveal_strlit("9");
        reveal_strlit("a");
        reveal_strlit("b");
        reveal_strlit("c");
        reveal_strlit("d");
        reveal_strlit("e");
        reveal_strlit("f");
    }
    if d == 0 {
        "0"
    } else if d == 1 {
        "1"
    } else if d == 2 {
        "2"
    } else if d == 3 {
        "3"
    } else if d == 4 {
        "4"
    } else if d == 5 {
        "5"
    } else if d == 6 {
        "6"
    } else if d == 7 {
        "7"
    } else if d == 8 {
        "8"
    } else if d == 9 {
        "9"
    } else if d == 10 {
        "a"
    } else if d == 11 {
        "b"
    } else if d == 12 {
        "c"
    } else if d == 13 {
        "d"
    } else if d == 14 {
        "e"
    } else {
        "f"
    }
}

/// The hex digit values of `n`, least significant first.
fn nibbles_rev(n: u128) -> (digits: Vec<u8>)
    ensures
        digits@.len() == 32,
        forall|j: int| 0 <= j < 32 ==> digits@[j] < 16,
        forall|j: int| 0 <= j < 32 ==> hex_digits_rev(n, 32)[j] == hex_char_of(digits@[j]),
{
    let mut digits: Vec<u8> = Vec::new();
    let mut m: u128 = n;
    let mut i: usize = 0;
    while i < 32
        invariant
            i <= 32,
            digits@.len() == i,
            forall|j: int| 0 <= j < i ==> digits@[j] < 16,
            digits@.map_values(|x: u8| hex_char_of(x)) + hex_digits_rev(m, (32 - i) as nat)
                =~= hex_digits_rev(n, 32),
        decreases 32 - i,
    {
        let ghost prev_digits = digits@;
        let ghost prev_m = m;
        let d: u8 = (m % 16) as u8;
        digits.push(d);
        m = m / 16;
        i = i + 1;
        proof {
            assert(digits@.map_values(|x: u8| hex_char_of(x)) =~= prev_digits.map_values(
                |x: u8| hex_char_of(x),
            ) + seq![hex_char_of(d)]);
            assert(hex_digits_rev(prev_m, (33 - i) as nat) == seq![hex_char_of(d)]
                + hex_digits_rev(m, (32 - i) as nat));
            assert(digits@.map_values(|x: u8| hex_char_of(x)) + hex_digits_rev(
                m,
                (32 - i) as nat,
            ) =~= prev_digits.map_values(|x: u8| hex_char_of(x)) + hex_digits_rev(
                prev_m,
                (33 - i) as nat,
            ));
        }
    }
    proof {
        assert(hex_digits_rev(m, 0) =~= Seq::<char>::empty());
        assert forall|j: int| 0 <= j < 32 implies hex_digits_rev(n, 32)[j] == hex_char_of(
            digits@[j],
        ) by {
            assert(digits@.map_values(|x: u8| hex_char_of(x))[j] == hex_char_of(digits@[j]));
            assert((digits@.map_values(|x: u8| hex_char_of(x)) + hex_digits_rev(m, 0))[j]
                == hex_digits_rev(n, 32)[j]);
        }
    }
    digits
}

/// Appends the hex digits with most-significant positions `a .. b` of the
/// value whose least-significant-first digits are `digits`.
fn append_hex_group(out: &mut String, digits: &Vec<u8>, a: usize, b: usize)
    requires
        a <= b <= 32,
        digits@.len() == 32,
        forall|j: int| 0 <= j < 32 ==> digits@[j] < 16,
    ensures
        final(out)@ =~= old(out)@ + Seq::new(
            (b - a) as nat,
            |k: int| hex_char_of(digits@[31 - a - k]),
        ),
{
    let ghost base = out@;
    let mut k: usize = a;
    while k < b
        invariant
            a <= k <= b <= 32,
            digits@.len() == 32,
            forall|j: int| 0 <= j < 32 ==> digits@[j] < 16,
            out@ =~= base + Seq::new((k - a) as nat, |q: int| hex_char_of(digits@[31 - a - q])),
        decreases b - k,
    {
        out.append(hex_str_of(digits[31 - k]));
        k = k + 1;
        assert(out@ =~= base + Seq::new((k - a) as nat, |q: int| hex_char_of(digits@[31 - a - q])));
    }
}

/// Renders a 128-bit value as the canonical hyphenated task-id string.
pub fn format_task_id(n: u128) -> (s: String)
    ensures
        s@ == task_id_chars(n),
{
    proof {
        reveal_strlit("-");
        lemma_task_id_chars_len(n);
    }
    let digits = nibbles_rev(n);
    proof {
        assert forall|i: int| 0 <= i < 32 implies hex_chars_of(n)[i] == hex_char_of(
            digits@[31 - i],
        ) by {
            assert(hex_chars_of(n)[i] == hex_digits_rev(n, 32)[31 - i]);
        }
    }
    let mut out = String::new();
    append_hex_group(&mut out, &digits, 0, 8);
    out.append("-");
    append_hex_group(&mut out, &digits, 8, 12);
    out.append("-");
    append_hex_group(&mut out, &digits, 12, 16);
    out.append("-");
    append_hex_group(&mut out, &digits, 16, 20);
    out.append("-");
    append_hex_group(&mut out, &digits, 20, 32);
    proof {
        assert(out@ =~= task_id_chars(n));
    }
    out
}

/// Relies on `uuid::Uuid::new_v4`: a fresh random identifier, here taken
/// as its 128 bits. The result is random, so nothing is promised of it;
/// every caller must handle every value.
#[verifier::external_body]
fn random_id_bits() -> u128 {
    uuid::Uuid::new_v4().as_u128()
}

/// Draws random bits and renders them as a task-id string. The result is
/// random: callers learn its shape, not its value.
pub fn fresh_task_id() -> (s: String)
    ensures
        exists|n: u128| s@ == task_id_chars(n),
{
    let n = random_id_bits();
    let s = format_task_id(n);
    proof {
        assert(s@ == task_id_chars(n));
    }
    s
}

} // verus!
