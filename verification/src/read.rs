//! Cell addresses in "A1" notation: column letters followed by a 1-based
//! row number, against 0-based `(row, col)` indices.
use vstd::prelude::*;
use crate::text::{digit_char, digit_value, nat_digits, push_char, push_decimal_u128,
    lemma_nat_digits_are_digits};

verus! {

/// Why an address string could not be read.
#[derive(Debug, Clone, Copy, PartialEq, Eq)]
pub enum AddrError {
    /// Not letters followed by digits, or a row number of zero.
    Malformed,
    /// Well formed, but a row or column index does not fit in `usize`.
    OutOfRange,
}

/// The upper-case letter of a column digit (`0 -> 'A'`, `25 -> 'Z'`).
pub open spec fn letter_char(d: nat) -> char {
    (65 + d) as char
}

/// The value (1 to 26) of a column letter, either case.
pub open spec fn letter_value(c: char) -> Option<nat> {
    if 'A' <= c && c <= 'Z' {
        Some((c as nat - 64) as nat)
    } else if 'a' <= c && c <= 'z' {
        Some((c as nat - 96) as nat)
    } else {
        None
    }
}

/// The column letters of a 0-based column index: bijective base 26,
/// `0 -> "A"`, `25 -> "Z"`, `26 -> "AA"`.
pub open spec fn col_letters(c: nat) -> Seq<char>
    decreases c,
{
    if c < 26 {
        seq![letter_char(c)]
    } else {
        col_letters((c / 26 - 1) as nat).push(letter_char(c % 26))
    }
}

/// The bijective base-26 value of a run of letters (`"A" -> 1`, `"AA" -> 27`).
pub open spec fn letters_value(s: Seq<char>) -> nat
    decreases s.len(),
{
    if s.len() == 0 {
        0
    } else {
        letters_value(s.drop_last()) * 26 + match letter_value(s.last()) {
            Some(v) => v,
            None => 0,
        }
    }
}

/// The value of a run of decimal digits.
pub open spec fn digits_value(s: Seq<char>) -> nat
    decreases s.len(),
{
    if s.len() == 0 {
        0
    } else {
        digits_value(s.drop_last()) * 10 + match digit_value(s.last()) {
            Some(v) => v,
            None => 0,
        }
    }
}

/// How many letters the string starts with.
pub open spec fn leading_letters(s: Seq<char>) -> nat
    decreases s.len(),
{
    if s.len() == 0 || letter_value(s[0]) is None {
        0
    } else {
        1 + leading_letters(s.drop_first())
    }
}

/// The 0-based `(row, col)` that an address denotes: one or more letters,
/// then one or more digits and nothing else, with a row number of at least 1.
pub open spec fn spec_addr_to_idx(s: Seq<char>) -> Option<(nat, nat)> {
    let k = leading_letters(s);
    let digits = s.skip(k as int);
    if k == 0 || digits.len() == 0 {
        None
    } else if exists|i: int| 0 <= i < digits.len() && digit_value(#[trigger] digits[i]) is None {
        None
    } else if digits_value(digits) == 0 {
        None
    } else {
        Some(((digits_value(digits) - 1) as nat, (letters_value(s.take(k as int)) - 1) as nat))
    }
}

/// The address of a 0-based `(row, col)`.
pub open spec fn spec_idx_to_addr(row: nat, col: nat) -> Seq<char> {
    col_letters(col) + nat_digits(row + 1)
}

proof fn lemma_col_letters(c: nat)
    ensures
        col_letters(c).len() >= 1,
        letters_value(col_letters(c)) == c + 1,
        forall|i: int| 0 <= i < col_letters(c).len() ==> letter_value(#[trigger] col_letters(c)[i]) is Some,
    decreases c,
{
    if c >= 26 {
        let q = (c / 26 - 1) as nat;
        lemma_col_letters(q);
        let s = col_letters(c);
        assert(s.drop_last() =~= col_letters(q));
        assert(letter_value(s.last()) == Some((c % 26 + 1) as nat));
        assert(c == (c / 26) * 26 + c % 26);
        assert(letters_value(s.drop_last()) == q + 1);
        assert(letters_value(s) == letters_value(s.drop_last()) * 26 + (c % 26 + 1));
        assert(letters_value(s) == c + 1);
    } else {
        let s = col_letters(c);
        assert(letter_value(s.last()) == Some((c + 1) as nat));
        assert(s.drop_last() =~= Seq::<char>::empty());
        assert(letters_value(s.drop_last()) == 0);
        assert(letters_value(s) == c + 1);
    }
}

proof fn lemma_digits_value(n: nat)
    ensures
        digits_value(nat_digits(n)) == n,
    decreases n,
{
    if n >= 10 {
        lemma_digits_value(n / 10);
        assert(nat_digits(n).drop_last() =~= nat_digits(n / 10));
        assert(digit_value(digit_char(n % 10)) == Some(n % 10));
        assert(n == (n / 10) * 10 + n % 10);
        assert(digits_value(nat_digits(n).drop_last()) == n / 10);
        assert(digits_value(nat_digits(n)) == digits_value(nat_digits(n).drop_last()) * 10 + n % 10);
        assert(digits_value(nat_digits(n)) == n);
    } else {
        let s = nat_digits(n);
        assert(digit_value(s.last()) == Some(n));
        assert(s.drop_last() =~= Seq::<char>::empty());
        assert(digits_value(s.drop_last()) == 0);
        assert(digits_value(s) == n);
    }
}

proof fn lemma_leading_letters(letters: Seq<char>, rest: Seq<char>)
    requires
        forall|i: int| 0 <= i < letters.len() ==> letter_value(#[trigger] letters[i]) is Some,
        rest.len() == 0 || letter_value(rest[0]) is None,
    ensures
        leading_letters(letters + rest) == letters.len(),
    decreases letters.len(),
{
    if letters.len() > 0 {
        lemma_leading_letters(letters.drop_first(), rest);
        assert((letters + rest).drop_first() =~= letters.drop_first() + rest);
    } else {
        assert(letters + rest =~= rest);
    }
}

/// Reading back the address of any index gives that index again.
pub proof fn lemma_addr_roundtrip(row: nat, col: nat)
    ensures
        spec_addr_to_idx(spec_idx_to_addr(row, col)) == Some((row, col)),
{
    let letters = col_letters(col);
    let digits = nat_digits(row + 1);
    let s = letters + digits;
    lemma_col_letters(col);
    lemma_digits_value(row + 1);
    lemma_nat_digits_are_digits(row + 1);
    assert(letter_value(digits[0]) is None) by {
        assert(digit_value(digits[0]) is Some);
    }
    lemma_leading_letters(letters, digits);
    assert(s.skip(letters.len() as int) =~= digits);
    assert(s.take(letters.len() as int) =~= letters);
}

fn letter_of(d: u128) -> (c: char)
    requires
        d < 26,
    ensures
        c == letter_char(d as nat),
{
    let b: u8 = 65u8 + (d as u8);
    b as char
}

fn push_col_letters(s: &mut String, c: u128)
    ensures
        final(s)@ == old(s)@ + col_letters(c as nat),
    decreases c,
{
    if c >= 26 {
        push_col_letters(s, c / 26 - 1);
    }
    push_char(s, letter_of(c % 26));
}

/// The "A1" address of a 0-based `(row, col)` index.
pub fn idx_to_addr(row: usize, col: usize) -> (r: String)
    ensures
        r@ == spec_idx_to_addr(row as nat, col as nat),
{
    let mut s = String::new();
    push_col_letters(&mut s, col as u128);
    push_decimal_u128(&mut s, row as u128 + 1);
    assert(s@ =~= spec_idx_to_addr(row as nat, col as nat));
    s
}

fn letter_val(c: char) -> (r: Option<u128>)
    ensures
        r matches Some(v) ==> letter_value(c) == Some(v as nat),
        r is None ==> letter_value(c) is None,
{
    if 'A' <= c && c <= 'Z' {
        Some((c as u32 - 64) as u128)
    } else if 'a' <= c && c <= 'z' {
        Some((c as u32 - 96) as u128)
    } else {
        None
    }
}

fn digit_val(c: char) -> (r: Option<u128>)
    ensures
        r matches Some(v) ==> digit_value(c) == Some(v as nat),
        r is None ==> digit_value(c) is None,
{
    if '0' <= c && c <= '9' {
        Some((c as u32 - 48) as u128)
    } else {
        None
    }
}

/// The largest accumulated value that still gives an index in `usize`.
spec fn index_bound() -> nat {
    usize::MAX as nat + 1
}

proof fn lemma_leading_letters_prefix(s: Seq<char>, i: int)
    requires
        0 <= i <= s.len(),
        forall|j: int| 0 <= j < i ==> letter_value(#[trigger] s[j]) is Some,
        i == s.len() || letter_value(s[i]) is None,
    ensures
        leading_letters(s) == i,
{
    lemma_leading_letters(s.take(i), s.skip(i));
    assert(s.take(i) + s.skip(i) =~= s);
}

/// Reads an "A1" address (column letters of either case, then a 1-based row
/// number) into a 0-based `(row, col)` index.
pub fn addr_to_idx(addr: &str) -> (r: Result<(usize, usize), AddrError>)
    ensures
        r is Ok <==> (spec_addr_to_idx(addr@) matches Some((row, col)) && row <= usize::MAX && col <= usize::MAX),
        r matches Ok((row, col)) ==> spec_addr_to_idx(addr@) == Some((row as nat, col as nat)),
        r == Err::<(usize, usize), AddrError>(AddrError::Malformed) <==> spec_addr_to_idx(addr@) is None,
        r == Err::<(usize, usize), AddrError>(AddrError::OutOfRange) <==> (spec_addr_to_idx(addr@) matches Some((row, col)) && (row > usize::MAX || col > usize::MAX)),
{
    let ghost s = addr@;
    let n = addr.unicode_len();
    let mut i: usize = 0;
    let mut col_acc: u128 = 0;
    let mut col_big = false;
    // column letters
    while i < n
        invariant
            s == addr@,
            n == s.len(),
            i <= n,
            forall|j: int| 0 <= j < i ==> letter_value(#[trigger] s[j]) is Some,
            !col_big ==> col_acc == letters_value(s.take(i as int)),
            col_big ==> letters_value(s.take(i as int)) > index_bound(),
            col_acc <= index_bound(),
        ensures
            i <= n,
            forall|j: int| 0 <= j < i ==> letter_value(#[trigger] s[j]) is Some,
            !col_big ==> col_acc == letters_value(s.take(i as int)),
            col_big ==> letters_value(s.take(i as int)) > index_bound(),
            col_acc <= index_bound(),
            i == n || letter_value(s[i as int]) is None,
        decreases n - i,
    {
        let c = addr.get_char(i);
        match letter_val(c) {
            Some(v) => {
                assert(s.take(i + 1).drop_last() =~= s.take(i as int));
                if !col_big {
                    let next = col_acc * 26 + v;
                    if next > usize::MAX as u128 + 1 {
                        col_big = true;
                        col_acc = 0;
                    } else {
                        col_acc = next;
                    }
                } else {
                    assert(letters_value(s.take(i + 1)) >= letters_value(s.take(i as int)) * 26);
                }
                i = i + 1;
            },
            None => {
                break;
            },
        }
    }
    let k = i;
    proof {
        lemma_leading_letters_prefix(s, k as int);
    }
    if k == 0 || k == n {
        return Err(AddrError::Malformed);
    }
    let mut row_acc: u128 = 0;
    let mut row_big = false;
    let ghost digits = s.skip(k as int);
    while i < n
        invariant
            s == addr@,
            n == s.len(),
            0 < k < n,
            k <= i <= n,
            leading_letters(s) == k,
            digits == s.skip(k as int),
            forall|j: int| k <= j < i ==> digit_value(#[trigger] s[j]) is Some,
            !row_big ==> row_acc == digits_value(digits.take(i - k)),
            row_big ==> digits_value(digits.take(i - k)) > index_bound(),
            row_acc <= index_bound(),
        decreases n - i,
    {
        let c = addr.get_char(i);
        match digit_val(c) {
            Some(v) => {
                assert(digits.take(i - k + 1).drop_last() =~= digits.take(i - k));
                assert(digits[i - k] == s[i as int]);
                if !row_big {
                    let next = row_acc * 10 + v;
                    if next > usize::MAX as u128 + 1 {
                        row_big = true;
                        row_acc = 0;
                    } else {
                        row_acc = next;
                    }
                }
                i = i + 1;
            },
            None => {
                assert(digits[i - k] == s[i as int]);
                assert(digit_value(digits[i - k]) is None);
                return Err(AddrError::Malformed);
            },
        }
    }
    assert(digits.take(n - k) =~= digits);
    assert forall|j: int| 0 <= j < digits.len() implies digit_value(#[trigger] digits[j]) is Some by {
        assert(digits[j] == s[j + k]);
    }
    if !row_big && row_acc == 0 {
        return Err(AddrError::Malformed);
    }
    proof {
        assert(letters_value(s.take(k as int)) >= 1) by {
            assert(s.take(k as int).drop_last() =~= s.take(k - 1));
        }
    }
    if col_big || row_big || col_acc - 1 > usize::MAX as u128 || row_acc - 1 > usize::MAX as u128 {
        return Err(AddrError::OutOfRange);
    }
    Ok(((row_acc - 1) as usize, (col_acc - 1) as usize))
}

} // verus!
