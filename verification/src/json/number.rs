//! Unsigned integers in decimal, without sign, fraction or leading zeros.

use vstd::prelude::*;

verus! {

pub open spec fn is_digit(b: u8) -> bool {
    0x30 <= b <= 0x39
}

/// The decimal digits of `n`, most significant first.
pub open spec fn decimal(n: nat) -> Seq<u8>
    decreases n,
{
    if n < 10 {
        seq![(0x30 + n) as u8]
    } else {
        decimal(n / 10).push((0x30 + n % 10) as u8)
    }
}

/// Follows the run of digits that starts at `i`, with `acc` the value of the
/// digits before it; gives the value of the whole and where the run ends.
pub open spec fn scan_digits(b: Seq<u8>, i: int, acc: nat) -> (nat, int)
    decreases b.len() - i,
{
    if 0 <= i < b.len() && is_digit(b[i]) {
        scan_digits(b, i + 1, acc * 10 + (b[i] - 0x30) as nat)
    } else {
        (acc, i)
    }
}

/// Reads the longest run of digits at `i` as a number: nothing where there is
/// no digit, where a zero leads other digits, or where the value does not fit.
pub open spec fn scan_number(b: Seq<u8>, i: int) -> Option<(u64, int)> {
    if !(0 <= i < b.len() && is_digit(b[i])) {
        None
    } else if b[i] == 0x30 && i + 1 < b.len() && is_digit(b[i + 1]) {
        None
    } else {
        let (v, e) = scan_digits(b, i, 0);
        if v <= u64::MAX {
            Some((v as u64, e))
        } else {
            None
        }
    }
}

pub proof fn lemma_decimal_shape(n: nat)
    ensures
        decimal(n).len() >= 1,
        forall|k: int| 0 <= k < decimal(n).len() ==> is_digit(#[trigger] decimal(n)[k]),
        n > 0 ==> decimal(n)[0] != 0x30,
        n == 0 ==> decimal(n) == seq![0x30u8],
    decreases n,
{
    if n >= 10 {
        lemma_decimal_shape(n / 10);
    }
}

pub proof fn lemma_scan_digits_run(b: Seq<u8>, i: int, acc: nat)
    requires
        0 <= i <= b.len(),
    ensures
        ({
            let (v, e) = scan_digits(b, i, acc);
            &&& i <= e <= b.len()
            &&& v >= acc
            &&& (e == b.len() || !is_digit(b[e]))
            &&& (acc > 0 ==> decimal(v) == decimal(acc) + b.subrange(i, e))
        }),
    decreases b.len() - i,
{
    let (v, e) = scan_digits(b, i, acc);
    if i < b.len() && is_digit(b[i]) {
        let d: nat = (b[i] - 0x30) as nat;
        let acc2: nat = acc * 10 + d;
        lemma_scan_digits_run(b, i + 1, acc2);
        if acc > 0 {
            assert(acc2 / 10 == acc && acc2 % 10 == d);
            assert(decimal(acc2) == decimal(acc).push(b[i]));
            assert(decimal(acc).push(b[i]) + b.subrange(i + 1, e) =~= decimal(acc) + b.subrange(
                i,
                e,
            ));
        }
    } else {
        assert(decimal(acc) + b.subrange(i, i) =~= decimal(acc));
    }
}

/// What `scan_number` reads is spelled exactly as `decimal` spells it, and no
/// digit follows it.
pub proof fn lemma_scan_number_sound(b: Seq<u8>, i: int)
    requires
        scan_number(b, i) is Some,
    ensures
        ({
            let (n, e) = scan_number(b, i).unwrap();
            &&& 0 <= i < e <= b.len()
            &&& b.subrange(i, e) == decimal(n as nat)
            &&& (e == b.len() || !is_digit(b[e]))
        }),
{
    let (n, e) = scan_number(b, i).unwrap();
    let d: nat = (b[i] - 0x30) as nat;
    assert(scan_digits(b, i, 0) == scan_digits(b, i + 1, d));
    lemma_scan_digits_run(b, i + 1, d);
    if d == 0 {
        assert(b.subrange(i, e) =~= seq![0x30u8]);
    } else {
        assert(decimal(d) =~= seq![b[i]]);
        assert(seq![b[i]] + b.subrange(i + 1, e) =~= b.subrange(i, e));
    }
}

proof fn lemma_scan_digits_spelled(b: Seq<u8>, i: int, n: nat)
    requires
        0 <= i,
        i + decimal(n).len() <= b.len(),
        b.subrange(i, i + decimal(n).len()) == decimal(n),
    ensures
        scan_digits(b, i, 0) == scan_digits(b, i + decimal(n).len(), n),
    decreases n,
{
    let len: int = decimal(n).len() as int;
    let piece = b.subrange(i, i + len);
    lemma_decimal_shape(n);
    if n < 10 {
        assert(b[i] == piece[0]);
    } else {
        let m: nat = n / 10;
        lemma_decimal_shape(m);
        assert(decimal(n) == decimal(m).push((0x30 + n % 10) as u8));
        assert(b.subrange(i, i + len - 1) =~= decimal(m)) by {
            assert forall|k: int| 0 <= k < len - 1 implies b[i + k] == decimal(m)[k] by {
                assert(b[i + k] == piece[k]);
            }
        }
        lemma_scan_digits_spelled(b, i, m);
        assert(b[i + len - 1] == piece[len - 1]);
        assert(m * 10 + n % 10 == n);
    }
}

/// Whatever `decimal` spells, with no digit after it, `scan_number` reads back.
pub proof fn lemma_scan_number_complete(b: Seq<u8>, i: int, n: u64)
    requires
        0 <= i,
        i + decimal(n as nat).len() <= b.len(),
        b.subrange(i, i + decimal(n as nat).len()) == decimal(n as nat),
        i + decimal(n as nat).len() == b.len() || !is_digit(b[i + decimal(n as nat).len()]),
    ensures
        scan_number(b, i) == Some((n, i + decimal(n as nat).len())),
{
    let len: int = decimal(n as nat).len() as int;
    let piece = b.subrange(i, i + len);
    lemma_decimal_shape(n as nat);
    lemma_scan_digits_spelled(b, i, n as nat);
    assert(b[i] == piece[0]);
    if n == 0 {
        assert(len == 1);
    }
}

/// Reads a number at `start`.
pub fn parse_number(input: &[u8], start: usize) -> (r: Option<(u64, usize)>)
    requires
        start <= input@.len(),
    ensures
        match r {
            Some((v, e)) => scan_number(input@, start as int) == Some((v, e as int)),
            None => scan_number(input@, start as int) is None,
        },
        r matches Some((v, e)) ==> {
            &&& start < e <= input@.len()
            &&& input@.subrange(start as int, e as int) == decimal(v as nat)
            &&& (e == input@.len() || !is_digit(input@[e as int]))
        },
{
    proof {
        if scan_number(input@, start as int) is Some {
            lemma_scan_number_sound(input@, start as int);
        }
    }
    let n: usize = input.len();
    if start >= n {
        return None;
    }
    let first: u8 = input[start];
    if first < 0x30 || first > 0x39 {
        return None;
    }
    if first == 0x30 && n - start > 1 && 0x30 <= input[start + 1] && input[start + 1] <= 0x39 {
        return None;
    }
    let mut v: u64 = 0;
    let mut i: usize = start;
    while i < n && 0x30 <= input[i] && input[i] <= 0x39
        invariant
            start <= i <= n,
            n == input@.len(),
            scan_digits(input@, start as int, 0) == scan_digits(input@, i as int, v as nat),
        decreases n - i,
    {
        let d: u64 = (input[i] - 0x30) as u64;
        if v > (u64::MAX - d) / 10 {
            proof {
                lemma_scan_digits_run(input@, i as int + 1, v as nat * 10 + d as nat);
            }
            return None;
        }
        v = v * 10 + d;
        i = i + 1;
    }
    Some((v, i))
}

/// Appends the decimal digits of `n` to `out`.
pub fn write_number(out: &mut Vec<u8>, n: u64)
    ensures
        final(out)@ == old(out)@ + decimal(n as nat),
    decreases n,
{
    if n >= 10 {
        write_number(out, n / 10);
    }
    out.push(0x30 + (n % 10) as u8);
    assert(out@ =~= old(out)@ + decimal(n as nat));
}

} // verus!
