//! Quoted, escaped byte strings.

use vstd::prelude::*;

verus! {

pub const QUOTE: u8 = 0x22;

pub const BACKSLASH: u8 = 0x5c;

/// The lower-case hexadecimal digit for a value below sixteen.
pub open spec fn hex_digit(v: int) -> u8 {
    if v < 10 {
        (0x30 + v) as u8
    } else {
        (0x57 + v) as u8
    }
}

/// The letter that stands behind a backslash for a byte that is written
/// short: the quote, the backslash, and five of the control bytes.
pub open spec fn short_escape(b: u8) -> Option<u8> {
    if b == QUOTE || b == BACKSLASH {
        Some(b)
    } else if b == 0x08 {
        Some(0x62u8)
    } else if b == 0x09 {
        Some(0x74u8)
    } else if b == 0x0a {
        Some(0x6eu8)
    } else if b == 0x0c {
        Some(0x66u8)
    } else if b == 0x0d {
        Some(0x72u8)
    } else {
        None
    }
}

/// The byte that a letter behind a backslash stands for.
pub open spec fn short_unescape(letter: u8) -> Option<u8> {
    if letter == QUOTE || letter == BACKSLASH {
        Some(letter)
    } else if letter == 0x62 {
        Some(0x08u8)
    } else if letter == 0x74 {
        Some(0x09u8)
    } else if letter == 0x6e {
        Some(0x0au8)
    } else if letter == 0x66 {
        Some(0x0cu8)
    } else if letter == 0x72 {
        Some(0x0du8)
    } else {
        None
    }
}

/// How one byte is written between the quotes: a byte with a short form as a
/// backslash and its letter, any other control byte as `\u00` and two
/// hexadecimal digits, and every other byte as itself.
pub open spec fn escaped_byte(b: u8) -> Seq<u8> {
    if short_escape(b) is Some {
        seq![BACKSLASH, short_escape(b).unwrap()]
    } else if b < 0x20 {
        seq![BACKSLASH, 0x75u8, 0x30u8, 0x30u8, hex_digit(b as int / 16), hex_digit(b as int % 16)]
    } else {
        seq![b]
    }
}

/// The byte that `\u00` and the two digits `high` and `low` stand for, where
/// that is the one way to write the byte.
pub open spec fn long_unescape(high: u8, low: u8) -> Option<u8> {
    if (high == 0x30 || high == 0x31) && hex_value(low) is Some {
        let v = ((high - 0x30) * 16 + hex_value(low).unwrap()) as u8;
        if short_escape(v) is None {
            Some(v)
        } else {
            None
        }
    } else {
        None
    }
}

/// The escaped form of a byte string.
pub open spec fn escaped(s: Seq<u8>) -> Seq<u8>
    decreases s.len(),
{
    if s.len() == 0 {
        Seq::<u8>::empty()
    } else {
        escaped_byte(s[0]) + escaped(s.drop_first())
    }
}

/// A byte string as it is written in an encoded object.
pub open spec fn json_string(s: Seq<u8>) -> Seq<u8> {
    seq![QUOTE] + escaped(s) + seq![QUOTE]
}

/// The value of a lower-case hexadecimal digit, if the byte is one.
pub open spec fn hex_value(b: u8) -> Option<int> {
    if 0x30 <= b <= 0x39 {
        Some(b as int - 0x30)
    } else if 0x61 <= b <= 0x66 {
        Some(b as int - 0x57)
    } else {
        None
    }
}

/// Reads the inside of a quoted string from position `i` on, with `acc`
/// already read, up to and including the closing quote. Only the spellings
/// that `escaped` produces are read.
pub open spec fn scan_string(b: Seq<u8>, i: int, acc: Seq<u8>) -> Option<(Seq<u8>, int)>
    decreases b.len() - i,
{
    if i < 0 || i >= b.len() {
        None
    } else if b[i] == QUOTE {
        Some((acc, i + 1))
    } else if b[i] == BACKSLASH {
        if i + 1 < b.len() && short_unescape(b[i + 1]) is Some {
            scan_string(b, i + 2, acc.push(short_unescape(b[i + 1]).unwrap()))
        } else if i + 5 < b.len() && b[i + 1] == 0x75 && b[i + 2] == 0x30 && b[i + 3] == 0x30
            && long_unescape(b[i + 4], b[i + 5]) is Some {
            scan_string(b, i + 6, acc.push(long_unescape(b[i + 4], b[i + 5]).unwrap()))
        } else {
            None
        }
    } else if b[i] < 0x20 {
        None
    } else {
        scan_string(b, i + 1, acc.push(b[i]))
    }
}

pub proof fn lemma_escaped_concat(a: Seq<u8>, b: Seq<u8>)
    ensures
        escaped(a + b) == escaped(a) + escaped(b),
    decreases a.len(),
{
    if a.len() == 0 {
        assert(a + b =~= b);
        assert(escaped(a) + escaped(b) =~= escaped(b));
    } else {
        assert((a + b).drop_first() =~= a.drop_first() + b);
        lemma_escaped_concat(a.drop_first(), b);
        assert(escaped(a + b) =~= escaped(a) + escaped(b));
    }
}

pub proof fn lemma_escaped_single(b: u8)
    ensures
        escaped(seq![b]) == escaped_byte(b),
{
    assert(seq![b].drop_first() =~= Seq::<u8>::empty());
    assert(escaped(seq![b]) =~= escaped_byte(b) + escaped(Seq::<u8>::empty()));
    assert(escaped_byte(b) + Seq::<u8>::empty() =~= escaped_byte(b));
}

/// What `scan_string` reads is spelled exactly as `escaped` spells it.
pub proof fn lemma_scan_string_sound(b: Seq<u8>, i: int, acc: Seq<u8>)
    requires
        scan_string(b, i, acc) is Some,
    ensures
        ({
            let (s, e) = scan_string(b, i, acc).unwrap();
            &&& 0 <= i < e <= b.len()
            &&& acc.len() <= s.len()
            &&& s.subrange(0, acc.len() as int) == acc
            &&& b.subrange(i, e) == escaped(s.subrange(acc.len() as int, s.len() as int)) + seq![
                QUOTE,
            ]
        }),
    decreases b.len() - i,
{
    let (s, e) = scan_string(b, i, acc).unwrap();
    let n: int = acc.len() as int;
    if b[i] == QUOTE {
        assert(s.subrange(n, s.len() as int) =~= Seq::<u8>::empty());
        assert(b.subrange(i, e) =~= seq![QUOTE]);
        assert(escaped(Seq::<u8>::empty()) + seq![QUOTE] =~= seq![QUOTE]);
        assert(s.subrange(0, n) =~= acc);
    } else {
        let (step, x): (int, u8) = if b[i] == BACKSLASH {
            if i + 1 < b.len() && short_unescape(b[i + 1]) is Some {
                (2, short_unescape(b[i + 1]).unwrap())
            } else {
                (6, long_unescape(b[i + 4], b[i + 5]).unwrap())
            }
        } else {
            (1, b[i])
        };
        let acc2 = acc.push(x);
        assert(scan_string(b, i, acc) == scan_string(b, i + step, acc2));
        lemma_scan_string_sound(b, i + step, acc2);
        let tail = s.subrange(n + 1, s.len() as int);
        let t = s.subrange(n, s.len() as int);
        assert(s.subrange(0, n + 1) == acc2);
        assert(s[n] == acc2[n]);
        assert(s.subrange(0, n) =~= acc);
        assert(t[0] == x);
        assert(t.drop_first() =~= tail);
        assert(escaped(t) == escaped_byte(x) + escaped(tail));
        assert(b.subrange(i, i + step) =~= escaped_byte(x)) by {
            if step == 6 {
                let hi: u8 = b[i + 4];
                let lo: u8 = b[i + 5];
                assert(x as int / 16 == hi - 0x30);
                assert(x as int % 16 == hex_value(lo).unwrap());
            }
        }
        assert(b.subrange(i, e) =~= b.subrange(i, i + step) + b.subrange(i + step, e));
        assert(b.subrange(i, e) =~= escaped(t) + seq![QUOTE]);
    }
}

/// Whatever `escaped` spells, followed by a quote, `scan_string` reads back.
pub proof fn lemma_scan_string_complete(b: Seq<u8>, i: int, acc: Seq<u8>, t: Seq<u8>)
    requires
        0 <= i,
        i + escaped(t).len() + 1 <= b.len(),
        b.subrange(i, i + escaped(t).len() + 1) == escaped(t) + seq![QUOTE],
    ensures
        scan_string(b, i, acc) == Some((acc + t, i + escaped(t).len() + 1)),
    decreases t.len(),
{
    let len: int = escaped(t).len() as int;
    let piece = b.subrange(i, i + len + 1);
    if t.len() == 0 {
        assert(piece[0] == QUOTE);
        assert(b[i] == piece[0]);
        assert(acc + t =~= acc);
    } else {
        let x: u8 = t[0];
        let rest = t.drop_first();
        let head = escaped_byte(x);
        let step: int = head.len() as int;
        assert(escaped(t) == head + escaped(rest));
        assert forall|k: int| 0 <= k < step implies b[i + k] == head[k] by {
            assert(b[i + k] == piece[k]);
            assert(piece[k] == (escaped(t) + seq![QUOTE])[k]);
        }
        let len2: int = escaped(rest).len() as int;
        assert(b.subrange(i + step, i + step + len2 + 1) =~= escaped(rest) + seq![QUOTE]) by {
            assert forall|k: int| 0 <= k < len2 + 1 implies b[i + step + k] == (escaped(rest)
                + seq![QUOTE])[k] by {
                assert(b[i + step + k] == piece[step + k]);
                assert(piece[step + k] == (escaped(t) + seq![QUOTE])[step + k]);
            }
        }
        lemma_scan_string_complete(b, i + step, acc.push(x), rest);
        assert(acc.push(x) + rest =~= acc + t);
        assert(len == step + len2);
        assert(b[i] == head[0]);
        if short_escape(x) is Some {
            assert(b[i + 1] == head[1]);
            assert(short_unescape(b[i + 1]) == Some(x));
            assert(scan_string(b, i, acc) == scan_string(b, i + 2, acc.push(x)));
        } else if x < 0x20 {
            assert(b[i + 1] == head[1]);
            assert(b[i + 2] == head[2]);
            assert(b[i + 3] == head[3]);
            assert(b[i + 4] == head[4]);
            assert(b[i + 5] == head[5]);
            assert(long_unescape(b[i + 4], b[i + 5]) == Some(x));
            assert(scan_string(b, i, acc) == scan_string(b, i + 6, acc.push(x)));
        } else {
            assert(scan_string(b, i, acc) == scan_string(b, i + 1, acc.push(x)));
        }
    }
}

fn short_form(b: u8) -> (r: Option<u8>)
    ensures
        r == short_escape(b),
{
    if b == QUOTE || b == BACKSLASH {
        Some(b)
    } else if b == 0x08 {
        Some(0x62)
    } else if b == 0x09 {
        Some(0x74)
    } else if b == 0x0a {
        Some(0x6e)
    } else if b == 0x0c {
        Some(0x66)
    } else if b == 0x0d {
        Some(0x72)
    } else {
        None
    }
}

fn short_letter(letter: u8) -> (r: Option<u8>)
    ensures
        r == short_unescape(letter),
{
    if letter == QUOTE || letter == BACKSLASH {
        Some(letter)
    } else if letter == 0x62 {
        Some(0x08)
    } else if letter == 0x74 {
        Some(0x09)
    } else if letter == 0x6e {
        Some(0x0a)
    } else if letter == 0x66 {
        Some(0x0c)
    } else if letter == 0x72 {
        Some(0x0d)
    } else {
        None
    }
}

fn long_form(high: u8, low: u8) -> (r: Option<u8>)
    ensures
        r == long_unescape(high, low),
{
    if high != 0x30 && high != 0x31 {
        return None;
    }
    let lo: u8 = if 0x30 <= low && low <= 0x39 {
        low - 0x30
    } else if 0x61 <= low && low <= 0x66 {
        low - 0x57
    } else {
        return None;
    };
    let v: u8 = (high - 0x30) * 16 + lo;
    match short_form(v) {
        Some(_) => None,
        None => Some(v),
    }
}

/// Reads a quoted string whose opening quote stands just before `start`.
pub fn parse_string(input: &[u8], start: usize) -> (r: Option<(Vec<u8>, usize)>)
    requires
        start <= input@.len(),
    ensures
        match r {
            Some((s, e)) => scan_string(input@, start as int, Seq::<u8>::empty()) == Some(
                (s@, e as int),
            ),
            None => scan_string(input@, start as int, Seq::<u8>::empty()) is None,
        },
        r matches Some((s, e)) ==> start < e <= input@.len() && input@.subrange(
            start as int,
            e as int,
        ) == escaped(s@) + seq![QUOTE],
{
    let mut out: Vec<u8> = Vec::new();
    let mut i: usize = start;
    let n: usize = input.len();
    while i < n
        invariant
            start <= i <= n,
            n == input@.len(),
            scan_string(input@, start as int, Seq::<u8>::empty()) == scan_string(
                input@,
                i as int,
                out@,
            ),
        decreases n - i,
    {
        let c: u8 = input[i];
        if c == QUOTE {
            proof {
                lemma_scan_string_sound(input@, start as int, Seq::<u8>::empty());
                assert(out@.subrange(0, out@.len() as int) =~= out@);
            }
            return Some((out, i + 1));
        } else if c == BACKSLASH {
            if n - i < 2 {
                return None;
            }
            match short_letter(input[i + 1]) {
                Some(x) => {
                    out.push(x);
                    i = i + 2;
                },
                None => {
                    if n - i > 5 && input[i + 1] == 0x75 && input[i + 2] == 0x30 && input[i + 3]
                        == 0x30 {
                        match long_form(input[i + 4], input[i + 5]) {
                            Some(x) => {
                                out.push(x);
                                i = i + 6;
                            },
                            None => {
                                return None;
                            },
                        }
                    } else {
                        return None;
                    }
                },
            }
        } else if c < 0x20 {
            return None;
        } else {
            out.push(c);
            i = i + 1;
        }
    }
    None
}

/// Appends the quoted, escaped form of `s` to `out`.
pub fn write_string(out: &mut Vec<u8>, s: &[u8])
    ensures
        final(out)@ == old(out)@ + json_string(s@),
{
    let ghost before = out@;
    out.push(QUOTE);
    let mut i: usize = 0;
    let n: usize = s.len();
    while i < n
        invariant
            i <= n,
            n == s@.len(),
            out@ == before + seq![QUOTE] + escaped(s@.subrange(0, i as int)),
        decreases n - i,
    {
        let c: u8 = s[i];
        proof {
            lemma_escaped_concat(s@.subrange(0, i as int), seq![c]);
            lemma_escaped_single(c);
            assert(s@.subrange(0, i as int + 1) =~= s@.subrange(0, i as int) + seq![c]);
        }
        let short: Option<u8> = short_form(c);
        if short.is_some() {
            out.push(BACKSLASH);
            out.push(short.unwrap());
        } else if c < 0x20 {
            out.push(BACKSLASH);
            out.push(0x75);
            out.push(0x30);
            out.push(0x30);
            out.push(0x30 + c / 16);
            let low: u8 = c % 16;
            if low < 10 {
                out.push(0x30 + low);
            } else {
                out.push(0x57 + low);
            }
        } else {
            out.push(c);
        }
        assert(out@ =~= before + seq![QUOTE] + escaped(s@.subrange(0, i as int + 1)));
        i = i + 1;
    }
    out.push(QUOTE);
    assert(s@.subrange(0, n as int) =~= s@);
    assert(out@ =~= before + json_string(s@));
}

} // verus!
