use vstd::prelude::*;

verus! {

/// The value of an ASCII digit in base `radix` (at most 36): `0`-`9`, then
/// the letters of either case from 10 on; `None` for any other byte.
pub open spec fn digit_value(c: u8, radix: nat) -> Option<nat> {
    let v: int = if 0x30 <= c <= 0x39 {
        c - 0x30
    } else if 0x61 <= c <= 0x7A {
        c - 0x61 + 10
    } else if 0x41 <= c <= 0x5A {
        c - 0x41 + 10
    } else {
        36
    };
    if v < radix { Some(v as nat) } else { None }
}

/// The number the digits `s` spell in base `radix`; `None` if a byte is not a
/// digit.
pub open spec fn digits_value(s: Seq<u8>, radix: nat) -> Option<nat>
    decreases s.len(),
{
    if s.len() == 0 {
        Some(0)
    } else {
        match (digits_value(s.drop_last(), radix), digit_value(s.last(), radix)) {
            (Some(a), Some(d)) => Some(a * radix + d),
            _ => None,
        }
    }
}

/// An unsigned number no larger than `max` read the way the standard library
/// reads one: an optional `+`, then one digit or more in base `radix`; any
/// other text, or a larger value, is no number.
pub open spec fn parse_unsigned(s: Seq<u8>, radix: nat, max: nat) -> Option<nat> {
    let d = if s.len() > 0 && s[0] == 0x2B { s.drop_first() } else { s };
    if d.len() == 0 {
        None
    } else {
        match digits_value(d, radix) {
            Some(v) => if v <= max { Some(v) } else { None },
            None => None,
        }
    }
}

/// `s` with every leading copy of the two bytes `a b` removed.
pub open spec fn strip_pairs(s: Seq<u8>, a: u8, b: u8) -> Seq<u8>
    decreases s.len(),
{
    if s.len() >= 2 && s[0] == a && s[1] == b {
        strip_pairs(s.subrange(2, s.len() as int), a, b)
    } else {
        s
    }
}

/// The hexadecimal digits of a key mask: leading `0x` prefixes, then leading
/// `0X` prefixes, removed.
pub open spec fn key_digits(s: Seq<u8>) -> Seq<u8> {
    strip_pairs(strip_pairs(s, 0x30, 0x78), 0x30, 0x58)
}

/// The entry of a replay line split into whitespace-separated words: a line of
/// two words or more gives its frame (decimal) and the keys held from it
/// (hexadecimal), each 0 when it does not read as a number; a shorter line
/// gives none.
pub open spec fn replay_entry_spec(words: Seq<Seq<u8>>) -> Option<(nat, nat)> {
    if words.len() < 2 {
        None
    } else {
        Some(
            (
                match parse_unsigned(words[0], 10, usize::MAX as nat) {
                    Some(v) => v,
                    None => 0,
                },
                match parse_unsigned(key_digits(words[1]), 16, u32::MAX as nat) {
                    Some(v) => v,
                    None => 0,
                },
            ),
        )
    }
}

/// The keys the last entry for `frame` gives, later entries replacing earlier
/// ones.
pub open spec fn keys_at(entries: Seq<(usize, u32)>, frame: usize) -> Option<u32>
    decreases entries.len(),
{
    if entries.len() == 0 {
        None
    } else if entries.last().0 == frame {
        Some(entries.last().1)
    } else {
        keys_at(entries.drop_last(), frame)
    }
}

proof fn lemma_digits_prefix(s: Seq<u8>, radix: nat, k: int)
    requires
        0 <= k <= s.len(),
        radix >= 1,
        digits_value(s, radix) is Some,
    ensures
        digits_value(s.subrange(0, k), radix) is Some,
        digits_value(s.subrange(0, k), radix)->0 <= digits_value(s, radix)->0,
    decreases s.len(),
{
    if k < s.len() {
        assert(s.drop_last() =~= s.subrange(0, s.len() - 1));
        lemma_digits_prefix(s.drop_last(), radix, k);
        assert(s.drop_last().subrange(0, k) =~= s.subrange(0, k));
        let a = digits_value(s.drop_last(), radix)->0;
        let d = digit_value(s.last(), radix)->0;
        assert(a <= a * radix + d) by (nonlinear_arith)
            requires
                radix >= 1,
        ;
    } else {
        assert(s.subrange(0, k) =~= s);
    }
}

fn digit_exec(c: u8, radix: u64) -> (r: Option<u64>)
    requires
        radix <= 36,
    ensures
        match digit_value(c, radix as nat) {
            Some(v) => r == Some(v as u64),
            None => r is None,
        },
{
    let v: u64 = if 0x30 <= c && c <= 0x39 {
        (c - 0x30) as u64
    } else if 0x61 <= c && c <= 0x7A {
        (c - 0x61) as u64 + 10
    } else if 0x41 <= c && c <= 0x5A {
        (c - 0x41) as u64 + 10
    } else {
        36
    };
    if v < radix {
        Some(v)
    } else {
        None
    }
}

/// Reads an unsigned number no larger than `max` in base `radix` from the
/// bytes of `s` from `from` on, the way the standard library does.
pub fn parse_unsigned_exec(s: &[u8], from: usize, radix: u64, max: u64) -> (r: Option<u64>)
    requires
        2 <= radix <= 36,
        from <= s@.len(),
    ensures
        match parse_unsigned(s@.subrange(from as int, s@.len() as int), radix as nat, max as nat) {
            Some(v) => r == Some(v as u64),
            None => r is None,
        },
{
    let ghost t = s@.subrange(from as int, s@.len() as int);
    let start: usize = if from < s.len() && s[from] == 0x2B { from + 1 } else { from };
    let ghost d = if t.len() > 0 && t[0] == 0x2B { t.drop_first() } else { t };
    assert(d =~= s@.subrange(start as int, s@.len() as int));
    if start == s.len() {
        return None;
    }
    let mut acc: u64 = 0;
    let mut i: usize = start;
    while i < s.len()
        invariant
            from <= start <= i <= s@.len(),
            start < s@.len(),
            2 <= radix <= 36,
            t == s@.subrange(from as int, s@.len() as int),
            d == (if t.len() > 0 && t[0] == 0x2B { t.drop_first() } else { t }),
            d =~= s@.subrange(start as int, s@.len() as int),
            digits_value(s@.subrange(start as int, i as int), radix as nat) == Some(acc as nat),
            acc <= max,
        decreases s.len() - i,
    {
        let ghost p = s@.subrange(start as int, i as int);
        let ghost p1 = s@.subrange(start as int, i + 1);
        assert(p1.drop_last() =~= p);
        assert(p1.last() == s@[i as int]);
        let dg = digit_exec(s[i], radix);
        match dg {
            None => {
                proof {
                    if digits_value(d, radix as nat) is Some {
                        lemma_digits_prefix(d, radix as nat, i + 1 - start);
                        assert(d.subrange(0, i + 1 - start) =~= p1);
                    }
                }
                return None;
            },
            Some(v) => {
                let next = match acc.checked_mul(radix) {
                    Some(m) => m.checked_add(v),
                    None => None,
                };
                match next {
                    Some(n) if n <= max => {
                        acc = n;
                    },
                    _ => {
                        proof {
                            assert(acc * radix + v > max) by (nonlinear_arith)
                                requires
                                    next is None || next->0 > max,
                                    next is Some ==> next->0 == acc * radix + v,
                                    next is None ==> acc * radix + v > u64::MAX,
                                    max <= u64::MAX,
                            ;
                            if digits_value(d, radix as nat) is Some {
                                lemma_digits_prefix(d, radix as nat, i + 1 - start);
                                assert(d.subrange(0, i + 1 - start) =~= p1);
                            }
                        }
                        return None;
                    },
                }
            },
        }
        i += 1;
    }
    assert(s@.subrange(start as int, i as int) =~= d);
    Some(acc)
}

fn strip_pairs_exec(s: &[u8], from: usize, a: u8, b: u8) -> (r: usize)
    requires
        from <= s@.len(),
    ensures
        from <= r <= s@.len(),
        s@.subrange(r as int, s@.len() as int) == strip_pairs(s@.subrange(from as int, s@.len() as int), a, b),
{
    let mut i = from;
    while s.len() - i >= 2 && s[i] == a && s[i + 1] == b
        invariant
            from <= i <= s@.len(),
            strip_pairs(s@.subrange(i as int, s@.len() as int), a, b) == strip_pairs(
                s@.subrange(from as int, s@.len() as int),
                a,
                b,
            ),
        decreases s.len() - i,
    {
        let ghost t = s@.subrange(i as int, s@.len() as int);
        assert(t.subrange(2, t.len() as int) =~= s@.subrange(i + 2, s@.len() as int));
        i += 2;
    }
    i
}

/// The entry a replay line gives, from its whitespace-separated words.
pub fn replay_entry(words: &Vec<Vec<u8>>) -> (r: Option<(usize, u32)>)
    ensures
        match replay_entry_spec(words@.map_values(|w: Vec<u8>| w@)) {
            Some(e) => r == Some((e.0 as usize, e.1 as u32)),
            None => r is None,
        },
{
    let ghost ws = words@.map_values(|w: Vec<u8>| w@);
    if words.len() < 2 {
        return None;
    }
    let w0 = words[0].as_slice();
    let w1 = words[1].as_slice();
    assert(w0@ == ws[0]);
    assert(w1@ == ws[1]);
    assert(w0@.subrange(0, w0@.len() as int) =~= w0@);
    let frame = match parse_unsigned_exec(w0, 0, 10, usize::MAX as u64) {
        Some(v) => v as usize,
        None => 0,
    };
    let k1 = strip_pairs_exec(w1, 0, 0x30, 0x78);
    let k2 = strip_pairs_exec(w1, k1, 0x30, 0x58);
    assert(w1@.subrange(0, w1@.len() as int) =~= w1@);
    let ghost kd = w1@.subrange(k2 as int, w1@.len() as int);
    assert(kd == key_digits(ws[1]));
    let keys = match parse_unsigned_exec(w1, k2, 16, 0xFFFF_FFFF) {
        Some(v) => v as u32,
        None => 0,
    };
    Some((frame, keys))
}

/// The keys the last entry for `frame` gives, if any.
pub fn keys_for_frame(entries: &Vec<(usize, u32)>, frame: usize) -> (r: Option<u32>)
    ensures
        r == keys_at(entries@, frame),
{
    let mut found: Option<u32> = None;
    let mut i: usize = 0;
    while i < entries.len()
        invariant
            i <= entries@.len(),
            found == keys_at(entries@.subrange(0, i as int), frame),
        decreases entries.len() - i,
    {
        let (f, k) = entries[i];
        let ghost e1 = entries@.subrange(0, i + 1);
        assert(e1.drop_last() =~= entries@.subrange(0, i as int));
        if f == frame {
            found = Some(k);
        }
        i += 1;
    }
    assert(entries@.subrange(0, i as int) =~= entries@);
    found
}

} // verus!
