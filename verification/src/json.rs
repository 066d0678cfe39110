//! JSON string-token transforms on bytes: unescaping an encoded string
//! token into its decoded bytes, and escaping decoded bytes back into a
//! JSON-style quoted form.

use vstd::prelude::*;

verus! {

/// The value of one hexadecimal digit byte.
pub open spec fn hex_val(b: u8) -> Option<u8> {
    if 0x30 <= b <= 0x39 {
        Some((b - 0x30) as u8)
    } else if 0x61 <= b <= 0x66 {
        Some((b - 0x57) as u8)
    } else if 0x41 <= b <= 0x46 {
        Some((b - 0x37) as u8)
    } else {
        None
    }
}

/// The value of four hexadecimal digit bytes, most significant first.
pub open spec fn hex4_val(a: u8, b: u8, c: u8, d: u8) -> Option<int> {
    match (hex_val(a), hex_val(b), hex_val(c), hex_val(d)) {
        (Some(x), Some(y), Some(z), Some(w)) => Some(
            x * 0x1000 + y * 0x100 + z * 0x10 + w,
        ),
        _ => None,
    }
}

/// The UTF-8 encoding of a code point below 0x110000.
pub open spec fn utf8_enc(cp: int) -> Seq<u8> {
    if cp < 0x80 {
        seq![cp as u8]
    } else if cp < 0x800 {
        seq![(0xC0 + cp / 0x40) as u8, (0x80 + cp % 0x40) as u8]
    } else if cp < 0x10000 {
        seq![
            (0xE0 + cp / 0x1000) as u8,
            (0x80 + (cp / 0x40) % 0x40) as u8,
            (0x80 + cp % 0x40) as u8,
        ]
    } else {
        seq![
            (0xF0 + cp / 0x40000) as u8,
            (0x80 + (cp / 0x1000) % 0x40) as u8,
            (0x80 + (cp / 0x40) % 0x40) as u8,
            (0x80 + cp % 0x40) as u8,
        ]
    }
}

/// The decoded byte of a one-letter escape; `None` for every byte that is
/// no such escape.
pub open spec fn esc_short(e: u8) -> Option<u8> {
    if e == 0x22 || e == 0x5C || e == 0x2F {
        Some(e)
    } else if e == 0x62 {
        Some(0x08u8)
    } else if e == 0x66 {
        Some(0x0Cu8)
    } else if e == 0x6E {
        Some(0x0Au8)
    } else if e == 0x72 {
        Some(0x0Du8)
    } else if e == 0x74 {
        Some(0x09u8)
    } else {
        None
    }
}

/// Prepends `p` to a pending unescape result.
pub open spec fn opt_prepend(p: Seq<u8>, o: Option<Seq<u8>>) -> Option<Seq<u8>> {
    match o {
        Some(r) => Some(p + r),
        None => None,
    }
}

/// Unescapes the interior of a JSON string token from position `i` on.
/// `None` on a malformed escape, a lone surrogate, an unescaped quote, or a
/// trailing backslash; raw bytes, control bytes included, pass through.
pub open spec fn unescape_from(s: Seq<u8>, i: int) -> Option<Seq<u8>>
    decreases s.len() - i, 1int,
{
    if i < 0 || i >= s.len() {
        Some(Seq::empty())
    } else if s[i] == 0x22 {
        None
    } else if s[i] == 0x5C {
        if i + 1 >= s.len() {
            None
        } else {
            let e = s[i + 1];
            match esc_short(e) {
                Some(d) => opt_prepend(seq![d], unescape_from(s, i + 2)),
                None => if e == 0x75 {
                    unescape_u(s, i)
                } else {
                    None
                },
            }
        }
    } else {
        opt_prepend(seq![s[i]], unescape_from(s, i + 1))
    }
}

/// Unescapes a `\u` escape standing at position `i` (where `s[i]` is the
/// backslash and `s[i + 1]` the letter `u`), surrogate pairs included, then
/// the rest of the interior.
pub open spec fn unescape_u(s: Seq<u8>, i: int) -> Option<Seq<u8>>
    decreases s.len() - i, 0int,
{
    if i + 6 > s.len() {
        None
    } else {
        match hex4_val(s[i + 2], s[i + 3], s[i + 4], s[i + 5]) {
            None => None,
            Some(cp) => {
                if 0xD800 <= cp < 0xDC00 {
                    if i + 12 <= s.len() && s[i + 6] == 0x5C && s[i + 7] == 0x75 {
                        match hex4_val(s[i + 8], s[i + 9], s[i + 10], s[i + 11]) {
                            None => None,
                            Some(lo) => {
                                if 0xDC00 <= lo < 0xE000 {
                                    opt_prepend(
                                        utf8_enc(0x10000 + (cp - 0xD800) * 0x400 + (lo - 0xDC00)),
                                        unescape_from(s, i + 12),
                                    )
                                } else {
                                    None
                                }
                            },
                        }
                    } else {
                        None
                    }
                } else if 0xDC00 <= cp < 0xE000 {
                    None
                } else {
                    opt_prepend(utf8_enc(cp), unescape_from(s, i + 6))
                }
            },
        }
    }
}

/// The decoded bytes of a whole JSON string token: a double quote, an
/// interior, a double quote. `None` if the quotes are missing or the
/// interior is malformed.
pub open spec fn json_decoded(src: Seq<u8>) -> Option<Seq<u8>> {
    if src.len() >= 2 && src[0] == 0x22 && src[src.len() - 1] == 0x22 {
        unescape_from(src.subrange(1, src.len() - 1), 0)
    } else {
        None
    }
}

/// The UTF-8 encoding of any code point holds at least one byte.
pub proof fn lemma_utf8_nonempty(cp: int)
    ensures
        utf8_enc(cp).len() >= 1,
{
}

/// A successful unescape of a non-empty interior yields at least one byte.
pub proof fn lemma_unescape_nonempty(s: Seq<u8>, i: int)
    requires
        0 <= i < s.len(),
        unescape_from(s, i) is Some,
    ensures
        unescape_from(s, i).unwrap().len() > 0,
{
    assert forall|cp: int| utf8_enc(cp).len() >= 1 by {
        lemma_utf8_nonempty(cp);
    }
    if s[i] == 0x5C && i + 1 < s.len() {
        let e = s[i + 1];
        if esc_short(e) is None && e == 0x75 {
            assert(unescape_from(s, i) == unescape_u(s, i));
        }
    }
}

/// The JSON escaping of one decoded byte: double quote and backslash get a
/// backslash, the named control bytes their short escape, the other control
/// bytes a four-digit lowercase hexadecimal escape, everything else stands
/// for itself.
pub open spec fn escape_byte(b: u8) -> Seq<u8> {
    if b == 0x22 {
        seq![0x5Cu8, 0x22u8]
    } else if b == 0x5C {
        seq![0x5Cu8, 0x5Cu8]
    } else if b == 0x08 {
        seq![0x5Cu8, 0x62u8]
    } else if b == 0x09 {
        seq![0x5Cu8, 0x74u8]
    } else if b == 0x0A {
        seq![0x5Cu8, 0x6Eu8]
    } else if b == 0x0C {
        seq![0x5Cu8, 0x66u8]
    } else if b == 0x0D {
        seq![0x5Cu8, 0x72u8]
    } else if b < 0x20 {
        seq![0x5Cu8, 0x75u8, 0x30u8, 0x30u8, hex_digit_lower(b / 0x10), hex_digit_lower(b % 0x10)]
    } else {
        seq![b]
    }
}

/// The lowercase hexadecimal digit byte for a value below 16.
pub open spec fn hex_digit_lower(x: u8) -> u8 {
    if x < 10 {
        (0x30 + x) as u8
    } else {
        (0x57 + x) as u8
    }
}

/// The JSON escaping of the decoded bytes from position `i` on.
pub open spec fn escape_from(s: Seq<u8>, i: int) -> Seq<u8>
    decreases s.len() - i,
{
    if i < 0 || i >= s.len() {
        Seq::empty()
    } else {
        escape_byte(s[i]) + escape_from(s, i + 1)
    }
}

/// The JSON escaping of a whole decoded byte run.
pub open spec fn escape(s: Seq<u8>) -> Seq<u8> {
    escape_from(s, 0)
}

/// The value of one hexadecimal digit byte.
fn hex_val_of(b: u8) -> (r: Option<u8>)
    ensures
        r == hex_val(b),
{
    if 0x30 <= b && b <= 0x39 {
        Some(b - 0x30)
    } else if 0x61 <= b && b <= 0x66 {
        Some(b - 0x57)
    } else if 0x41 <= b && b <= 0x46 {
        Some(b - 0x37)
    } else {
        None
    }
}

/// The value of four hexadecimal digit bytes, most significant first.
fn hex4_val_of(a: u8, b: u8, c: u8, d: u8) -> (r: Option<u32>)
    ensures
        match hex4_val(a, b, c, d) {
            Some(v) => r == Some(v as u32) && 0 <= v < 0x10000,
            None => r is None,
        },
{
    match (hex_val_of(a), hex_val_of(b), hex_val_of(c), hex_val_of(d)) {
        (Some(x), Some(y), Some(z), Some(w)) => Some(
            x as u32 * 0x1000 + y as u32 * 0x100 + z as u32 * 0x10 + w as u32,
        ),
        _ => None,
    }
}

/// Appends the UTF-8 encoding of a code point.
fn append_utf8(out: &mut Vec<u8>, cp: u32)
    requires
        cp < 0x110000,
    ensures
        final(out)@ == old(out)@ + utf8_enc(cp as int),
{
    if cp < 0x80 {
        out.push(cp as u8);
        proof {
            assert(out@ =~= old(out)@ + utf8_enc(cp as int));
        }
    } else if cp < 0x800 {
        out.push((0xC0 + cp / 0x40) as u8);
        out.push((0x80 + cp % 0x40) as u8);
        proof {
            assert(out@ =~= old(out)@ + utf8_enc(cp as int));
        }
    } else if cp < 0x10000 {
        out.push((0xE0 + cp / 0x1000) as u8);
        out.push((0x80 + (cp / 0x40) % 0x40) as u8);
        out.push((0x80 + cp % 0x40) as u8);
        proof {
            assert(out@ =~= old(out)@ + utf8_enc(cp as int));
        }
    } else {
        out.push((0xF0 + cp / 0x40000) as u8);
        out.push((0x80 + (cp / 0x1000) % 0x40) as u8);
        out.push((0x80 + (cp / 0x40) % 0x40) as u8);
        out.push((0x80 + cp % 0x40) as u8);
        proof {
            assert(out@ =~= old(out)@ + utf8_enc(cp as int));
        }
    }
}

/// Decodes a whole JSON string token into `out`. On success appends exactly
/// the decoded bytes and reports true; on a malformed token leaves `out` as
/// it was and reports false.
#[verifier::rlimit(100)]
pub fn decode_json_into(src: &[u8], out: &mut Vec<u8>) -> (ok: bool)
    ensures
        match json_decoded(src@) {
            Some(d) => ok && final(out)@ == old(out)@ + d,
            None => !ok && final(out)@ == old(out)@,
        },
{
    let n = src.len();
    if n < 2 || src[0] != 0x22 || src[n - 1] != 0x22 {
        return false;
    }
    let ghost s = src@.subrange(1, src@.len() - 1);
    let m = n - 2;
    let base = out.len();
    let mut i: usize = 0;
    loop
        invariant
            0 <= i <= m,
            m == s.len(),
            s == src@.subrange(1, src@.len() - 1),
            n == src@.len(),
            m == n - 2,
            n >= 2,
            src@[0] == 0x22,
            src@[src@.len() - 1] == 0x22,
            base == old(out)@.len(),
            out@.len() >= base,
            out@.take(base as int) == old(out)@,
            opt_prepend(out@.skip(base as int), unescape_from(s, i as int)) == unescape_from(s, 0),
        ensures
            i == m,
            out@.len() >= base,
            out@.take(base as int) == old(out)@,
            opt_prepend(out@.skip(base as int), unescape_from(s, i as int)) == unescape_from(s, 0),
        decreases m - i,
    {
        if i >= m {
            break ;
        }
        let ghost pre = out@;
        let b = src[i + 1];
        proof {
            assert(s[i as int] == src@[i + 1]);
        }
        if b == 0x22 {
            out.truncate(base);
            proof {
                assert(out@ =~= old(out)@);
            }
            return false;
        } else if b == 0x5C {
            if m - i < 2 {
                out.truncate(base);
                proof {
                    assert(out@ =~= old(out)@);
                }
                return false;
            }
            let e = src[i + 2];
            proof {
                assert(s[i + 1] == src@[i + 2]);
            }
            if e == 0x22 || e == 0x5C || e == 0x2F || e == 0x62 || e == 0x66 || e == 0x6E
                || e == 0x72 || e == 0x74 {
                let decoded: u8 = if e == 0x62 {
                    0x08
                } else if e == 0x66 {
                    0x0C
                } else if e == 0x6E {
                    0x0A
                } else if e == 0x72 {
                    0x0D
                } else if e == 0x74 {
                    0x09
                } else {
                    e
                };
                out.push(decoded);
                proof {
                    assert(unescape_from(s, i as int) == opt_prepend(
                        seq![decoded],
                        unescape_from(s, i + 2),
                    ));
                    assert(out@.skip(base as int) =~= pre.skip(base as int) + seq![decoded]);
                    if unescape_from(s, i + 2) is Some {
                        assert((pre.skip(base as int) + seq![decoded]) + unescape_from(
                            s,
                            i + 2,
                        ).unwrap() =~= pre.skip(base as int) + (seq![decoded] + unescape_from(
                            s,
                            i + 2,
                        ).unwrap()));
                    }
                }
                i = i + 2;
            } else if e == 0x75 {
                if m - i < 6 {
                    out.truncate(base);
                    proof {
                        assert(out@ =~= old(out)@);
                    }
                    return false;
                }
                let h = hex4_val_of(src[i + 3], src[i + 4], src[i + 5], src[i + 6]);
                proof {
                    assert(s[i + 2] == src@[i + 3]);
                    assert(s[i + 3] == src@[i + 4]);
                    assert(s[i + 4] == src@[i + 5]);
                    assert(s[i + 5] == src@[i + 6]);
                }
                match h {
                    None => {
                        out.truncate(base);
                        proof {
                            assert(out@ =~= old(out)@);
                        }
                        return false;
                    },
                    Some(cp) => {
                        if 0xD800 <= cp && cp < 0xDC00 {
                            if m - i >= 12 && src[i + 7] == 0x5C && src[i + 8] == 0x75 {
                                let h2 = hex4_val_of(
                                    src[i + 9],
                                    src[i + 10],
                                    src[i + 11],
                                    src[i + 12],
                                );
                                proof {
                                    assert(s[i + 6] == src@[i + 7]);
                                    assert(s[i + 7] == src@[i + 8]);
                                    assert(s[i + 8] == src@[i + 9]);
                                    assert(s[i + 9] == src@[i + 10]);
                                    assert(s[i + 10] == src@[i + 11]);
                                    assert(s[i + 11] == src@[i + 12]);
                                }
                                match h2 {
                                    Some(lo) if 0xDC00 <= lo && lo < 0xE000 => {
                                        let combined: u32 = 0x10000 + (cp - 0xD800) * 0x400 + (lo
                                            - 0xDC00);
                                        append_utf8(out, combined);
                                        proof {
                                            let ghost u = utf8_enc(combined as int);
                                            assert(esc_short(0x75u8) is None);
                                            assert(unescape_u(s, i as int) == opt_prepend(
                                                u,
                                                unescape_from(s, i + 12),
                                            ));
                                            assert(unescape_from(s, i as int) == opt_prepend(
                                                u,
                                                unescape_from(s, i + 12),
                                            ));
                                            assert(out@.skip(base as int) =~= pre.skip(
                                                base as int,
                                            ) + u);
                                            if unescape_from(s, i + 12) is Some {
                                                assert((pre.skip(base as int) + u)
                                                    + unescape_from(s, i + 12).unwrap() =~= pre.skip(
                                                    base as int,
                                                ) + (u + unescape_from(s, i + 12).unwrap()));
                                            }
                                        }
                                        i = i + 12;
                                    },
                                    _ => {
                                        out.truncate(base);
                                        proof {
                                            assert(out@ =~= old(out)@);
                                        }
                                        return false;
                                    },
                                }
                            } else {
                                proof {
                                    if i + 12 <= m {
                                        assert(s[i + 6] == src@[i + 7]);
                                        assert(s[i + 7] == src@[i + 8]);
                                    }
                                }
                                out.truncate(base);
                                proof {
                                    assert(out@ =~= old(out)@);
                                }
                                return false;
                            }
                        } else if 0xDC00 <= cp && cp < 0xE000 {
                            out.truncate(base);
                            proof {
                                assert(out@ =~= old(out)@);
                            }
                            return false;
                        } else {
                            append_utf8(out, cp);
                            proof {
                                let ghost u = utf8_enc(cp as int);
                                assert(esc_short(0x75u8) is None);
                                assert(unescape_u(s, i as int) == opt_prepend(
                                    u,
                                    unescape_from(s, i + 6),
                                ));
                                assert(unescape_from(s, i as int) == opt_prepend(
                                    u,
                                    unescape_from(s, i + 6),
                                ));
                                assert(out@.skip(base as int) =~= pre.skip(base as int) + u);
                                if unescape_from(s, i + 6) is Some {
                                    assert((pre.skip(base as int) + u) + unescape_from(
                                        s,
                                        i + 6,
                                    ).unwrap() =~= pre.skip(base as int) + (u + unescape_from(
                                        s,
                                        i + 6,
                                    ).unwrap()));
                                }
                            }
                            i = i + 6;
                        }
                    },
                }
            } else {
                out.truncate(base);
                proof {
                    assert(out@ =~= old(out)@);
                }
                return false;
            }
        } else {
            out.push(b);
            proof {
                assert(unescape_from(s, i as int) == opt_prepend(
                    seq![b],
                    unescape_from(s, i + 1),
                ));
                assert(out@.skip(base as int) =~= pre.skip(base as int) + seq![b]);
                if unescape_from(s, i + 1) is Some {
                    assert((pre.skip(base as int) + seq![b]) + unescape_from(s, i + 1).unwrap()
                        =~= pre.skip(base as int) + (seq![b] + unescape_from(s, i + 1).unwrap()));
                }
            }
            i = i + 1;
        }
    }
    proof {
        assert(unescape_from(s, m as int) == Some(Seq::<u8>::empty()));
        assert(out@.skip(base as int) + Seq::<u8>::empty() =~= out@.skip(base as int));
        assert(out@.take(base as int) + out@.skip(base as int) =~= out@);
    }
    true
}

/// Appends the JSON escaping of `s` to `out`.
pub fn append_json_escaped(out: &mut Vec<u8>, s: &[u8])
    ensures
        final(out)@ == old(out)@ + escape(s@),
{
    let mut i: usize = 0;
    while i < s.len()
        invariant
            0 <= i <= s@.len(),
            escape(s@) == out@.skip(old(out)@.len() as int) + escape_from(s@, i as int),
            out@.take(old(out)@.len() as int) == old(out)@,
            out@.len() >= old(out)@.len(),
        decreases s@.len() - i,
    {
        let ghost pre = out@;
        let ghost basel = old(out)@.len() as int;
        let b = s[i];
        if b == 0x22 {
            out.push(0x5C);
            out.push(0x22);
        } else if b == 0x5C {
            out.push(0x5C);
            out.push(0x5C);
        } else if b == 0x08 {
            out.push(0x5C);
            out.push(0x62);
        } else if b == 0x09 {
            out.push(0x5C);
            out.push(0x74);
        } else if b == 0x0A {
            out.push(0x5C);
            out.push(0x6E);
        } else if b == 0x0C {
            out.push(0x5C);
            out.push(0x66);
        } else if b == 0x0D {
            out.push(0x5C);
            out.push(0x72);
        } else if b < 0x20 {
            out.push(0x5C);
            out.push(0x75);
            out.push(0x30);
            out.push(0x30);
            let hi = b / 0x10;
            let lo = b % 0x10;
            out.push(
                if hi < 10 {
                    0x30 + hi
                } else {
                    0x57 + hi
                },
            );
            out.push(
                if lo < 10 {
                    0x30 + lo
                } else {
                    0x57 + lo
                },
            );
        } else {
            out.push(b);
        }
        proof {
            assert(out@.skip(basel) =~= pre.skip(basel) + escape_byte(s@[i as int]));
            assert(escape_from(s@, i as int) == escape_byte(s@[i as int]) + escape_from(
                s@,
                i + 1,
            ));
            assert((pre.skip(basel) + escape_byte(s@[i as int])) + escape_from(s@, i + 1)
                =~= pre.skip(basel) + (escape_byte(s@[i as int]) + escape_from(s@, i + 1)));
            assert(out@.take(basel) =~= old(out)@);
        }
        i = i + 1;
    }
    proof {
        assert(escape_from(s@, i as int) == Seq::<u8>::empty());
        assert(out@.skip(old(out)@.len() as int) + Seq::<u8>::empty() =~= out@.skip(
            old(out)@.len() as int,
        ));
        assert(out@.take(old(out)@.len() as int) + out@.skip(old(out)@.len() as int) =~= out@);
    }
}

} // verus!
