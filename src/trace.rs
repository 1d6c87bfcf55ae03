//! Decoding `tracef` format strings and their packed arguments.
use vstd::prelude::*;

verus! {

/// One piece of formatted trace output.
#[derive(Clone, Copy, PartialEq, Eq, Debug)]
pub enum TracePiece {
    /// A character, by its Unicode code point.
    Char(u32),
    /// A 64-bit IEEE-754 number, by its bits, to be written in its default
    /// decimal form.
    Float(u64),
}

/// The code point written for `%c` with argument `v`: `v` itself where it is
/// a Unicode scalar value, `!` otherwise.
pub open spec fn char_code(v: u32) -> u32 {
    if v < 0xd800 || (0xe000 <= v && v < 0x11_0000) {
        v
    } else {
        0x21
    }
}

/// The little-endian number in bytes `i` to `i + n - 1` of `s`.
pub open spec fn le_bytes(s: Seq<u8>, i: int, n: nat) -> nat
    decreases n,
{
    if n == 0 {
        0
    } else {
        s[i] as nat + 256 * le_bytes(s, i + 1, (n - 1) as nat)
    }
}

/// The signed 32-bit value whose little-endian bytes start at `i`.
pub open spec fn le_i32(s: Seq<u8>, i: int) -> int {
    let u = le_bytes(s, i, 4);
    if u >= 0x8000_0000 {
        u - 0x1_0000_0000
    } else {
        u as int
    }
}

/// The decimal digits of `n`, most significant first.
pub open spec fn digits(n: nat) -> Seq<TracePiece>
    decreases n,
{
    if n < 10 {
        seq![TracePiece::Char((0x30 + n) as u32)]
    } else {
        digits(n / 10) + seq![TracePiece::Char((0x30 + n % 10) as u32)]
    }
}

/// `v` in decimal, with a leading `-` when negative.
pub open spec fn decimal(v: int) -> Seq<TracePiece> {
    if v < 0 {
        seq![TracePiece::Char(0x2d)] + digits((-v) as nat)
    } else {
        digits(v as nat)
    }
}

/// The bytes of `mem` from `p` up to the first 0 or the end, as characters.
pub open spec fn c_string(mem: Seq<u8>, p: int) -> Seq<TracePiece>
    decreases mem.len() - p,
{
    if p < 0 || p >= mem.len() || mem[p] == 0 {
        seq![]
    } else {
        seq![TracePiece::Char(mem[p] as u32)] + c_string(mem, p + 1)
    }
}

/// The output of formatting `fmt` from byte `fi` on, with the arguments
/// from byte `ai` of `args` on, and `%s` strings read from `mem`.
pub open spec fn trace_from(fmt: Seq<u8>, args: Seq<u8>, mem: Seq<u8>, fi: int, ai: int) -> Seq<
    TracePiece,
>
    decreases fmt.len() - fi,
{
    if fi < 0 || fi >= fmt.len() || fmt[fi] == 0 {
        seq![]
    } else if fmt[fi] != 0x25 {
        seq![TracePiece::Char(fmt[fi] as u32)] + trace_from(fmt, args, mem, fi + 1, ai)
    } else if fi + 1 >= fmt.len() {
        seq![]
    } else {
        let spec_byte = fmt[fi + 1];
        if spec_byte == 0x63 {
            if ai + 4 <= args.len() {
                seq![TracePiece::Char(char_code(le_bytes(args, ai, 4) as u32))] + trace_from(
                    fmt,
                    args,
                    mem,
                    fi + 2,
                    ai + 4,
                )
            } else {
                seq![]
            }
        } else if spec_byte == 0x64 || spec_byte == 0x78 {
            if ai + 4 <= args.len() {
                decimal(le_i32(args, ai)) + trace_from(fmt, args, mem, fi + 2, ai + 4)
            } else {
                seq![]
            }
        } else if spec_byte == 0x73 {
            if ai + 4 <= args.len() && le_bytes(args, ai, 4) < mem.len() {
                c_string(mem, le_bytes(args, ai, 4) as int) + trace_from(
                    fmt,
                    args,
                    mem,
                    fi + 2,
                    ai + 4,
                )
            } else {
                seq![]
            }
        } else if spec_byte == 0x66 {
            if ai + 8 <= args.len() {
                seq![TracePiece::Float(le_bytes(args, ai, 8) as u64)] + trace_from(
                    fmt,
                    args,
                    mem,
                    fi + 2,
                    ai + 8,
                )
            } else {
                seq![]
            }
        } else {
            seq![TracePiece::Char(spec_byte as u32)] + trace_from(fmt, args, mem, fi + 2, ai)
        }
    }
}

/// Reads the little-endian number of `n` bytes at `i`.
fn read_le(s: &[u8], i: usize, n: usize) -> (r: u64)
    requires
        n <= 8,
        i + n <= s@.len(),
    ensures
        r == le_bytes(s@, i as int, n as nat),
    decreases n,
{
    let len = s.len();
    if n == 0 {
        0
    } else {
        let rest = read_le(s, i + 1, n - 1);
        proof {
            lemma_le_bound(s@, i as int + 1, (n - 1) as nat);
            assert(rest < 0x100_0000_0000_0000) by (nonlinear_arith)
                requires
                    rest < pow256((n - 1) as nat),
                    n - 1 <= 7,
                    pow256(7) == 0x100_0000_0000_0000,
                    n - 1 <= 7 ==> pow256((n - 1) as nat) <= pow256(7),
            ;
        }
        s[i] as u64 + 256 * rest
    }
}

/// `256` to the power `n`.
pub open spec fn pow256(n: nat) -> nat
    decreases n,
{
    if n == 0 {
        1
    } else {
        256 * pow256((n - 1) as nat)
    }
}

proof fn lemma_pow256_mono(a: nat, b: nat)
    requires
        a <= b,
    ensures
        pow256(a) <= pow256(b),
    decreases b,
{
    if a < b {
        lemma_pow256_mono(a, (b - 1) as nat);
    }
}

proof fn lemma_le_bound(s: Seq<u8>, i: int, n: nat)
    ensures
        le_bytes(s, i, n) < pow256(n),
        n <= 7 ==> pow256(n) <= pow256(7),
        pow256(7) == 0x100_0000_0000_0000,
        pow256(4) == 0x1_0000_0000,
    decreases n,
{
    if n > 0 {
        lemma_le_bound(s, i + 1, (n - 1) as nat);
    }
    if n <= 7 {
        lemma_pow256_mono(n, 7);
    }
    reveal_with_fuel(pow256, 8);
}

/// Appends the decimal digits of `n`.
fn push_digits(out: &mut Vec<TracePiece>, n: u64)
    ensures
        final(out)@ == old(out)@ + digits(n as nat),
    decreases n,
{
    if n >= 10 {
        push_digits(out, n / 10);
    }
    out.push(TracePiece::Char((0x30 + n % 10) as u32));
    proof {
        if n >= 10 {
            assert(final(out)@ =~= old(out)@ + digits(n as nat));
        }
    }
}

/// Formats `fmt` from byte `fi` on, with the arguments from byte `ai` of
/// `args` on, reading `%s` strings from `mem`; see [`tracef`].
pub fn tracef_at(fmt: &[u8], fi: usize, args: &[u8], ai: usize, mem: &[u8]) -> (r: Vec<
    TracePiece,
>)
    ensures
        r@ == trace_from(fmt@, args@, mem@, fi as int, ai as int),
{
    let mut out: Vec<TracePiece> = Vec::new();
    let mut f = fi;
    let mut a = ai;
    while f < fmt.len() && fmt[f] != 0
        invariant
            out@ + trace_from(fmt@, args@, mem@, f as int, a as int) == trace_from(
                fmt@,
                args@,
                mem@,
                fi as int,
                ai as int,
            ),
        decreases fmt@.len() - f,
    {
        let ch = fmt[f];
        if ch != 0x25 {
            out.push(TracePiece::Char(ch as u32));
            f += 1;
            assert(out@ + trace_from(fmt@, args@, mem@, f as int, a as int) =~= trace_from(
                fmt@,
                args@,
                mem@,
                fi as int,
                ai as int,
            ));
            continue;
        }
        if f + 1 >= fmt.len() {
            assert(out@ =~= out@ + trace_from(fmt@, args@, mem@, f as int, a as int));
            return out;
        }
        let spec_byte = fmt[f + 1];
        let ghost done = out@;
        let ghost rest = trace_from(fmt@, args@, mem@, f as int, a as int);
        if spec_byte == 0x63 || spec_byte == 0x64 || spec_byte == 0x78 || spec_byte == 0x73 {
            if a > args.len() || args.len() - a < 4 {
                assert(out@ =~= out@ + rest);
                return out;
            }
            let v = read_le(args, a, 4);
            proof {
                lemma_le_bound(args@, a as int, 4);
            }
            if spec_byte == 0x63 {
                let code: u32 = if v < 0xd800 || (0xe000 <= v && v < 0x11_0000) {
                    v as u32
                } else {
                    0x21
                };
                out.push(TracePiece::Char(code));
                assert(out@ =~= done + seq![TracePiece::Char(char_code(le_bytes(args@, a as int, 4) as u32))]);
            } else if spec_byte == 0x73 {
                if v >= mem.len() as u64 {
                    assert(out@ =~= out@ + rest);
                    return out;
                }
                let mut p: usize = v as usize;
                let ghost start = p;
                proof {
                    assert(out@ + c_string(mem@, p as int) == done + c_string(mem@, start as int));
                }
                while (p as u64) < (mem.len() as u64) && mem[p] != 0
                    invariant
                        out@ + c_string(mem@, p as int) == done + c_string(mem@, start as int),
                        p >= start,
                    decreases mem@.len() - p,
                {
                    out.push(TracePiece::Char(mem[p] as u32));
                    p += 1;
                    assert(out@ + c_string(mem@, p as int) =~= done + c_string(mem@, start as int));
                }
                assert(out@ =~= done + c_string(mem@, start as int));
            } else {
                let n: i64 = if v >= 0x8000_0000 {
                    v as i64 - 0x1_0000_0000
                } else {
                    v as i64
                };
                if n < 0 {
                    out.push(TracePiece::Char(0x2d));
                    push_digits(&mut out, (-n) as u64);
                } else {
                    push_digits(&mut out, n as u64);
                }
                assert(out@ =~= done + decimal(le_i32(args@, a as int)));
            }
            a += 4;
        } else if spec_byte == 0x66 {
            if a > args.len() || args.len() - a < 8 {
                assert(out@ =~= out@ + rest);
                return out;
            }
            let v = read_le(args, a, 8);
            out.push(TracePiece::Float(v));
            assert(out@ =~= done + seq![TracePiece::Float(le_bytes(args@, a as int, 8) as u64)]);
            a += 8;
        } else {
            out.push(TracePiece::Char(spec_byte as u32));
            assert(out@ =~= done + seq![TracePiece::Char(spec_byte as u32)]);
        }
        f += 2;
        assert(out@ + trace_from(fmt@, args@, mem@, f as int, a as int) =~= trace_from(
            fmt@,
            args@,
            mem@,
            fi as int,
            ai as int,
        ));
    }
    assert(out@ =~= out@ + trace_from(fmt@, args@, mem@, f as int, a as int));
    out
}

/// Formats the zero-terminated `fmt` with the little-endian arguments packed
/// in `args`, reading `%s` strings from `mem`.
///
/// Every byte but `%` stands for itself. `%c` takes 4 bytes, a code point
/// (`!` where it is none); `%d` and `%x` take 4 bytes, a signed number
/// written in decimal; `%s` takes 4 bytes, the address in `mem` of a
/// zero-terminated string, read up to its 0 or the end of `mem`; `%f` takes
/// 8 bytes, a 64-bit float. Any other byte after `%` stands for itself.
/// Where the arguments run out, or a `%s` address lies past the end of
/// `mem`, the output ends.
pub fn tracef(fmt: &[u8], args: &[u8], mem: &[u8]) -> (r: Vec<TracePiece>)
    ensures
        r@ == trace_from(fmt@, args@, mem@, 0, 0),
{
    tracef_at(fmt, 0, args, 0, mem)
}

} // verus!
