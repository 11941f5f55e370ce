//! Textual module descriptions for the display list: one line per module,
//! `"<Kind>, <frequency> hz"`, with the frequency in whole hertz and a
//! three-digit millihertz fraction when it is not whole.
//!
//! The description is built as a character vector; the display side turns
//! it into whatever string form its widgets want.

use vstd::prelude::*;
use vstd::arithmetic::div_mod::lemma_div_decreases;
use crate::module::{Module, ModuleKind};

verus! {

/// The character of one decimal digit.
pub open spec fn spec_digit(d: int) -> char {
    if d == 0 {
        '0'
    } else if d == 1 {
        '1'
    } else if d == 2 {
        '2'
    } else if d == 3 {
        '3'
    } else if d == 4 {
        '4'
    } else if d == 5 {
        '5'
    } else if d == 6 {
        '6'
    } else if d == 7 {
        '7'
    } else if d == 8 {
        '8'
    } else {
        '9'
    }
}

/// The decimal digits of `n`, most significant first, no leading zeros
/// (a single `'0'` for zero).
pub open spec fn spec_digits(n: nat) -> Seq<char>
    decreases n,
{
    if n < 10 {
        seq![spec_digit(n as int)]
    } else {
        spec_digits(n / 10).push(spec_digit((n % 10) as int))
    }
}

/// The digit character of `d`, for `d < 10`.
fn digit_char(d: u64) -> (c: char)
    requires
        d < 10,
    ensures
        c == spec_digit(d as int),
{
    match d {
        0 => '0',
        1 => '1',
        2 => '2',
        3 => '3',
        4 => '4',
        5 => '5',
        6 => '6',
        7 => '7',
        8 => '8',
        _ => '9',
    }
}

/// Append the decimal digits of `n` to `out`.
pub fn push_digits(out: &mut Vec<char>, n: u64)
    ensures
        final(out)@ == old(out)@ + spec_digits(n as nat),
{
    let ghost base = out@;
    let mut rev: Vec<char> = Vec::new();
    let mut x: u64 = n;
    proof {
        assert(rev@.reverse() =~= Seq::<char>::empty());
        assert(spec_digits(x as nat) + rev@.reverse() =~= spec_digits(n as nat));
    }
    while x >= 10
        invariant
            spec_digits(n as nat) == spec_digits(x as nat) + rev@.reverse(),
        decreases x,
    {
        let ghost x0 = x as nat;
        let ghost rev0 = rev@;
        let d: u64 = x % 10;
        let c = digit_char(d);
        rev.push(c);
        proof {
            lemma_div_decreases(x as int, 10);
        }
        x = x / 10;
        proof {
            assert(rev@.reverse() =~= seq![c] + rev0.reverse());
            assert(spec_digits(x0) == spec_digits(x0 / 10).push(spec_digit((x0 % 10) as int)));
            assert(spec_digits(x0 / 10).push(c) =~= spec_digits(x0 / 10) + seq![c]);
            assert(spec_digits(x as nat) + rev@.reverse() =~= (spec_digits(x0 / 10) + seq![c])
                + rev0.reverse());
            assert((spec_digits(x0 / 10) + seq![c]) + rev0.reverse() =~= spec_digits(x0)
                + rev0.reverse());
        }
    }
    let c = digit_char(x);
    out.push(c);
    proof {
        assert(spec_digits(x as nat) =~= seq![c]);
        assert(out@ =~= base + seq![c]);
    }
    let mut j: usize = rev.len();
    proof {
        assert(rev@.skip(j as int).reverse() =~= Seq::<char>::empty());
        assert(out@ =~= base + seq![c] + rev@.skip(j as int).reverse());
    }
    while j > 0
        invariant
            j <= rev@.len(),
            out@ == base + seq![c] + rev@.skip(j as int).reverse(),
        decreases j,
    {
        j -= 1;
        out.push(rev[j]);
        proof {
            assert(rev@.skip(j as int).reverse() =~= rev@.skip((j as int) + 1).reverse().push(
                rev@[j as int],
            ));
            assert(out@ =~= base + seq![c] + rev@.skip(j as int).reverse());
        }
    }
    proof {
        assert(rev@.skip(0).reverse() =~= rev@.reverse());
        assert(base + seq![c] + rev@.reverse() =~= base + (seq![c] + rev@.reverse()));
        assert(seq![c] + rev@.reverse() =~= spec_digits(n as nat));
    }
}

/// The display name of a module kind.
pub open spec fn spec_kind_chars(k: ModuleKind) -> Seq<char> {
    match k {
        ModuleKind::Oscillator => seq!['O', 's', 'c', 'i', 'l', 'l', 'a', 't', 'o', 'r'],
        ModuleKind::Amplifier => seq!['A', 'm', 'p', 'l', 'i', 'f', 'i', 'e', 'r'],
        ModuleKind::Filter => seq!['F', 'i', 'l', 't', 'e', 'r'],
    }
}

/// The frequency, millihertz turned into whole hertz plus, when the
/// fraction is not zero, a point and exactly three fraction digits.
pub open spec fn spec_freq_chars(freq_mhz: u32) -> Seq<char> {
    let hz = (freq_mhz as nat) / 1000;
    let frac = (freq_mhz as nat) % 1000;
    if frac == 0 {
        spec_digits(hz)
    } else {
        spec_digits(hz) + seq!['.', spec_digit((frac / 100) as int), spec_digit(
            ((frac / 10) % 10) as int,
        ), spec_digit((frac % 10) as int)]
    }
}

/// One display line for a module: its kind's name, a comma, its
/// frequency, and the unit.
pub open spec fn spec_describe(m: Module) -> Seq<char> {
    spec_kind_chars(m.kind) + seq![',', ' '] + spec_freq_chars(m.freq_mhz) + seq![' ', 'h', 'z']
}

/// Append the kind's display name.
fn push_kind(out: &mut Vec<char>, k: ModuleKind)
    ensures
        final(out)@ == old(out)@ + spec_kind_chars(k),
{
    let ghost base = out@;
    match k {
        ModuleKind::Oscillator => {
            out.push('O');
            out.push('s');
            out.push('c');
            out.push('i');
            out.push('l');
            out.push('l');
            out.push('a');
            out.push('t');
            out.push('o');
            out.push('r');
        },
        ModuleKind::Amplifier => {
            out.push('A');
            out.push('m');
            out.push('p');
            out.push('l');
            out.push('i');
            out.push('f');
            out.push('i');
            out.push('e');
            out.push('r');
        },
        ModuleKind::Filter => {
            out.push('F');
            out.push('i');
            out.push('l');
            out.push('t');
            out.push('e');
            out.push('r');
        },
    }
    proof {
        assert(out@ =~= base + spec_kind_chars(k));
    }
}

/// Build the display line for one module.
pub fn describe_module(m: &Module) -> (r: Vec<char>)
    ensures
        r@ == spec_describe(*m),
{
    let mut r: Vec<char> = Vec::new();
    push_kind(&mut r, m.kind);
    r.push(',');
    r.push(' ');
    let ghost with_sep = r@;
    proof {
        assert(with_sep =~= spec_kind_chars(m.kind) + seq![',', ' ']);
    }
    let hz: u32 = m.freq_mhz / 1000;
    let frac: u32 = m.freq_mhz % 1000;
    push_digits(&mut r, hz as u64);
    if frac > 0 {
        r.push('.');
        let f = frac as u64;
        r.push(digit_char(f / 100));
        r.push(digit_char((f / 10) % 10));
        r.push(digit_char(f % 10));
    }
    proof {
        assert(r@ =~= with_sep + spec_freq_chars(m.freq_mhz));
    }
    r.push(' ');
    r.push('h');
    r.push('z');
    proof {
        assert(r@ =~= spec_describe(*m));
    }
    r
}

/// The display list for a whole chain: one line per module, in chain
/// order — what the display side shows beside the chart.
pub fn describe_all(ms: &Vec<Module>) -> (r: Vec<Vec<char>>)
    ensures
        r@.len() == ms@.len(),
        forall|i: int| 0 <= i < ms@.len() ==> (#[trigger] r@[i])@ == spec_describe(ms@[i]),
{
    let mut r: Vec<Vec<char>> = Vec::new();
    let mut i: usize = 0;
    while i < ms.len()
        invariant
            i <= ms@.len(),
            r@.len() == i,
            forall|k: int| 0 <= k < i ==> (#[trigger] r@[k])@ == spec_describe(ms@[k]),
        decreases ms@.len() - i,
    {
        let line = describe_module(&ms[i]);
        r.push(line);
        i += 1;
    }
    r
}

} // verus!
