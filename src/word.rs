//! Words, the register/literal address split and the modular arithmetic of
//! the instruction set.

use vstd::prelude::*;

verus! {

/// Number of distinct word values; all arithmetic is taken modulo this.
pub const MODULUS: u16 = 32768;

/// First address that names a register rather than a literal.
pub const REGISTER_BASE: u16 = 32768;

/// Number of registers.
pub const REGISTER_COUNT: usize = 8;

/// Last valid register address.
pub const LAST_REGISTER: u16 = 32775;

/// An operand that is either a literal (0..=32767) or a register (32768..=32775).
pub open spec fn valid_operand(x: u16) -> bool {
    x <= LAST_REGISTER
}

/// An address that names one of the eight registers.
pub open spec fn is_register(x: u16) -> bool {
    REGISTER_BASE <= x <= LAST_REGISTER
}

/// The register index an address names.
pub open spec fn register_index(x: u16) -> int {
    x - REGISTER_BASE
}

/// The value an operand denotes: the literal itself, or the register's contents.
pub open spec fn value_of(regs: Seq<u16>, x: u16) -> u16 {
    if x < REGISTER_BASE {
        x
    } else {
        regs[register_index(x)]
    }
}

pub open spec fn add_spec(x: u16, y: u16) -> u16 {
    ((x + y) % 32768) as u16
}

pub open spec fn mult_spec(x: u16, y: u16) -> u16 {
    ((x * y) % 32768) as u16
}

pub open spec fn mod_spec(x: u16, y: u16) -> u16
    recommends
        y != 0,
{
    (x % y) as u16
}

pub open spec fn and_spec(x: u16, y: u16) -> u16 {
    ((x & y) % 32768) as u16
}

pub open spec fn or_spec(x: u16, y: u16) -> u16 {
    ((x | y) % 32768) as u16
}

/// Sixteen-bit complement, reduced modulo 32768.
pub open spec fn not_spec(x: u16) -> u16 {
    ((0xFFFFu16 - x) % 32768) as u16
}

pub open spec fn eq_spec(x: u16, y: u16) -> u16 {
    if x == y {
        1
    } else {
        0
    }
}

pub open spec fn gt_spec(x: u16, y: u16) -> u16 {
    if x > y {
        1
    } else {
        0
    }
}

/// `(x + y) mod 32768`.
pub fn add_words(x: u16, y: u16) -> (r: u16)
    ensures
        r == add_spec(x, y),
        r < MODULUS,
{
    ((x as u32 + y as u32) % 32768) as u16
}

/// `(x * y) mod 32768`.
pub fn mult_words(x: u16, y: u16) -> (r: u16)
    ensures
        r == mult_spec(x, y),
        r < MODULUS,
{
    assert(x as u32 * y as u32 <= 65535u32 * 65535u32) by (nonlinear_arith);
    ((x as u32 * y as u32) % 32768) as u16
}

/// `x mod y`.
pub fn mod_words(x: u16, y: u16) -> (r: u16)
    requires
        y != 0,
    ensures
        r == mod_spec(x, y),
{
    x % y
}

/// Bitwise and, reduced modulo 32768.
pub fn and_words(x: u16, y: u16) -> (r: u16)
    ensures
        r == and_spec(x, y),
{
    (x & y) % 32768
}

/// Bitwise or, reduced modulo 32768.
pub fn or_words(x: u16, y: u16) -> (r: u16)
    ensures
        r == or_spec(x, y),
{
    (x | y) % 32768
}

/// Sixteen-bit complement, reduced modulo 32768.
pub fn not_word(x: u16) -> (r: u16)
    ensures
        r == not_spec(x),
{
    (0xFFFFu16 - x) % 32768
}

} // verus!
