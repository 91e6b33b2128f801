//! LEB128 variable-length integers: the unsigned form used for every
//! count, size and index field, and the signed form used for the
//! `I32Const` immediate. A varint is malformed when its continuation
//! bits never terminate inside the width's byte budget or when the
//! encoded value overflows the target width.

use crate::error::FormatError;
use vstd::prelude::*;

verus! {

/// The positional weight `128^k` of the `k`-th varint byte, for the five
/// byte positions a 32-bit varint can occupy.
pub open spec fn chunk_weight(k: nat) -> int {
    if k == 0 {
        1
    } else if k == 1 {
        0x80
    } else if k == 2 {
        0x4000
    } else if k == 3 {
        0x20_0000
    } else {
        0x1000_0000
    }
}

/// The largest value an unsigned 32-bit varint can still encode from byte
/// position `k` on.
pub open spec fn leb_u32_tail_bound(k: nat) -> int {
    if k == 0 {
        0xffff_ffff
    } else if k == 1 {
        0xffff_ff80
    } else if k == 2 {
        0xffff_c000
    } else if k == 3 {
        0xffe0_0000
    } else {
        0xf000_0000
    }
}

/// Decodes an unsigned 32-bit varint whose `k`-th byte sits at `pos`:
/// the value and the position just past it, or `None` when the input
/// ends, a sixth byte would be needed, or the value overflows 32 bits.
pub open spec fn spec_leb_u32(s: Seq<u8>, pos: int, k: nat) -> Option<(int, int)>
    decreases 5 - k,
{
    if k >= 5 {
        None
    } else if !(0 <= pos < s.len()) {
        None
    } else {
        let b = s[pos];
        let low = (b & 0x7f) as int;
        if b < 0x80 {
            if k == 4 && low >= 16 {
                None
            } else {
                Some((low * chunk_weight(k), pos + 1))
            }
        } else {
            match spec_leb_u32(s, pos + 1, (k + 1) as nat) {
                None => None,
                Some((v, p)) => Some((low * chunk_weight(k) + v, p)),
            }
        }
    }
}

/// A decoded unsigned varint fits in 32 bits and consumes at least one
/// byte without running past the input.
pub proof fn lemma_leb_u32_bounds(s: Seq<u8>, pos: int, k: nat)
    ensures
        spec_leb_u32(s, pos, k) matches Some((v, p)) ==> {
            &&& 0 <= v <= leb_u32_tail_bound(k)
            &&& v <= 0xffff_ffff
            &&& pos < p <= s.len()
        },
    decreases 5 - k,
{
    if k < 5 && 0 <= pos < s.len() {
        let b = s[pos];
        assert((b & 0x7f) < 0x80) by (bit_vector);
        if b >= 0x80 {
            lemma_leb_u32_bounds(s, pos + 1, (k + 1) as nat);
        }
    }
}

/// Reads an unsigned 32-bit varint whose `k`-th byte sits at `pos`.
/// Returns the decoded value and the position just past it.
pub fn leb_u32_at(bytes: &Vec<u8>, pos: usize, k: u64) -> (r: Result<(u64, usize), FormatError>)
    requires
        k <= 4,
    ensures
        match r {
            Ok((v, p)) => spec_leb_u32(bytes@, pos as int, k as nat) == Some::<(int, int)>(
                (v as int, p as int),
            ),
            Err(e) => spec_leb_u32(bytes@, pos as int, k as nat) is None && e
                == FormatError::MalformedVarint,
        },
    decreases 5 - k,
{
    proof {
        lemma_leb_u32_bounds(bytes@, pos as int, k as nat);
    }
    if pos >= bytes.len() {
        return Err(FormatError::MalformedVarint);
    }
    let b = bytes[pos];
    let low: u64 = (b & 0x7f) as u64;
    let weight: u64 = match k {
        0 => 1,
        1 => 0x80,
        2 => 0x4000,
        3 => 0x20_0000,
        _ => 0x1000_0000,
    };
    if b < 0x80 {
        if k == 4 && low >= 16 {
            Err(FormatError::MalformedVarint)
        } else {
            Ok((low * weight, pos + 1))
        }
    } else {
        if k == 4 {
            proof {
                assert(spec_leb_u32(bytes@, pos as int + 1, 5) is None);
            }
            return Err(FormatError::MalformedVarint);
        }
        proof {
            lemma_leb_u32_bounds(bytes@, pos as int + 1, (k + 1) as nat);
        }
        match leb_u32_at(bytes, pos + 1, k + 1) {
            Ok((v, p)) => Ok((low * weight + v, p)),
            Err(e) => Err(e),
        }
    }
}

/// Reads a whole unsigned 32-bit varint starting at `pos`.
pub fn read_u32(bytes: &Vec<u8>, pos: usize) -> (r: Result<(u32, usize), FormatError>)
    ensures
        match r {
            Ok((v, p)) => spec_leb_u32(bytes@, pos as int, 0) == Some::<(int, int)>(
                (v as int, p as int),
            ) && pos < p <= bytes@.len(),
            Err(e) => spec_leb_u32(bytes@, pos as int, 0) is None && e
                == FormatError::MalformedVarint,
        },
{
    proof {
        lemma_leb_u32_bounds(bytes@, pos as int, 0);
    }
    match leb_u32_at(bytes, pos, 0) {
        Ok((v, p)) => Ok((v as u32, p)),
        Err(e) => Err(e),
    }
}

/// The largest value a signed 32-bit varint can still encode from byte
/// position `k` on.
pub open spec fn leb_i32_hi_bound(k: nat) -> int {
    if k == 0 {
        0x7fff_ffff
    } else if k == 1 {
        0x7fff_ff80
    } else if k == 2 {
        0x7fff_c000
    } else if k == 3 {
        0x7fe0_0000
    } else {
        0x7000_0000
    }
}

/// Decodes a signed 32-bit varint whose `k`-th byte sits at `pos`. The
/// terminal byte's bit 6 is the sign: a set sign bit makes that chunk
/// negative, which sign-extends the value.
pub open spec fn spec_leb_i32(s: Seq<u8>, pos: int, k: nat) -> Option<(int, int)>
    decreases 5 - k,
{
    if k >= 5 {
        None
    } else if !(0 <= pos < s.len()) {
        None
    } else {
        let b = s[pos];
        let low = (b & 0x7f) as int;
        if b < 0x80 {
            if k == 4 && !(low < 8 || low >= 120) {
                None
            } else {
                let chunk = if low >= 64 {
                    low - 128
                } else {
                    low
                };
                Some((chunk * chunk_weight(k), pos + 1))
            }
        } else {
            match spec_leb_i32(s, pos + 1, (k + 1) as nat) {
                None => None,
                Some((v, p)) => Some((low * chunk_weight(k) + v, p)),
            }
        }
    }
}

/// A decoded signed varint fits in 32 bits and consumes at least one
/// byte without running past the input.
pub proof fn lemma_leb_i32_bounds(s: Seq<u8>, pos: int, k: nat)
    ensures
        spec_leb_i32(s, pos, k) matches Some((v, p)) ==> {
            &&& -0x8000_0000 <= v <= leb_i32_hi_bound(k)
            &&& pos < p <= s.len()
        },
    decreases 5 - k,
{
    if k < 5 && 0 <= pos < s.len() {
        let b = s[pos];
        assert((b & 0x7f) < 0x80) by (bit_vector);
        if b >= 0x80 {
            lemma_leb_i32_bounds(s, pos + 1, (k + 1) as nat);
        }
    }
}

/// Reads a signed 32-bit varint whose `k`-th byte sits at `pos`, as the
/// mathematically exact 64-bit value.
pub fn leb_i32_at(bytes: &Vec<u8>, pos: usize, k: u64) -> (r: Result<(i64, usize), FormatError>)
    requires
        k <= 4,
    ensures
        match r {
            Ok((v, p)) => spec_leb_i32(bytes@, pos as int, k as nat) == Some::<(int, int)>(
                (v as int, p as int),
            ),
            Err(e) => spec_leb_i32(bytes@, pos as int, k as nat) is None && e
                == FormatError::MalformedVarint,
        },
    decreases 5 - k,
{
    proof {
        lemma_leb_i32_bounds(bytes@, pos as int, k as nat);
    }
    if pos >= bytes.len() {
        return Err(FormatError::MalformedVarint);
    }
    let b = bytes[pos];
    let low: i64 = (b & 0x7f) as i64;
    let weight: i64 = match k {
        0 => 1,
        1 => 0x80,
        2 => 0x4000,
        3 => 0x20_0000,
        _ => 0x1000_0000,
    };
    if b < 0x80 {
        if k == 4 && !(low < 8 || low >= 120) {
            Err(FormatError::MalformedVarint)
        } else {
            let chunk: i64 = if low >= 64 {
                low - 128
            } else {
                low
            };
            Ok((chunk * weight, pos + 1))
        }
    } else {
        if k == 4 {
            proof {
                assert(spec_leb_i32(bytes@, pos as int + 1, 5) is None);
            }
            return Err(FormatError::MalformedVarint);
        }
        proof {
            lemma_leb_i32_bounds(bytes@, pos as int + 1, (k + 1) as nat);
        }
        match leb_i32_at(bytes, pos + 1, k + 1) {
            Ok((v, p)) => Ok((low * weight + v, p)),
            Err(e) => Err(e),
        }
    }
}

/// Reads a whole signed 32-bit varint starting at `pos`, sign-extended
/// into an `i32`.
pub fn read_i32(bytes: &Vec<u8>, pos: usize) -> (r: Result<(i32, usize), FormatError>)
    ensures
        match r {
            Ok((v, p)) => spec_leb_i32(bytes@, pos as int, 0) == Some::<(int, int)>(
                (v as int, p as int),
            ) && pos < p <= bytes@.len(),
            Err(e) => spec_leb_i32(bytes@, pos as int, 0) is None && e
                == FormatError::MalformedVarint,
        },
{
    proof {
        lemma_leb_i32_bounds(bytes@, pos as int, 0);
    }
    match leb_i32_at(bytes, pos, 0) {
        Ok((v, p)) => Ok((v as i32, p)),
        Err(e) => Err(e),
    }
}

} // verus!
