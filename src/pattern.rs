//! Wildcarded byte patterns: their text form, unique-match scanning and
//! resolution of a match into an address.
use vstd::prelude::*;
use vstd::string::*;
use crate::bytes::{decode_le, le_i32};
use crate::pointer::{PointerChain, PointerWidth};

verus! {

/// Value of a hexadecimal digit, either case.
pub open spec fn hex_digit(c: char) -> Option<u8> {
    if '0' <= c && c <= '9' {
        Some((c as u32 - '0' as u32) as u8)
    } else if 'a' <= c && c <= 'f' {
        Some((c as u32 - 'a' as u32 + 10) as u8)
    } else if 'A' <= c && c <= 'F' {
        Some((c as u32 - 'A' as u32 + 10) as u8)
    } else {
        None
    }
}

/// The token at the start of `s`: `?` is a wildcard, two hex digits a byte.
/// Gives the token's length and its value.
pub open spec fn first_token(s: Seq<char>) -> Option<(nat, Option<u8>)> {
    if s.len() >= 1 && s[0] == '?' {
        Some((1, None))
    } else if s.len() >= 2 && hex_digit(s[0]) is Some && hex_digit(s[1]) is Some {
        Some((2, Some((hex_digit(s[0])->0 * 16 + hex_digit(s[1])->0) as u8)))
    } else {
        None
    }
}

/// The pattern that a text such as `48 8b 05 ? ? ? ?` denotes: tokens
/// separated by single spaces, `None` for a wildcard.
pub open spec fn parse_pattern(s: Seq<char>) -> Option<Seq<Option<u8>>>
    decreases s.len(),
{
    match first_token(s) {
        None => None,
        Some((k, b)) => if s.len() == k {
            Some(seq![b])
        } else if s[k as int] == ' ' {
            match parse_pattern(s.subrange(k as int + 1, s.len() as int)) {
                Some(p) => Some(seq![b] + p),
                None => None,
            }
        } else {
            None
        },
    }
}

pub open spec fn prepend(a: Seq<Option<u8>>, r: Option<Seq<Option<u8>>>) -> Option<Seq<Option<u8>>> {
    match r {
        Some(p) => Some(a + p),
        None => None,
    }
}

fn hex_digit_exec(c: char) -> (r: Option<u8>)
    ensures
        r == hex_digit(c),
{
    if '0' <= c && c <= '9' {
        Some((c as u32 - '0' as u32) as u8)
    } else if 'a' <= c && c <= 'f' {
        Some((c as u32 - 'a' as u32 + 10) as u8)
    } else if 'A' <= c && c <= 'F' {
        Some((c as u32 - 'A' as u32 + 10) as u8)
    } else {
        None
    }
}

/// Parses the text form of a pattern; `None` where the text is not one.
pub fn parse_pattern_text(text: &str) -> (r: Option<Vec<Option<u8>>>)
    ensures
        match r {
            Some(v) => parse_pattern(text@) == Some(v@),
            None => parse_pattern(text@) is None,
        },
{
    let n = text.unicode_len();
    let ghost s = text@;
    let mut out: Vec<Option<u8>> = Vec::new();
    let mut i: usize = 0;
    if n == 0 {
        return None;
    }
    assert(s.subrange(0, n as int) =~= s);
    loop
        invariant
            n == s.len(),
            s == text@,
            i < n,
            parse_pattern(s) == prepend(out@, parse_pattern(s.subrange(i as int, n as int))),
        decreases n - i,
    {
        let ghost rest = s.subrange(i as int, n as int);
        let c = text.get_char(i);
        let tok: Option<u8>;
        let k: usize;
        if c == '?' {
            tok = None;
            k = 1;
        } else if i + 1 < n {
            let c2 = text.get_char(i + 1);
            match (hex_digit_exec(c), hex_digit_exec(c2)) {
                (Some(h), Some(l)) => {
                    tok = Some(h * 16 + l);
                    k = 2;
                },
                _ => {
                    assert(rest[0] == c && rest[1] == c2);
                    assert(first_token(rest) is None);
                    return None;
                },
            }
        } else {
            assert(rest.len() == 1 && rest[0] == c);
            assert(first_token(rest) is None);
            return None;
        }
        assert(first_token(rest) == Some((k as nat, tok)));
        let ghost before = out@;
        out.push(tok);
        if i + k == n {
            assert(parse_pattern(rest) == Some(seq![tok]));
            assert(before + seq![tok] =~= out@);
            return Some(out);
        }
        if text.get_char(i + k) != ' ' || i + k + 1 == n {
            if i + k + 1 == n && text.get_char(i + k) == ' ' {
                let ghost tail = rest.subrange(k as int + 1, rest.len() as int);
                assert(tail.len() == 0);
                assert(first_token(tail) is None);
                assert(parse_pattern(tail) is None);
            }
            assert(rest[k as int] == s[i + k]);
            assert(parse_pattern(rest) is None);
            return None;
        }
        proof {
            let tail = rest.subrange(k as int + 1, rest.len() as int);
            assert(tail =~= s.subrange(i + k + 1, n as int));
            assert(before + (seq![tok] + parse_pattern(tail)->0) =~= out@ + parse_pattern(tail)->0);
        }
        i = i + k + 1;
    }
}

/// Does `p` match `h` at offset `i`? A wildcard matches any byte.
pub open spec fn matches_at(h: Seq<u8>, p: Seq<Option<u8>>, i: int) -> bool {
    &&& 0 <= i
    &&& i + p.len() <= h.len()
    &&& forall|j: int| 0 <= j < p.len() && (#[trigger] p[j]) is Some ==> h[i + j] == p[j]->0
}

/// Why a scan gave no address.
#[derive(Clone, Copy, Debug, PartialEq, Eq, Structural)]
pub enum ScanError {
    /// No offset matches the pattern.
    PatternNotFound,
    /// More than one offset matches the pattern.
    PatternAmbiguous,
    /// The displacement field lies past the end of the scanned region.
    DisplacementOutOfBounds,
    /// The computed address falls outside the 64-bit address space.
    AddressOutOfRange,
}

/// The outcome of a scan: the single matching offset, or why there is none.
pub open spec fn scan_spec(h: Seq<u8>, p: Seq<Option<u8>>) -> Result<usize, ScanError> {
    if exists|i: int, j: int| i != j && matches_at(h, p, i) && matches_at(h, p, j) {
        Err(ScanError::PatternAmbiguous)
    } else if exists|i: int| matches_at(h, p, i) {
        Ok((choose|i: int| matches_at(h, p, i)) as usize)
    } else {
        Err(ScanError::PatternNotFound)
    }
}

/// A scan finds the offset of a pattern that occurs exactly once; it
/// reports a pattern that never occurs as not found, and one that occurs at
/// two offsets as ambiguous.
pub proof fn lemma_scan_outcomes(h: Seq<u8>, p: Seq<Option<u8>>, i: int, j: int)
    ensures
        matches_at(h, p, i) && (forall|k: int| #[trigger] matches_at(h, p, k) ==> k == i) ==> scan_spec(h, p)
            == Ok::<usize, ScanError>(i as usize),
        (forall|k: int| !#[trigger] matches_at(h, p, k)) ==> scan_spec(h, p) == Err::<usize, ScanError>(
            ScanError::PatternNotFound,
        ),
        i != j && matches_at(h, p, i) && matches_at(h, p, j) ==> scan_spec(h, p) == Err::<usize, ScanError>(
            ScanError::PatternAmbiguous,
        ),
{
    if matches_at(h, p, i) && (forall|k: int| #[trigger] matches_at(h, p, k) ==> k == i) {
        let c = choose|k: int| matches_at(h, p, k);
        assert(c == i);
    }
}

fn matches_at_exec(h: &[u8], p: &Vec<Option<u8>>, i: usize) -> (r: bool)
    requires
        i + p@.len() <= h@.len(),
    ensures
        r == matches_at(h@, p@, i as int),
{
    let hl = h.len();
    let mut j: usize = 0;
    while j < p.len()
        invariant
            i + p@.len() <= h@.len(),
            hl == h@.len(),
            j <= p@.len(),
            forall|t: int| 0 <= t < j && (#[trigger] p@[t]) is Some ==> h@[i + t] == p@[t]->0,
        decreases p@.len() - j,
    {
        match p[j] {
            Some(b) => {
                if h[i + j] != b {
                    return false;
                }
            },
            None => {},
        }
        j = j + 1;
    }
    true
}

/// What a scan has learned about the offsets below `upto`: the one match
/// among them, if any.
pub open spec fn scanned_below(h: Seq<u8>, p: Seq<Option<u8>>, found: Option<usize>, upto: int) -> bool {
    match found {
        Some(f) => f < upto && matches_at(h, p, f as int) && forall|t: int|
            0 <= t < upto && #[trigger] matches_at(h, p, t) ==> t == f,
        None => forall|t: int| 0 <= t < upto ==> !#[trigger] matches_at(h, p, t),
    }
}

/// Finds the one offset of `haystack` at which `pattern` matches. Zero
/// matches and more than one match are both errors.
pub fn scan(haystack: &[u8], pattern: &Vec<Option<u8>>) -> (r: Result<usize, ScanError>)
    ensures
        r == scan_spec(haystack@, pattern@),
        r matches Ok(i) ==> matches_at(haystack@, pattern@, i as int),
{
    let hl = haystack.len();
    let pl = pattern.len();
    if pl > hl {
        assert(forall|i: int| !matches_at(haystack@, pattern@, i));
        return Err(ScanError::PatternNotFound);
    }
    let last = hl - pl;
    let mut found: Option<usize> = None;
    let mut i: usize = 0;
    loop
        invariant_except_break
            scanned_below(haystack@, pattern@, found, i as int),
        invariant
            hl == haystack@.len(),
            pl == pattern@.len(),
            last == hl - pl,
            i <= last,
        ensures
            scanned_below(haystack@, pattern@, found, last + 1),
        decreases last - i,
    {
        if matches_at_exec(haystack, pattern, i) {
            match found {
                Some(f) => {
                    assert(f != i && matches_at(haystack@, pattern@, f as int) && matches_at(
                        haystack@,
                        pattern@,
                        i as int,
                    ));
                    return Err(ScanError::PatternAmbiguous);
                },
                None => {
                    found = Some(i);
                },
            }
        }
        if i == last {
            break;
        }
        i = i + 1;
    }
    assert(forall|t: int| t > last ==> !#[trigger] matches_at(haystack@, pattern@, t));
    match found {
        Some(f) => {
            assert(!exists|a: int, b: int|
                a != b && matches_at(haystack@, pattern@, a) && matches_at(haystack@, pattern@, b));
            let ghost c = choose|t: int| matches_at(haystack@, pattern@, t);
            assert(c == f);
            Ok(f)
        },
        None => Err(ScanError::PatternNotFound),
    }
}

/// How the address of a pattern's match becomes the address it names.
#[derive(Clone, Copy, Debug, PartialEq, Eq, Structural)]
pub enum ResolveMode {
    /// The address is the match plus `scan_offset`.
    Absolute { scan_offset: u64 },
    /// The match is an instruction with a signed 32-bit displacement at
    /// `displacement_offset`; the address is the end of the instruction
    /// plus the displacement.
    RelativeDisplacement { displacement_offset: u64, instruction_length: u64 },
}

/// A labelled pattern, the way its match is resolved, and the offsets
/// walked from the resolved address.
pub struct ScanPattern {
    pub label: String,
    pub bytes: Vec<Option<u8>>,
    pub mode: ResolveMode,
    pub offsets: Vec<u64>,
}

/// The address named by the match at offset `m` of a module loaded at
/// `base` whose bytes are `module`.
pub open spec fn resolve_match(module: Seq<u8>, base: int, m: int, mode: ResolveMode) -> Result<int, ScanError> {
    match mode {
        ResolveMode::Absolute { scan_offset } => {
            let a = base + m + scan_offset;
            if a <= u64::MAX {
                Ok(a)
            } else {
                Err(ScanError::AddressOutOfRange)
            }
        },
        ResolveMode::RelativeDisplacement { displacement_offset, instruction_length } => {
            let d = m + displacement_offset;
            if d + 4 > module.len() {
                Err(ScanError::DisplacementOutOfBounds)
            } else {
                let t = base + m + instruction_length + le_i32(module.subrange(d, d + 4));
                if 0 <= t <= u64::MAX {
                    Ok(t)
                } else {
                    Err(ScanError::AddressOutOfRange)
                }
            }
        },
    }
}

/// The address that pattern `p` resolves to in `module` loaded at `base`.
pub open spec fn resolve_spec(module: Seq<u8>, base: int, p: Seq<Option<u8>>, mode: ResolveMode) -> Result<int, ScanError> {
    match scan_spec(module, p) {
        Ok(m) => resolve_match(module, base, m as int, mode),
        Err(e) => Err(e),
    }
}

/// Resolves the match at offset `m` into an address.
pub fn resolve_match_exec(module: &[u8], base: u64, m: usize, mode: ResolveMode) -> (r: Result<u64, ScanError>)
    ensures
        match r {
            Ok(a) => resolve_match(module@, base as int, m as int, mode) == Ok::<int, ScanError>(a as int),
            Err(e) => resolve_match(module@, base as int, m as int, mode) == Err::<int, ScanError>(e),
        },
{
    match mode {
        ResolveMode::Absolute { scan_offset } => {
            let a: u128 = base as u128 + m as u128 + scan_offset as u128;
            if a <= u64::MAX as u128 {
                Ok(a as u64)
            } else {
                Err(ScanError::AddressOutOfRange)
            }
        },
        ResolveMode::RelativeDisplacement { displacement_offset, instruction_length } => {
            let d: u128 = m as u128 + displacement_offset as u128;
            if d + 4 > module.len() as u128 {
                return Err(ScanError::DisplacementOutOfBounds);
            }
            let du = d as usize;
            let raw = decode_le(module, du, 4);
            proof {
                crate::bytes::lemma_le_value_bound(module@.subrange(du as int, du + 4));
                reveal_with_fuel(crate::bytes::pow256, 5);
            }
            let end: u128 = base as u128 + m as u128 + instruction_length as u128;
            let t: u128;
            if raw >= 0x8000_0000 {
                let back: u128 = 0x1_0000_0000u128 - raw as u128;
                if end < back {
                    return Err(ScanError::AddressOutOfRange);
                }
                t = end - back;
            } else {
                t = end + raw as u128;
            }
            if t <= u64::MAX as u128 {
                Ok(t as u64)
            } else {
                Err(ScanError::AddressOutOfRange)
            }
        },
    }
}

impl ScanPattern {
    /// Resolves the pattern against a module's bytes: the single match,
    /// turned into an address, with the pattern's offsets attached.
    pub fn resolve(&self, module: &[u8], module_base: u64, width: PointerWidth) -> (r: Result<PointerChain, ScanError>)
        ensures
            match r {
                Ok(c) => resolve_spec(module@, module_base as int, self.bytes@, self.mode)
                    == Ok::<int, ScanError>(c.base as int) && c.offsets@ == self.offsets@ && c.width == width,
                Err(e) => resolve_spec(module@, module_base as int, self.bytes@, self.mode) == Err::<int, ScanError>(e),
            },
    {
        match scan(module, &self.bytes) {
            Ok(m) => match resolve_match_exec(module, module_base, m, self.mode) {
                Ok(a) => Ok(PointerChain { base: a, offsets: copy_offsets(&self.offsets), width }),
                Err(e) => Err(e),
            },
            Err(e) => Err(e),
        }
    }
}

/// A copy of a list of offsets.
pub fn copy_offsets(v: &Vec<u64>) -> (r: Vec<u64>)
    ensures
        r@ == v@,
{
    let mut r: Vec<u64> = Vec::new();
    let mut i: usize = 0;
    while i < v.len()
        invariant
            i <= v@.len(),
            r@ == v@.subrange(0, i as int),
        decreases v@.len() - i,
    {
        r.push(v[i]);
        i = i + 1;
        assert(r@ =~= v@.subrange(0, i as int));
    }
    assert(v@.subrange(0, i as int) =~= v@);
    r
}

} // verus!
