//! Character-level helpers: whitespace trimming, radix-10 and radix-16
//! unsigned parsing, and comma splitting, each with an exact specification.

use vstd::prelude::*;

verus! {

/// Whether `c` carries the Unicode `White_Space` property, the set the
/// standard library's `str::trim` removes.
pub open spec fn spec_is_space(c: char) -> bool {
    ||| c as u32 == 0x09
    ||| c as u32 == 0x0A
    ||| c as u32 == 0x0B
    ||| c as u32 == 0x0C
    ||| c as u32 == 0x0D
    ||| c as u32 == 0x20
    ||| c as u32 == 0x85
    ||| c as u32 == 0xA0
    ||| c as u32 == 0x1680
    ||| (0x2000 <= c as u32 && c as u32 <= 0x200A)
    ||| c as u32 == 0x2028
    ||| c as u32 == 0x2029
    ||| c as u32 == 0x202F
    ||| c as u32 == 0x205F
    ||| c as u32 == 0x3000
}

/// Whether `c` carries the Unicode `White_Space` property.
pub fn is_space(c: char) -> (r: bool)
    ensures
        r == spec_is_space(c),
{
    let v = c as u32;
    v == 0x09 || v == 0x0A || v == 0x0B || v == 0x0C || v == 0x0D || v == 0x20 || v == 0x85 || v
        == 0xA0 || v == 0x1680 || (0x2000 <= v && v <= 0x200A) || v == 0x2028 || v == 0x2029 || v
        == 0x202F || v == 0x205F || v == 0x3000
}

/// `s` without its leading whitespace.
pub open spec fn spec_trim_start(s: Seq<char>) -> Seq<char>
    decreases s.len(),
{
    if s.len() > 0 && spec_is_space(s[0]) {
        spec_trim_start(s.drop_first())
    } else {
        s
    }
}

/// `s` without its trailing whitespace.
pub open spec fn spec_trim_end(s: Seq<char>) -> Seq<char>
    decreases s.len(),
{
    if s.len() > 0 && spec_is_space(s.last()) {
        spec_trim_end(s.drop_last())
    } else {
        s
    }
}

/// `s` without its leading and trailing whitespace.
pub open spec fn spec_trim(s: Seq<char>) -> Seq<char> {
    spec_trim_end(spec_trim_start(s))
}

/// A trimmed-at-the-start sequence does not start with whitespace.
proof fn lemma_trim_start_head(s: Seq<char>)
    ensures
        spec_trim_start(s).len() > 0 ==> !spec_is_space(spec_trim_start(s)[0]),
    decreases s.len(),
{
    if s.len() > 0 && spec_is_space(s[0]) {
        lemma_trim_start_head(s.drop_first());
    }
}

/// A trimmed-at-the-end sequence does not end with whitespace, and keeps its
/// first character.
proof fn lemma_trim_end_props(s: Seq<char>)
    ensures
        spec_trim_end(s).len() > 0 ==> !spec_is_space(spec_trim_end(s).last()),
        spec_trim_end(s).len() > 0 ==> spec_trim_end(s)[0] == s[0],
    decreases s.len(),
{
    if s.len() > 0 && spec_is_space(s.last()) {
        lemma_trim_end_props(s.drop_last());
    }
}

/// Trimming is idempotent: a trimmed sequence trims to itself.
pub proof fn lemma_trim_idempotent(s: Seq<char>)
    ensures
        spec_trim(spec_trim(s)) == spec_trim(s),
{
    let t = spec_trim(s);
    lemma_trim_start_head(s);
    lemma_trim_end_props(spec_trim_start(s));
    if t.len() > 0 {
        assert(!spec_is_space(t[0]));
        assert(!spec_is_space(t.last()));
        assert(spec_trim_start(t) == t);
        assert(spec_trim_end(t) == t);
    } else {
        assert(spec_trim_start(t) == t);
        assert(spec_trim_end(t) == t);
    }
}

/// Returns `s` without leading and trailing whitespace, as `str::trim` does.
pub fn trim(s: &str) -> (r: &str)
    ensures
        r@ == spec_trim(s@),
{
    let n = s.unicode_len();
    proof {
        assert(s@.subrange(0, n as int) =~= s@);
    }
    let mut a: usize = 0;
    while a < n && is_space(s.get_char(a))
        invariant
            0 <= a <= n == s@.len(),
            spec_trim_start(s@) == spec_trim_start(s@.subrange(a as int, n as int)),
        decreases n - a,
    {
        proof {
            assert(s@.subrange(a as int, n as int).drop_first() =~= s@.subrange(
                a as int + 1,
                n as int,
            ));
        }
        a = a + 1;
    }
    proof {
        assert(spec_trim_start(s@) == s@.subrange(a as int, n as int));
    }
    let mut b: usize = n;
    while b > a && is_space(s.get_char(b - 1))
        invariant
            0 <= a <= b <= n == s@.len(),
            spec_trim_start(s@) == s@.subrange(a as int, n as int),
            spec_trim_end(spec_trim_start(s@)) == spec_trim_end(
                s@.subrange(a as int, b as int),
            ),
        decreases b,
    {
        proof {
            assert(s@.subrange(a as int, b as int).drop_last() =~= s@.subrange(
                a as int,
                b as int - 1,
            ));
            assert(s@.subrange(a as int, b as int).last() == s@[b as int - 1]);
        }
        b = b - 1;
    }
    proof {
        assert(spec_trim(s@) == s@.subrange(a as int, b as int));
    }
    s.substring_char(a, b)
}

/// Why an unsigned integer failed to parse, mirroring the standard
/// library's error kinds and their messages.
#[derive(Debug, Clone, Copy, PartialEq, Eq, Structural)]
pub enum ParseFailure {
    /// The input was empty.
    Empty,
    /// A character was not a digit of the requested radix (a lone sign
    /// counts as this, as it leaves no digits).
    InvalidDigit,
    /// The digits denote a value above `u32::MAX`.
    Overflow,
}

/// The numeric value of `c` as a digit (`0`-`9`, `a`-`z`, `A`-`Z`), or 36
/// for any other character, so that every digit of a radix up to 36 has a
/// value below the radix and every non-digit does not.
pub open spec fn spec_digit_val(c: char) -> int {
    if 0x30 <= c as u32 && c as u32 <= 0x39 {
        c as u32 - 0x30
    } else if 0x61 <= c as u32 && c as u32 <= 0x7A {
        c as u32 - 0x61 + 10
    } else if 0x41 <= c as u32 && c as u32 <= 0x5A {
        c as u32 - 0x41 + 10
    } else {
        36
    }
}

/// Whether `c` is a digit of the given radix.
pub open spec fn spec_is_digit(c: char, radix: int) -> bool {
    spec_digit_val(c) < radix
}

/// Scanning `digits` left to right with accumulator `acc`: the first
/// non-digit stops the scan, the first step over `u32::MAX` stops it, and
/// otherwise the accumulated value is the result. This mirrors how the
/// standard library's `from_str_radix` walks a string.
pub open spec fn spec_radix_scan(digits: Seq<char>, acc: int, radix: int) -> Result<
    int,
    ParseFailure,
>
    decreases digits.len(),
{
    if digits.len() == 0 {
        Ok(acc)
    } else if !spec_is_digit(digits[0], radix) {
        Err(ParseFailure::InvalidDigit)
    } else if acc * radix + spec_digit_val(digits[0]) > u32::MAX {
        Err(ParseFailure::Overflow)
    } else {
        spec_radix_scan(digits.drop_first(), acc * radix + spec_digit_val(digits[0]), radix)
    }
}

/// `s` without one leading plus sign, if present.
pub open spec fn spec_strip_plus(s: Seq<char>) -> Seq<char> {
    if s.len() > 0 && s[0] == '+' {
        s.drop_first()
    } else {
        s
    }
}

/// What parsing `s` as an unsigned 32-bit integer of the given radix
/// returns: empty input is rejected as such, a lone sign as an invalid
/// digit, and otherwise the digits are scanned left to right.
pub open spec fn spec_parse_u32(s: Seq<char>, radix: int) -> Result<int, ParseFailure> {
    if s.len() == 0 {
        Err(ParseFailure::Empty)
    } else if spec_strip_plus(s).len() == 0 {
        Err(ParseFailure::InvalidDigit)
    } else {
        spec_radix_scan(spec_strip_plus(s), 0, radix)
    }
}

/// The numeric value of `c` as a digit of the given radix, if it is one.
fn digit_val(c: char, radix: u32) -> (r: Option<u32>)
    requires
        2 <= radix <= 36,
    ensures
        r is Some <==> spec_is_digit(c, radix as int),
        r matches Some(v) ==> v == spec_digit_val(c) && v < radix,
{
    let u = c as u32;
    let v = if 0x30 <= u && u <= 0x39 {
        u - 0x30
    } else if 0x61 <= u && u <= 0x7A {
        u - 0x61 + 10
    } else if 0x41 <= u && u <= 0x5A {
        u - 0x41 + 10
    } else {
        36
    };
    if v < radix {
        Some(v)
    } else {
        None
    }
}

/// Parses `s` as an unsigned 32-bit integer of the given radix, accepting
/// one optional leading plus sign, exactly as the standard library's
/// `u32::from_str_radix` does.
pub fn parse_u32(s: &str, radix: u32) -> (r: Result<u32, ParseFailure>)
    requires
        2 <= radix <= 36,
    ensures
        r matches Ok(v) ==> spec_parse_u32(s@, radix as int) == Ok::<int, ParseFailure>(v as int),
        r matches Err(e) ==> spec_parse_u32(s@, radix as int) == Err::<int, ParseFailure>(e),
{
    let n = s.unicode_len();
    if n == 0 {
        return Err(ParseFailure::Empty);
    }
    let start: usize = if s.get_char(0) == '+' {
        1
    } else {
        0
    };
    if start == n {
        return Err(ParseFailure::InvalidDigit);
    }
    let ghost digits = spec_strip_plus(s@);
    proof {
        assert(digits =~= s@.subrange(start as int, n as int));
    }
    let mut acc: u32 = 0;
    let mut i: usize = start;
    while i < n
        invariant
            start <= i <= n == s@.len(),
            digits == s@.subrange(start as int, n as int),
            spec_parse_u32(s@, radix as int) == spec_radix_scan(digits, 0, radix as int),
            spec_radix_scan(digits, 0, radix as int) == spec_radix_scan(
                s@.subrange(i as int, n as int),
                acc as int,
                radix as int,
            ),
            2 <= radix <= 36,
        decreases n - i,
    {
        let c = s.get_char(i);
        match digit_val(c, radix) {
            None => {
                return Err(ParseFailure::InvalidDigit);
            },
            Some(v) => {
                proof {
                    assert(acc as int * radix as int + v <= 0xFFFF_FFFFi64 * 36 + 36)
                        by (nonlinear_arith)
                        requires
                            0 <= acc as int <= 0xFFFF_FFFF,
                            0 <= v < radix,
                            2 <= radix <= 36,
                    ;
                }
                let t: u64 = acc as u64 * radix as u64 + v as u64;
                if t > u32::MAX as u64 {
                    return Err(ParseFailure::Overflow);
                }
                proof {
                    assert(s@.subrange(i as int, n as int).drop_first() =~= s@.subrange(
                        i as int + 1,
                        n as int,
                    ));
                }
                acc = t as u32;
            },
        }
        i = i + 1;
    }
    Ok(acc)
}

/// The lowercase equivalent of a character sequence, as Unicode defines it:
/// what `str::to_lowercase` returns, a function of the characters alone.
pub uninterp spec fn lower_of(s: Seq<char>) -> Seq<char>;

/// Relies on `str::to_lowercase`: returns the lowercase equivalent of `s`,
/// which depends on the characters of `s` alone; an empty string stays
/// empty.
#[verifier::external_body]
pub(crate) fn lowercase(s: &str) -> (r: String)
    ensures
        r@ == lower_of(s@),
        s@.len() == 0 ==> r@.len() == 0,
{
    s.to_lowercase()
}

/// `s` divided at every comma, in order; a string without commas is one
/// part, and every comma adds one part after it.
pub open spec fn spec_split_commas(s: Seq<char>) -> Seq<Seq<char>>
    decreases s.len(),
{
    if s.len() == 0 {
        seq![Seq::<char>::empty()]
    } else {
        let rest = spec_split_commas(s.drop_last());
        if s.last() == ',' {
            rest.push(Seq::<char>::empty())
        } else {
            rest.update(rest.len() - 1, rest.last().push(s.last()))
        }
    }
}

/// Splitting always yields one more part than there are commas; in
/// particular at least one part.
proof fn lemma_split_commas_len(s: Seq<char>)
    ensures
        spec_split_commas(s).len() >= 1,
    decreases s.len(),
{
    if s.len() > 0 {
        lemma_split_commas_len(s.drop_last());
    }
}

/// Divides `s` at every comma, as `str::split(',')` does.
pub fn split_commas<'a>(s: &'a str) -> (r: Vec<&'a str>)
    ensures
        r@.map_values(|p: &str| p@) == spec_split_commas(s@),
{
    let n = s.unicode_len();
    let mut parts: Vec<&'a str> = Vec::new();
    proof {
        assert(s@.subrange(0, 0) =~= Seq::<char>::empty());
        assert(parts@.map_values(|p: &str| p@) =~= Seq::<Seq<char>>::empty());
        assert(spec_split_commas(s@.subrange(0, 0)) =~= Seq::<Seq<char>>::empty().push(
            Seq::<char>::empty(),
        ));
    }
    let mut begin: usize = 0;
    let mut i: usize = 0;
    while i < n
        invariant
            0 <= begin <= i <= n == s@.len(),
            spec_split_commas(s@.subrange(0, i as int)) == parts@.map_values(
                |p: &str| p@,
            ).push(s@.subrange(begin as int, i as int)),
        decreases n - i,
    {
        let ghost prefix = s@.subrange(0, i as int);
        let ghost sp = spec_split_commas(prefix);
        proof {
            lemma_split_commas_len(prefix);
            assert(s@.subrange(0, i as int + 1).drop_last() =~= prefix);
            assert(s@.subrange(0, i as int + 1).last() == s@[i as int]);
        }
        let c = s.get_char(i);
        if c == ',' {
            let piece = s.substring_char(begin, i);
            parts.push(piece);
            proof {
                assert(parts@.map_values(|p: &str| p@) =~= sp);
                assert(s@.subrange(i as int + 1, i as int + 1) =~= Seq::<char>::empty());
            }
            begin = i + 1;
        } else {
            proof {
                assert(s@.subrange(begin as int, i as int + 1) =~= s@.subrange(
                    begin as int,
                    i as int,
                ).push(s@[i as int]));
                assert(spec_split_commas(s@.subrange(0, i as int + 1)) =~= parts@.map_values(
                    |p: &str| p@,
                ).push(s@.subrange(begin as int, i as int + 1)));
            }
        }
        i = i + 1;
    }
    let piece = s.substring_char(begin, n);
    parts.push(piece);
    proof {
        assert(s@.subrange(0, n as int) =~= s@);
        assert(parts@.map_values(|p: &str| p@) =~= spec_split_commas(s@));
    }
    parts
}

} // verus!
