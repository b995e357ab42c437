use vstd::prelude::*;
use vstd::string::StringExecFns;
use vstd::string::StringSliceAdditionalSpecFns;

verus! {

/// An ASCII decimal digit.
pub open spec fn is_digit(b: u8) -> bool {
    48 <= b <= 57
}

/// Every byte a decimal digit.
pub open spec fn all_digits(s: Seq<u8>) -> bool {
    forall|i: int| 0 <= i < s.len() ==> is_digit(#[trigger] s[i])
}

/// The number the digit string denotes, most significant digit first.
pub open spec fn digits_value(s: Seq<u8>) -> int
    decreases s.len(),
{
    if s.len() == 0 {
        0
    } else {
        digits_value(s.drop_last()) * 10 + (s.last() - 48)
    }
}

/// What `usize::from_str` accepts: an optional leading plus sign, then at
/// least one digit, denoting a value that fits.
pub open spec fn parse_usize(s: Seq<u8>) -> Option<usize> {
    let t = if s.len() > 0 && s[0] == 43 {
        s.drop_first()
    } else {
        s
    };
    if t.len() > 0 && all_digits(t) && digits_value(t) <= usize::MAX {
        Some(digits_value(t) as usize)
    } else {
        None
    }
}

/// The index of the first `.`, or the length when there is none.
pub open spec fn find_dot(s: Seq<u8>) -> int
    decreases s.len(),
{
    if s.len() == 0 {
        0
    } else if s[0] == 46 {
        0
    } else {
        1 + find_dot(s.drop_first())
    }
}

/// The `.`-separated parts of a byte string, in order; separators are
/// dropped, empty parts kept.
pub open spec fn split_dots(s: Seq<u8>) -> Seq<Seq<u8>>
    decreases s.len(),
{
    let i = find_dot(s);
    if 0 <= i < s.len() {
        seq![s.subrange(0, i)] + split_dots(s.subrange(i + 1, s.len() as int))
    } else {
        seq![s]
    }
}

/// A split always yields at least one part.
proof fn lemma_split_dots_len_pos(s: Seq<u8>)
    ensures
        split_dots(s).len() >= 1,
    decreases s.len(),
{
    let i = find_dot(s);
    if 0 <= i < s.len() {
        lemma_split_dots_len_pos(s.subrange(i + 1, s.len() as int));
    }
}

proof fn lemma_find_dot_props(s: Seq<u8>)
    ensures
        0 <= find_dot(s) <= s.len(),
        forall|j: int| 0 <= j < find_dot(s) ==> s[j] != 46,
        find_dot(s) < s.len() ==> s[find_dot(s)] == 46,
    decreases s.len(),
{
    if s.len() > 0 && s[0] != 46 {
        lemma_find_dot_props(s.drop_first());
        assert forall|j: int| 0 <= j < find_dot(s) implies s[j] != 46 by {
            if j > 0 {
                assert(s.drop_first()[j - 1] == s[j]);
            }
        }
        if find_dot(s) < s.len() {
            assert(s.drop_first()[find_dot(s) - 1] == s[find_dot(s)]);
        }
    }
}

/// A digit string's value never shrinks when more digits follow.
proof fn lemma_digits_value_nonneg(s: Seq<u8>)
    requires
        all_digits(s),
    ensures
        digits_value(s) >= 0,
    decreases s.len(),
{
    if s.len() > 0 {
        assert(all_digits(s.drop_last())) by {
            assert(forall|i: int|
                0 <= i < s.len() - 1 ==> #[trigger] s.drop_last()[i] == s[i]);
        }
        lemma_digits_value_nonneg(s.drop_last());
    }
}

/// Extending a digit prefix only grows its value.
proof fn lemma_digits_value_monotonic(s: Seq<u8>, i: int)
    requires
        all_digits(s),
        0 <= i <= s.len(),
    ensures
        digits_value(s.subrange(0, i)) <= digits_value(s),
    decreases s.len() - i,
{
    if i < s.len() {
        let t = s.subrange(0, i + 1);
        assert(all_digits(t));
        assert(t.drop_last() =~= s.subrange(0, i));
        lemma_digits_value_nonneg(s.subrange(0, i));
        assert(digits_value(s.subrange(0, i)) <= digits_value(t));
        lemma_digits_value_monotonic(s, i + 1);
        assert(s.subrange(0, s.len() as int) =~= s);
    } else {
        assert(s.subrange(0, i) =~= s);
    }
}

/// The overflow test of the parse loop is exact: `v * 10 + d` exceeds `m`
/// exactly when `v` exceeds `(m - d) / 10`.
proof fn lemma_mul10_overflow(v: int, d: int, m: int)
    requires
        0 <= d <= 9,
        m >= 9,
        v >= 0,
    ensures
        (v > (m - d) / 10) <==> (v * 10 + d > m),
{
    let q = (m - d) / 10;
    vstd::arithmetic::div_mod::lemma_fundamental_div_mod(m - d, 10);
    vstd::arithmetic::div_mod::lemma_mod_division_less_than_divisor(m - d, 10);
    assert(m - d == 10 * q + (m - d) % 10);
    assert(v > q ==> v * 10 >= (q + 1) * 10) by (nonlinear_arith);
    assert(v <= q ==> v * 10 <= q * 10) by (nonlinear_arith);
}

/// Parse one `.`-separated part exactly as `usize::from_str` would.
fn parse_part(part: &Vec<u8>) -> (r: Option<usize>)
    ensures
        r == parse_usize(part@),
{
    let ghost whole = part@;
    let mut start: usize = 0;
    if part.len() > 0 && part[0] == 43 {
        start = 1;
    }
    let ghost t = if whole.len() > 0 && whole[0] == 43 {
        whole.drop_first()
    } else {
        whole
    };
    proof {
        assert(t =~= whole.subrange(start as int, whole.len() as int));
    }
    if part.len() == start {
        return None;
    }
    let mut v: usize = 0;
    let mut i: usize = start;
    while i < part.len()
        invariant
            start <= i <= part@.len(),
            part@ == whole,
            t == whole.subrange(start as int, whole.len() as int),
            t == (if whole.len() > 0 && whole[0] == 43 {
                whole.drop_first()
            } else {
                whole
            }),
            start <= 1,
            t.len() == whole.len() - start,
            all_digits(t.subrange(0, i - start)),
            v == digits_value(t.subrange(0, i - start)),
        decreases part@.len() - i,
    {
        let b: u8 = part[i];
        if b < 48 || b > 57 {
            proof {
                assert(t[i - start] == b);
                assert(!all_digits(t));
                assert(parse_usize(whole) is None) by {
                    assert(!(t.len() > 0 && all_digits(t) && digits_value(t) <= usize::MAX));
                }
            }
            return None;
        }
        let d: usize = (b - 48) as usize;
        proof {
            lemma_digits_value_nonneg(t.subrange(0, i - start));
            lemma_mul10_overflow(v as int, d as int, usize::MAX as int);
        }
        if v > (usize::MAX - d) / 10 {
            proof {
                let k = i - start + 1;
                assert(t.subrange(0, k).drop_last() =~= t.subrange(0, k - 1));
                assert(all_digits(t.subrange(0, k)));
                assert(digits_value(t.subrange(0, k)) > usize::MAX);
                if all_digits(t) {
                    lemma_digits_value_monotonic(t, k);
                    assert(digits_value(t) > usize::MAX);
                }
                assert(parse_usize(whole) is None) by {
                    assert(!(t.len() > 0 && all_digits(t) && digits_value(t) <= usize::MAX));
                }
            }
            return None;
        }
        v = v * 10 + d;
        proof {
            let k = i - start + 1;
            assert(t.subrange(0, k).drop_last() =~= t.subrange(0, k - 1));
            assert(t.subrange(0, k).last() == b);
            assert(all_digits(t.subrange(0, k)));
        }
        i += 1;
    }
    proof {
        assert(t.subrange(0, t.len() as int) =~= t);
        lemma_digits_value_nonneg(t);
    }
    Some(v)
}

/// Copy `bytes[from..to]` into a fresh vector.
pub(crate) fn sub_bytes(bytes: &[u8], from: usize, to: usize) -> (r: Vec<u8>)
    requires
        from <= to <= bytes@.len(),
    ensures
        r@ == bytes@.subrange(from as int, to as int),
{
    let mut r: Vec<u8> = Vec::new();
    let mut i: usize = from;
    while i < to
        invariant
            from <= i <= to <= bytes@.len(),
            r@ =~= bytes@.subrange(from as int, i as int),
        decreases to - i,
    {
        r.push(bytes[i]);
        proof {
            assert(r@ =~= bytes@.subrange(from as int, i as int + 1));
        }
        i += 1;
    }
    r
}

/// The index of the first `.` at or after `from`, or the length when there
/// is none; agrees with `find_dot` on the suffix.
fn scan_dot(bytes: &[u8], from: usize) -> (r: usize)
    requires
        from <= bytes@.len(),
    ensures
        from <= r <= bytes@.len(),
        r - from == find_dot(bytes@.subrange(from as int, bytes@.len() as int)),
        r < bytes@.len() ==> bytes@[r as int] == 46,
        forall|j: int| from <= j < r ==> bytes@[j] != 46,
    decreases bytes@.len() - from,
{
    if from == bytes.len() {
        return from;
    }
    if bytes[from] == 46 {
        return from;
    }
    let r = scan_dot(bytes, from + 1);
    proof {
        let s = bytes@.subrange(from as int, bytes@.len() as int);
        assert(s.drop_first() =~= bytes@.subrange(from as int + 1, bytes@.len() as int));
        assert(s[0] == bytes@[from as int]);
    }
    r
}

/// The digit character denoting `d`.
pub open spec fn digit_char(d: int) -> char {
    if d == 0 {
        '0'
    } else if d == 1 {
        '1'
    } else if d == 2 {
        '2'
    } else if d == 3 {
        '3'
    } else if d == 4 {
        '4'
    } else if d == 5 {
        '5'
    } else if d == 6 {
        '6'
    } else if d == 7 {
        '7'
    } else if d == 8 {
        '8'
    } else {
        '9'
    }
}

/// The decimal rendering of a non-negative number, most significant digit
/// first.
pub open spec fn dec_chars(n: int) -> Seq<char>
    recommends
        n >= 0,
    decreases n,
{
    if n < 10 {
        seq![digit_char(n)]
    } else {
        dec_chars(n / 10).push(digit_char(n % 10))
    }
}

/// The decimal rendering of `major.minor.patch`.
pub open spec fn spec_version_chars(v: Version) -> Seq<char> {
    dec_chars(v.major as int) + seq!['.'] + dec_chars(v.minor as int) + seq!['.'] + dec_chars(
        v.patch as int,
    )
}

/// The one-character string for a single digit.
fn digit_str(d: usize) -> (r: &'static str)
    requires
        d < 10,
    ensures
        r@ == seq![digit_char(d as int)],
{
    proof {
        reveal_strlit("0");
        reveal_strlit("1");
        reveal_strlit("2");
        reveal_strlit("3");
        reveal_strlit("4");
        reveal_strlit("5");
        reveal_strlit("6");
        reveal_strlit("7");
        reveal_strlit("8");
        reveal_strlit("9");
    }
    let r: &'static str = match d {
        0 => "0",
        1 => "1",
        2 => "2",
        3 => "3",
        4 => "4",
        5 => "5",
        6 => "6",
        7 => "7",
        8 => "8",
        _ => "9",
    };
    proof {
        assert(r@ =~= seq![digit_char(d as int)]);
    }
    r
}

/// Render a number in decimal.
pub fn dec_string(n: usize) -> (r: String)
    ensures
        r@ == dec_chars(n as int),
    decreases n,
{
    if n < 10 {
        let mut s = String::new();
        s.append(digit_str(n));
        proof {
            assert(s@ =~= dec_chars(n as int));
        }
        s
    } else {
        let mut s = dec_string(n / 10);
        s.append(digit_str(n % 10));
        proof {
            assert(s@ =~= dec_chars((n / 10) as int).push(digit_char((n % 10) as int)));
        }
        s
    }
}

/// A semantic version: major, minor, patch.
#[derive(Debug, Clone, Copy, PartialEq, Eq, Structural)]
pub struct Version {
    pub major: usize,
    pub minor: usize,
    pub patch: usize,
}

impl Version {
    /// What the three parts of a well-formed version string denote; `None`
    /// when the string does not split into exactly three parsable parts.
    pub open spec fn spec_parse(s: Seq<u8>) -> Option<Version> {
        let parts = split_dots(s);
        if parts.len() == 3 && parse_usize(parts[0]) is Some && parse_usize(parts[1]) is Some
            && parse_usize(parts[2]) is Some {
            Some(
                Version {
                    major: parse_usize(parts[0])->0,
                    minor: parse_usize(parts[1])->0,
                    patch: parse_usize(parts[2])->0,
                },
            )
        } else {
            None
        }
    }

    /// Parse `major.minor.patch`. Exactly the strings whose three
    /// `.`-separated parts each parse as a `usize` are accepted; anything
    /// else is rejected with a message naming the string.
    #[verifier::rlimit(100)]
    pub fn from_str(value: &str) -> (r: Result<Version, String>)
        ensures
            r is Ok <==> Version::spec_parse(value.spec_bytes()) is Some,
            r is Ok ==> r->Ok_0 == Version::spec_parse(value.spec_bytes())->0,
            r is Err ==> r->Err_0@ == ({
                let parts = split_dots(value.spec_bytes());
                if parts.len() != 3 {
                    "Invalid version: "@ + value@
                } else if parse_usize(parts[0]) is None {
                    "Invalid major version "@ + value@
                } else if parse_usize(parts[1]) is None {
                    "Invalid minor version "@ + value@
                } else {
                    "Invalid patch version: "@ + value@
                }
            }),
    {
        let bytes: &[u8] = value.as_bytes();
        let n: usize = bytes.len();
        let ghost s = bytes@;
        let d1: usize = scan_dot(bytes, 0);
        proof {
            assert(s.subrange(0, s.len() as int) =~= s);
        }
        if d1 == n {
            proof {
                assert(split_dots(s).len() == 1);
            }
            return Err(String::from_str("Invalid version: ").concat(value));
        }
        let d2: usize = scan_dot(bytes, d1 + 1);
        let ghost rest1 = s.subrange(d1 as int + 1, s.len() as int);
        proof {
            assert(find_dot(rest1) == d2 - d1 - 1) by {
                assert(rest1 =~= s.subrange(d1 as int + 1, s.len() as int));
            }
        }
        if d2 == n {
            proof {
                assert(split_dots(rest1).len() == 1) by {
                    assert(find_dot(rest1) == rest1.len());
                }
                assert(split_dots(s).len() == 2);
            }
            return Err(String::from_str("Invalid version: ").concat(value));
        }
        let d3: usize = scan_dot(bytes, d2 + 1);
        let ghost rest2 = rest1.subrange(find_dot(rest1) + 1, rest1.len() as int);
        proof {
            assert(rest2 =~= s.subrange(d2 as int + 1, s.len() as int));
            assert(find_dot(rest2) == d3 - d2 - 1);
        }
        if d3 < n {
            proof {
                assert(split_dots(rest2).len() >= 2) by {
                    assert(find_dot(rest2) < rest2.len());
                    lemma_split_dots_len_pos(
                        rest2.subrange(find_dot(rest2) + 1, rest2.len() as int),
                    );
                }
                assert(split_dots(rest1) =~= seq![rest1.subrange(0, find_dot(rest1))]
                    + split_dots(rest2));
                assert(split_dots(s) =~= seq![s.subrange(0, d1 as int)] + split_dots(rest1));
                assert(split_dots(s).len() >= 4);
            }
            return Err(String::from_str("Invalid version: ").concat(value));
        }
        proof {
            assert(find_dot(rest2) == rest2.len());
            assert(split_dots(rest2) =~= seq![rest2]);
            assert(split_dots(rest1) =~= seq![rest1.subrange(0, find_dot(rest1))] + split_dots(
                rest2,
            ));
            assert(split_dots(s) =~= seq![s.subrange(0, d1 as int)] + split_dots(rest1));
            assert(split_dots(s).len() == 3);
            assert(split_dots(s)[0] =~= s.subrange(0, d1 as int));
            assert(split_dots(s)[1] =~= s.subrange(d1 as int + 1, d2 as int));
            assert(split_dots(s)[2] =~= s.subrange(d2 as int + 1, s.len() as int));
        }
        let p0: Vec<u8> = sub_bytes(bytes, 0, d1);
        let p1: Vec<u8> = sub_bytes(bytes, d1 + 1, d2);
        let p2: Vec<u8> = sub_bytes(bytes, d2 + 1, n);
        let major: usize = match parse_part(&p0) {
            Some(v) => v,
            None => {
                return Err(String::from_str("Invalid major version ").concat(value));
            },
        };
        let minor: usize = match parse_part(&p1) {
            Some(v) => v,
            None => {
                return Err(String::from_str("Invalid minor version ").concat(value));
            },
        };
        let patch: usize = match parse_part(&p2) {
            Some(v) => v,
            None => {
                return Err(String::from_str("Invalid patch version: ").concat(value));
            },
        };
        Ok(Version { major, minor, patch })
    }

    /// The decimal rendering of the version, `major.minor.patch`.
    pub fn to_text(&self) -> (r: String)
        ensures
            r@ == spec_version_chars(*self),
    {
        let mut s: String = dec_string(self.major);
        s.append(".");
        s.append(dec_string(self.minor).as_str());
        s.append(".");
        s.append(dec_string(self.patch).as_str());
        proof {
            reveal_strlit(".");
            assert(s@ =~= spec_version_chars(*self));
        }
        s
    }

    /// Parse an owned string; see `from_str`.
    pub fn from_string(value: String) -> (r: Result<Version, String>)
        ensures
            r is Ok <==> Version::spec_parse(vstd::utf8::encode_utf8(value@)) is Some,
            r is Ok ==> r->Ok_0 == Version::spec_parse(vstd::utf8::encode_utf8(value@))->0,
            r is Err ==> r->Err_0@ == ({
                let parts = split_dots(vstd::utf8::encode_utf8(value@));
                if parts.len() != 3 {
                    "Invalid version: "@ + value@
                } else if parse_usize(parts[0]) is None {
                    "Invalid major version "@ + value@
                } else if parse_usize(parts[1]) is None {
                    "Invalid minor version "@ + value@
                } else {
                    "Invalid patch version: "@ + value@
                }
            }),
    {
        Version::from_str(value.as_str())
    }
}

} // verus!
