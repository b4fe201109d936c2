//! Shared data: source ranges, integer vectors, and the fixed-point scale
//! that every numeric value in the evaluator uses.

use vstd::prelude::*;
use vstd::string::StringExecFns;

verus! {

/// Scale of the fixed-point numbers: a stored value `v` stands for the real
/// number `v / FX_SCALE`.
pub const FX_SCALE: i64 = 1_000_000;

/// Largest magnitude a fixed-point value may take; arithmetic saturates here.
pub const FX_MAX: i64 = 0x3fff_ffff_ffff_ffff;

/// Upper bound on Newton iterations when computing roots.
pub const ROOT_MAX_RECURSION: u32 = 25;

/// Spec mirror of `Range`, over mathematical values.
pub struct RangeV {
    pub filename: Seq<char>,
    pub start: int,
    pub end: int,
}

/// A span of character offsets in a named source, attached to every token and
/// node for diagnostics.
#[derive(Debug)]
pub struct Range {
    pub filename: String,
    pub start: usize,
    pub end: usize,
}

impl View for Range {
    type V = RangeV;

    open spec fn view(&self) -> RangeV {
        RangeV { filename: self.filename@, start: self.start as int, end: self.end as int }
    }
}

/// Combining two ranges: the earlier start, the later end, the first
/// range's source.
pub open spec fn combine_range_v(a: RangeV, b: RangeV) -> RangeV {
    RangeV {
        filename: a.filename,
        start: if a.start <= b.start {
            a.start
        } else {
            b.start
        },
        end: if a.end >= b.end {
            a.end
        } else {
            b.end
        },
    }
}

impl Range {
    /// An explicit copy; the view is preserved.
    pub fn duplicate(&self) -> (r: Range)
        ensures
            r@ == self@,
    {
        Range { filename: self.filename.clone(), start: self.start, end: self.end }
    }

    /// The pure combination of two ranges.
    pub fn combined(&self, other: &Range) -> (r: Range)
        ensures
            r@ == combine_range_v(self@, other@),
    {
        Range {
            filename: self.filename.clone(),
            start: if self.start <= other.start {
                self.start
            } else {
                other.start
            },
            end: if self.end >= other.end {
                self.end
            } else {
                other.end
            },
        }
    }
}

/// An integer pair used for positions, sizes and resolutions.
#[derive(Clone, Copy, Debug, PartialEq, Eq, Structural)]
pub struct Vector2 {
    pub x: i32,
    pub y: i32,
}

/// What `escapify` turns one character into.
pub open spec fn escapify_char(c: char) -> Seq<char> {
    if c == '\n' {
        seq!['\\', 'n']
    } else if c == '`' {
        seq!['\\', '`']
    } else if c == '\'' {
        seq!['\\', '\'']
    } else if c == '"' {
        seq!['\\', '"']
    } else if c == '\t' {
        seq!['\t']
    } else if c == '\\' {
        seq!['\\', '\\']
    } else {
        seq![c]
    }
}

/// The whole string with every character escaped.
pub open spec fn escapify_seq(s: Seq<char>) -> Seq<char>
    decreases s.len(),
{
    if s.len() == 0 {
        Seq::empty()
    } else {
        escapify_char(s[0]) + escapify_seq(s.drop_first())
    }
}

proof fn lemma_escapify_seq_snoc(s: Seq<char>, c: char)
    ensures
        escapify_seq(s.push(c)) == escapify_seq(s) + escapify_char(c),
    decreases s.len(),
{
    if s.len() == 0 {
        assert(s.push(c).drop_first() =~= Seq::<char>::empty());
        assert(s.push(c)[0] == c);
        assert(escapify_seq(s.push(c)) == escapify_char(c) + escapify_seq(Seq::<char>::empty()));
        assert(escapify_char(c) + Seq::<char>::empty() =~= escapify_char(c));
        assert(escapify_seq(s) + escapify_char(c) =~= escapify_char(c));
    } else {
        assert(s.push(c).drop_first() =~= s.drop_first().push(c));
        lemma_escapify_seq_snoc(s.drop_first(), c);
        assert(s.push(c)[0] == s[0]);
        assert(escapify_seq(s.push(c)) == escapify_char(s[0]) + escapify_seq(
            s.drop_first().push(c),
        ));
        assert(escapify_char(s[0]) + (escapify_seq(s.drop_first()) + escapify_char(c))
            =~= (escapify_char(s[0]) + escapify_seq(s.drop_first())) + escapify_char(c));
    }
}

/// Rewrites newline, backquote, quote and backslash characters of a string as
/// printable escape sequences, for use in diagnostics.
pub fn escapify(string: String) -> (r: String)
    ensures
        r@ == escapify_seq(string@),
{
    let mut ret = String::new();
    let s = string.as_str();
    let n = s.unicode_len();
    let mut i: usize = 0;
    while i < n
        invariant
            i <= n,
            n == s@.len(),
            ret@ == escapify_seq(s@.subrange(0, i as int)),
        decreases n - i,
    {
        let ch = s.get_char(i);
        if ch == '\n' {
            ret.append("\\n");
        } else if ch == '`' {
            ret.append("\\`");
        } else if ch == '\'' {
            ret.append("\\'");
        } else if ch == '"' {
            ret.append("\\\"");
        } else if ch == '\t' {
            ret.append("\t");
        } else if ch == '\\' {
            ret.append("\\\\");
        } else {
            let one: String = char_to_string(ch);
            ret.append(one.as_str());
        }
        proof {
            reveal_strlit("\\n");
            reveal_strlit("\\`");
            reveal_strlit("\\'");
            reveal_strlit("\\\"");
            reveal_strlit("\t");
            reveal_strlit("\\\\");
            lemma_escapify_seq_snoc(s@.subrange(0, i as int), s@[i as int]);
            assert(s@.subrange(0, i as int).push(s@[i as int]) =~= s@.subrange(0, i + 1 as int));
        }
        i = i + 1;
    }
    proof {
        assert(s@.subrange(0, n as int) =~= s@);
    }
    ret
}

/// A one-character string.
pub fn char_to_string(c: char) -> (r: String)
    ensures
        r@ == seq![c],
{
    let mut s = String::new();
    char_push(&mut s, c);
    proof {
        assert(Seq::<char>::empty().push(c) =~= seq![c]);
    }
    s
}

/// Relies on `String::push` of std: appends exactly one character.
#[verifier::external_body]
pub fn char_push(s: &mut String, c: char)
    ensures
        final(s)@ == old(s)@.push(c),
{
    s.push(c);
}


/// The character of one decimal digit.
pub open spec fn digit_char_s(d: int) -> char {
    if d == 0 {
        '0'
    } else if d == 1 {
        '1'
    } else if d == 2 {
        '2'
    } else if d == 3 {
        '3'
    } else if d == 4 {
        '4'
    } else if d == 5 {
        '5'
    } else if d == 6 {
        '6'
    } else if d == 7 {
        '7'
    } else if d == 8 {
        '8'
    } else {
        '9'
    }
}

/// The decimal digits of a non-negative integer, most significant first.
pub open spec fn nat_digits_s(n: int) -> Seq<char>
    decreases n,
        when n >= 0
{
    if n < 10 {
        seq![digit_char_s(n)]
    } else {
        nat_digits_s(n / 10).push(digit_char_s(n % 10))
    }
}

/// The decimal text of a signed integer.
pub open spec fn int_text_s(v: int) -> Seq<char> {
    if v < 0 {
        seq!['-'] + nat_digits_s(-v)
    } else {
        nat_digits_s(v)
    }
}

/// A sequence with its trailing zero digits removed.
pub open spec fn trim_zeros_s(s: Seq<char>) -> Seq<char>
    decreases s.len(),
{
    if s.len() > 0 && s.last() == '0' {
        trim_zeros_s(s.drop_last())
    } else {
        s
    }
}

/// The six fraction digits of a fixed-point value's fractional part.
pub open spec fn frac6_s(fr: int) -> Seq<char> {
    seq![
        digit_char_s(fr / 100_000 % 10),
        digit_char_s(fr / 10_000 % 10),
        digit_char_s(fr / 1_000 % 10),
        digit_char_s(fr / 100 % 10),
        digit_char_s(fr / 10 % 10),
        digit_char_s(fr % 10),
    ]
}

/// The decimal text of a fixed-point value: the integer part, then, when the
/// fractional part is not zero, a point and its digits with trailing zeros
/// removed.
pub open spec fn fx_text_s(v: i64) -> Seq<char> {
    let m = crate::fixed::abs_i(v as int);
    let ip = m / (FX_SCALE as int);
    let fr = m % (FX_SCALE as int);
    let sign: Seq<char> = if v < 0 {
        seq!['-']
    } else {
        Seq::empty()
    };
    if fr == 0 {
        sign + nat_digits_s(ip)
    } else {
        sign + nat_digits_s(ip) + seq!['.'] + trim_zeros_s(frac6_s(fr))
    }
}

/// The character of one decimal digit, run by the machine.
fn digit_char(d: u64) -> (c: char)
    requires
        d < 10,
    ensures
        c == digit_char_s(d as int),
{
    if d == 0 {
        '0'
    } else if d == 1 {
        '1'
    } else if d == 2 {
        '2'
    } else if d == 3 {
        '3'
    } else if d == 4 {
        '4'
    } else if d == 5 {
        '5'
    } else if d == 6 {
        '6'
    } else if d == 7 {
        '7'
    } else if d == 8 {
        '8'
    } else {
        '9'
    }
}

/// Appends a non-negative integer's decimal digits.
fn push_digits(n: u64, out: &mut Vec<char>)
    ensures
        final(out)@ == old(out)@ + nat_digits_s(n as int),
    decreases n,
{
    if n < 10 {
        out.push(digit_char(n));
        proof {
            assert(old(out)@.push(digit_char_s(n as int)) =~= old(out)@ + nat_digits_s(n as int));
        }
    } else {
        push_digits(n / 10, out);
        out.push(digit_char(n % 10));
        proof {
            assert((old(out)@ + nat_digits_s(n as int / 10)).push(digit_char_s(n as int % 10))
                =~= old(out)@ + nat_digits_s(n as int / 10).push(digit_char_s(n as int % 10)));
        }
    }
}

/// The decimal text of a signed 32-bit integer.
pub fn int32_text(v: i32) -> (r: Vec<char>)
    ensures
        r@ == int_text_s(v as int),
{
    let mut out: Vec<char> = Vec::new();
    let m: u64 = if v >= 0 {
        v as u64
    } else {
        (-(v as i64)) as u64
    };
    if v < 0 {
        out.push('-');
        proof {
            assert(Seq::<char>::empty().push('-') =~= seq!['-']);
        }
    }
    push_digits(m, &mut out);
    proof {
        if v < 0 {
            assert(seq!['-'] + nat_digits_s(m as int) =~= int_text_s(v as int));
        }
    }
    out
}

/// The decimal text of a fixed-point value.
pub fn fx_text(v: i64) -> (r: Vec<char>)
    ensures
        r@ == fx_text_s(v),
{
    let m: u64 = if v >= 0 {
        v as u64
    } else {
        (-(v as i128)) as u64
    };
    let ip: u64 = m / (FX_SCALE as u64);
    let fr: u64 = m % (FX_SCALE as u64);
    proof {
        assert(m as int == crate::fixed::abs_i(v as int));
        assert(ip as int == crate::fixed::abs_i(v as int) / (FX_SCALE as int));
        assert(fr as int == crate::fixed::abs_i(v as int) % (FX_SCALE as int));
    }
    let mut out: Vec<char> = Vec::new();
    if v < 0 {
        out.push('-');
        proof {
            assert(out@ =~= seq!['-']);
        }
    }
    let ghost sign: Seq<char> = if v < 0 {
        seq!['-']
    } else {
        Seq::empty()
    };
    proof {
        assert(out@ =~= sign);
    }
    push_digits(ip, &mut out);
    if fr == 0 {
        proof {
            assert(out@ =~= fx_text_s(v));
        }
        out
    } else {
        out.push('.');
        let mut fvec: Vec<char> = Vec::new();
        fvec.push(digit_char(fr / 100_000 % 10));
        fvec.push(digit_char(fr / 10_000 % 10));
        fvec.push(digit_char(fr / 1_000 % 10));
        fvec.push(digit_char(fr / 100 % 10));
        fvec.push(digit_char(fr / 10 % 10));
        fvec.push(digit_char(fr % 10));
        proof {
            assert(fvec@ =~= frac6_s(fr as int));
        }
        while fvec.len() > 0 && fvec[fvec.len() - 1] == '0'
            invariant
                trim_zeros_s(fvec@) == trim_zeros_s(frac6_s(fr as int)),
            decreases fvec@.len(),
        {
            let ghost before = fvec@;
            fvec.pop();
            proof {
                assert(fvec@ =~= before.drop_last());
                assert(before.last() == '0');
            }
        }
        proof {
            assert(!(fvec@.len() > 0 && fvec@.last() == '0'));
            assert(trim_zeros_s(fvec@) == fvec@);
        }
        let nf = fvec.len();
        let mut i: usize = 0;
        let ghost mid = out@;
        while i < nf
            invariant
                i <= nf,
                nf == fvec@.len(),
                out@ == mid + fvec@.subrange(0, i as int),
            decreases nf - i,
        {
            out.push(fvec[i]);
            proof {
                assert((mid + fvec@.subrange(0, i as int)).push(fvec@[i as int]) =~= mid
                    + fvec@.subrange(0, i + 1 as int));
            }
            i = i + 1;
        }
        proof {
            assert(fvec@.subrange(0, nf as int) =~= fvec@);
            assert(out@ =~= sign + nat_digits_s(ip as int) + seq!['.'] + trim_zeros_s(
                frac6_s(fr as int),
            ));
        }
        out
    }
}

/// The characters of a string slice, as a vector.
pub fn str_to_chars(s: &str) -> (r: Vec<char>)
    ensures
        r@ == s@,
{
    let n = s.unicode_len();
    let mut r: Vec<char> = Vec::new();
    let mut i: usize = 0;
    while i < n
        invariant
            i <= n,
            n == s@.len(),
            r@ == s@.subrange(0, i as int),
        decreases n - i,
    {
        r.push(s.get_char(i));
        proof {
            assert(s@.subrange(0, i as int).push(s@[i as int]) =~= s@.subrange(0, i + 1 as int));
        }
        i = i + 1;
    }
    proof {
        assert(s@.subrange(0, n as int) =~= s@);
    }
    r
}

/// An explicit copy of a character vector; the view is preserved.
pub fn clone_chars(v: &Vec<char>) -> (r: Vec<char>)
    ensures
        r@ == v@,
{
    let n = v.len();
    let mut r: Vec<char> = Vec::new();
    let mut i: usize = 0;
    while i < n
        invariant
            i <= n,
            n == v@.len(),
            r@ == v@.subrange(0, i as int),
        decreases n - i,
    {
        r.push(v[i]);
        proof {
            assert(v@.subrange(0, i as int).push(v@[i as int]) =~= v@.subrange(0, i + 1 as int));
        }
        i = i + 1;
    }
    proof {
        assert(v@.subrange(0, n as int) =~= v@);
    }
    r
}

/// Whether a character vector spells exactly the given string.
pub fn chars_eq_str(v: &Vec<char>, s: &str) -> (r: bool)
    ensures
        r == (v@ == s@),
{
    let n = v.len();
    if n != s.unicode_len() {
        proof {
            assert(v@ != s@);
        }
        return false;
    }
    let mut i: usize = 0;
    while i < n
        invariant
            i <= n,
            n == v@.len(),
            n == s@.len(),
            forall|k: int| 0 <= k < i ==> v@[k] == s@[k],
        decreases n - i,
    {
        if v[i] != s.get_char(i) {
            proof {
                assert(v@[i as int] != s@[i as int]);
            }
            return false;
        }
        i = i + 1;
    }
    proof {
        assert(v@ =~= s@);
    }
    true
}

/// The characters of one string, as a fresh vector.
pub fn string_to_chars(s: &String) -> (r: Vec<char>)
    ensures
        r@ == s@,
{
    str_to_chars(s.as_str())
}

/// A string built back from a character vector.
pub fn chars_to_string(v: &Vec<char>) -> (r: String)
    ensures
        r@ == v@,
{
    let n = v.len();
    let mut r = String::new();
    let mut i: usize = 0;
    while i < n
        invariant
            i <= n,
            n == v@.len(),
            r@ == v@.subrange(0, i as int),
        decreases n - i,
    {
        char_push(&mut r, v[i]);
        proof {
            assert(v@.subrange(0, i as int).push(v@[i as int]) =~= v@.subrange(0, i + 1 as int));
        }
        i = i + 1;
    }
    proof {
        assert(v@.subrange(0, n as int) =~= v@);
    }
    r
}

} // verus!
