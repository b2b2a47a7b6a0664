//! Scalar text handling: whitespace trimming and the numeric literal format
//! (decimal or `0x`-prefixed hexadecimal) used by unsigned-integer fields.

use vstd::prelude::*;
use vstd::string::StrSliceExecFns;
use vstd::string::StringExecFns;

verus! {

pub open spec fn is_ws(c: char) -> bool {
    c == ' ' || c == '\t' || c == '\n' || c == '\r'
}

pub open spec fn trim_front(s: Seq<char>) -> Seq<char>
    decreases s.len(),
{
    if s.len() > 0 && is_ws(s[0]) {
        trim_front(s.drop_first())
    } else {
        s
    }
}

pub open spec fn trim_back(s: Seq<char>) -> Seq<char>
    decreases s.len(),
{
    if s.len() > 0 && is_ws(s.last()) {
        trim_back(s.drop_last())
    } else {
        s
    }
}

/// The text content of a scalar field: its raw text with leading and
/// trailing whitespace removed.
pub open spec fn trim_ws(s: Seq<char>) -> Seq<char> {
    trim_back(trim_front(s))
}

proof fn lemma_trim_front_skip(s: Seq<char>, i: int)
    requires
        0 <= i <= s.len(),
        forall|j: int| 0 <= j < i ==> is_ws(s[j]),
    ensures
        trim_front(s) == trim_front(s.skip(i)),
    decreases i,
{
    if i > 0 {
        assert(is_ws(s[0]));
        assert(s.drop_first() =~= s.skip(1));
        lemma_trim_front_skip(s.skip(1), i - 1);
        assert(s.skip(1).skip(i - 1) =~= s.skip(i));
    } else {
        assert(s.skip(0) =~= s);
    }
}

proof fn lemma_trim_back_take(s: Seq<char>, k: int)
    requires
        0 <= k <= s.len(),
        forall|j: int| k <= j < s.len() ==> is_ws(s[j]),
        k > 0 ==> !is_ws(s[k - 1]),
    ensures
        trim_back(s) == s.take(k),
    decreases s.len(),
{
    if s.len() > 0 && is_ws(s.last()) {
        assert(k < s.len());
        lemma_trim_back_take(s.drop_last(), k);
        assert(s.drop_last().take(k) =~= s.take(k));
    } else {
        assert(k == s.len());
        assert(s.take(k) =~= s);
    }
}

pub proof fn lemma_trim_ws_no_ws(s: Seq<char>)
    requires
        forall|j: int| 0 <= j < s.len() ==> !is_ws(s[j]),
    ensures
        trim_ws(s) == s,
{
    assert(trim_front(s) == s);
    assert(trim_back(s) == s);
}

proof fn lemma_trim_back_bounds(s: Seq<char>)
    ensures
        trim_back(s).len() <= s.len(),
        forall|j: int| 0 <= j < trim_back(s).len() ==> trim_back(s)[j] == s[j],
        trim_back(s).len() > 0 ==> !is_ws(trim_back(s).last()),
    decreases s.len(),
{
    if s.len() > 0 && is_ws(s.last()) {
        lemma_trim_back_bounds(s.drop_last());
        assert forall|j: int| 0 <= j < trim_back(s).len() implies trim_back(s)[j] == s[j] by {
            assert(trim_back(s)[j] == s.drop_last()[j]);
        }
    }
}

proof fn lemma_trim_front_head(s: Seq<char>)
    ensures
        trim_front(s).len() > 0 ==> !is_ws(trim_front(s)[0]),
    decreases s.len(),
{
    if s.len() > 0 && is_ws(s[0]) {
        lemma_trim_front_head(s.drop_first());
    }
}

/// Trimming is idempotent: the text of a parsed field is unchanged by a
/// second parse.
pub proof fn lemma_trim_ws_idempotent(s: Seq<char>)
    ensures
        trim_ws(trim_ws(s)) == trim_ws(s),
{
    let f = trim_front(s);
    let u = trim_back(f);
    lemma_trim_front_head(s);
    lemma_trim_back_bounds(f);
    if u.len() > 0 {
        assert(u[0] == f[0]);
        assert(!is_ws(u[0]));
        assert(trim_front(u) == u);
        assert(!is_ws(u.last()));
        assert(trim_back(u) == u);
    } else {
        assert(u =~= Seq::<char>::empty());
        assert(trim_front(u) == u);
        assert(trim_back(u) == u);
    }
}

fn is_ws_exec(c: char) -> (r: bool)
    ensures
        r == is_ws(c),
{
    c == ' ' || c == '\t' || c == '\n' || c == '\r'
}

/// `s` with leading and trailing whitespace removed.
pub fn trim(s: &str) -> (r: String)
    ensures
        r@ == trim_ws(s@),
{
    let len = s.unicode_len();
    let mut start: usize = 0;
    while start < len && is_ws_exec(s.get_char(start))
        invariant
            start <= len,
            len == s@.len(),
            forall|j: int| 0 <= j < start ==> is_ws(s@[j]),
        decreases len - start,
    {
        start += 1;
    }
    proof {
        lemma_trim_front_skip(s@, start as int);
    }
    let mut end: usize = len;
    while end > start && is_ws_exec(s.get_char(end - 1))
        invariant
            start <= end <= len,
            len == s@.len(),
            forall|j: int| 0 <= j < start ==> is_ws(s@[j]),
            forall|j: int| end <= j < len ==> is_ws(s@[j]),
        decreases end,
    {
        end -= 1;
    }
    let piece = s.substring_char(start, end);
    proof {
        let f = trim_front(s@);
        assert(f == trim_front(s@.skip(start as int)));
        if start < len && !is_ws(s@[start as int]) {
            assert(s@.skip(start as int)[0] == s@[start as int]);
            assert(f == s@.skip(start as int));
        } else {
            assert(start == len);
            assert(s@.skip(start as int) =~= Seq::<char>::empty());
            assert(f =~= s@.skip(start as int));
        }
        assert(forall|j: int|
            0 <= j < f.len() ==> f[j] == s@[j + start]);
        lemma_trim_back_take(f, end - start);
        assert(trim_ws(s@) == f.take(end - start));
        assert(piece@ =~= f.take(end - start));
    }
    piece.to_owned()
}

pub open spec fn is_dec_digit(c: char) -> bool {
    ('0' as u32) <= (c as u32) && (c as u32) <= ('9' as u32)
}

pub open spec fn dec_digit_val(c: char) -> int {
    c as u32 - '0' as u32
}

pub open spec fn is_hex_digit(c: char) -> bool {
    is_dec_digit(c) || (('a' as u32) <= (c as u32) && (c as u32) <= ('f' as u32)) || (('A'
        as u32) <= (c as u32) && (c as u32) <= ('F' as u32))
}

pub open spec fn hex_digit_val(c: char) -> int {
    if is_dec_digit(c) {
        dec_digit_val(c)
    } else if ('a' as u32) <= (c as u32) && (c as u32) <= ('f' as u32) {
        c as u32 - 'a' as u32 + 10
    } else {
        c as u32 - 'A' as u32 + 10
    }
}

pub open spec fn all_dec(s: Seq<char>) -> bool {
    forall|i: int| 0 <= i < s.len() ==> is_dec_digit(s[i])
}

pub open spec fn all_hex(s: Seq<char>) -> bool {
    forall|i: int| 0 <= i < s.len() ==> is_hex_digit(s[i])
}

pub open spec fn dec_val(s: Seq<char>) -> int
    decreases s.len(),
{
    if s.len() == 0 {
        0
    } else {
        dec_val(s.drop_last()) * 10 + dec_digit_val(s.last())
    }
}

pub open spec fn hex_val(s: Seq<char>) -> int
    decreases s.len(),
{
    if s.len() == 0 {
        0
    } else {
        hex_val(s.drop_last()) * 16 + hex_digit_val(s.last())
    }
}

pub open spec fn has_hex_prefix(s: Seq<char>) -> bool {
    s.len() >= 2 && s[0] == '0' && (s[1] == 'x' || s[1] == 'X')
}

/// The value of a numeric literal: decimal, or hexadecimal after a `0x` or
/// `0X` prefix.  `None` when the text is not a well-formed literal.
pub open spec fn num_of(s: Seq<char>) -> Option<int> {
    if has_hex_prefix(s) {
        if s.skip(2).len() > 0 && all_hex(s.skip(2)) {
            Some(hex_val(s.skip(2)))
        } else {
            None
        }
    } else {
        if s.len() > 0 && all_dec(s) {
            Some(dec_val(s))
        } else {
            None
        }
    }
}

/// A numeric literal coerced to `u32`: literals whose value does not fit are
/// rejected like any other malformed number.
pub open spec fn u32_of_text(s: Seq<char>) -> Option<u32> {
    match num_of(s) {
        Some(n) => if 0 <= n <= u32::MAX {
            Some(n as u32)
        } else {
            None
        },
        None => None,
    }
}

proof fn lemma_dec_val_bounds(s: Seq<char>)
    requires
        all_dec(s),
    ensures
        dec_val(s) >= 0,
        s.len() > 0 ==> dec_val(s) >= dec_val(s.drop_last()),
    decreases s.len(),
{
    if s.len() > 0 {
        assert(all_dec(s.drop_last()));
        lemma_dec_val_bounds(s.drop_last());
        assert(is_dec_digit(s.last()));
        assert(dec_digit_val(s.last()) >= 0);
    }
}

proof fn lemma_hex_val_bounds(s: Seq<char>)
    requires
        all_hex(s),
    ensures
        hex_val(s) >= 0,
        s.len() > 0 ==> hex_val(s) >= hex_val(s.drop_last()),
    decreases s.len(),
{
    if s.len() > 0 {
        assert(all_hex(s.drop_last()));
        lemma_hex_val_bounds(s.drop_last());
        assert(is_hex_digit(s.last()));
        assert(hex_digit_val(s.last()) >= 0);
    }
}

proof fn lemma_dec_val_prefix_monotonic(s: Seq<char>, i: int)
    requires
        all_dec(s),
        0 <= i <= s.len(),
    ensures
        dec_val(s) >= dec_val(s.take(i)),
    decreases s.len() - i,
{
    if i < s.len() {
        lemma_dec_val_prefix_monotonic(s, i + 1);
        assert(s.take(i + 1).drop_last() =~= s.take(i));
        assert(all_dec(s.take(i + 1)));
        lemma_dec_val_bounds(s.take(i + 1));
    } else {
        assert(s.take(i) =~= s);
    }
}

proof fn lemma_hex_val_prefix_monotonic(s: Seq<char>, i: int)
    requires
        all_hex(s),
        0 <= i <= s.len(),
    ensures
        hex_val(s) >= hex_val(s.take(i)),
    decreases s.len() - i,
{
    if i < s.len() {
        lemma_hex_val_prefix_monotonic(s, i + 1);
        assert(s.take(i + 1).drop_last() =~= s.take(i));
        assert(all_hex(s.take(i + 1)));
        lemma_hex_val_bounds(s.take(i + 1));
    } else {
        assert(s.take(i) =~= s);
    }
}

fn dec_digit_of(c: char) -> (r: Option<u32>)
    ensures
        match r {
            Some(v) => is_dec_digit(c) && v == dec_digit_val(c) && v < 10,
            None => !is_dec_digit(c),
        },
{
    let u = c as u32;
    if 48 <= u && u <= 57 {
        Some(u - 48)
    } else {
        None
    }
}

fn hex_digit_of(c: char) -> (r: Option<u32>)
    ensures
        match r {
            Some(v) => is_hex_digit(c) && v == hex_digit_val(c) && v < 16,
            None => !is_hex_digit(c),
        },
{
    let u = c as u32;
    if 48 <= u && u <= 57 {
        Some(u - 48)
    } else if 97 <= u && u <= 102 {
        Some(u - 97 + 10)
    } else if 65 <= u && u <= 70 {
        Some(u - 65 + 10)
    } else {
        None
    }
}

/// Parses the digits of `s` starting at `from` in the given base (10 or 16),
/// rejecting empty digit runs, stray characters and values over `u32::MAX`.
fn parse_digits(s: &str, from: usize, hex: bool) -> (r: Option<u32>)
    requires
        from <= s@.len(),
    ensures
        ({
            let digits = s@.skip(from as int);
            match r {
                Some(v) => digits.len() > 0 && if hex {
                    all_hex(digits) && hex_val(digits) == v as int
                } else {
                    all_dec(digits) && dec_val(digits) == v as int
                },
                None => if hex {
                    digits.len() == 0 || !all_hex(digits) || hex_val(digits) > u32::MAX
                } else {
                    digits.len() == 0 || !all_dec(digits) || dec_val(digits) > u32::MAX
                },
            }
        }),
{
    let ghost digits = s@.skip(from as int);
    let len = s.unicode_len();
    if from == len {
        return None;
    }
    let base: u32 = if hex { 16 } else { 10 };
    let mut acc: u32 = 0;
    let mut i: usize = from;
    while i < len
        invariant
            from <= i <= len,
            len == s@.len(),
            digits == s@.skip(from as int),
            base == if hex { 16u32 } else { 10u32 },
            if hex {
                all_hex(digits.take(i - from)) && hex_val(digits.take(i - from)) == acc as int
            } else {
                all_dec(digits.take(i - from)) && dec_val(digits.take(i - from)) == acc as int
            },
        decreases len - i,
    {
        let c = s.get_char(i);
        proof {
            assert(digits[i - from] == s@[i as int]);
        }
        let d = if hex {
            hex_digit_of(c)
        } else {
            dec_digit_of(c)
        };
        let d = match d {
            Some(d) => d,
            None => {
                proof {
                    if hex {
                        assert(!all_hex(digits));
                    } else {
                        assert(!all_dec(digits));
                    }
                }
                return None;
            },
        };
        if acc > (u32::MAX - d) / base {
            proof {
                let pre = digits.take(i - from + 1);
                assert(pre.drop_last() =~= digits.take(i - from));
                assert(pre.last() == digits[i - from]);
                let a = acc as int;
                let b = base as int;
                let m = (u32::MAX - d) as int;
                assert(a * b + d as int > u32::MAX) by (nonlinear_arith)
                    requires
                        a > m / b,
                        b > 0,
                        m == u32::MAX - d,
                        0 <= d as int,
                ;
                if hex {
                    assert(hex_val(pre) == acc as int * 16 + d as int);
                    assert(hex_val(pre) > u32::MAX);
                    if all_hex(digits) {
                        lemma_hex_val_prefix_monotonic(digits, i - from + 1);
                    }
                } else {
                    assert(dec_val(pre) == acc as int * 10 + d as int);
                    assert(dec_val(pre) > u32::MAX);
                    if all_dec(digits) {
                        lemma_dec_val_prefix_monotonic(digits, i - from + 1);
                    }
                }
            }
            return None;
        }
        proof {
            let a = acc as int;
            let b = base as int;
            let m = (u32::MAX - d) as int;
            assert(a * b + d as int <= u32::MAX) by (nonlinear_arith)
                requires
                    a <= m / b,
                    b > 0,
                    0 <= a,
                    m == u32::MAX - d,
                    0 <= d as int,
            ;
            let pre = digits.take(i - from + 1);
            assert(pre.drop_last() =~= digits.take(i - from));
            assert(pre.last() == digits[i - from]);
        }
        acc = acc * base + d;
        i += 1;
    }
    proof {
        assert(digits.take(len - from) =~= digits);
    }
    Some(acc)
}

/// Parses a numeric literal, decimal or `0x`-prefixed hexadecimal.
pub fn parse_u32_text(s: &str) -> (r: Option<u32>)
    ensures
        r == u32_of_text(s@),
{
    let len = s.unicode_len();
    let hex = len >= 2 && s.get_char(0) == '0' && {
        let c1 = s.get_char(1);
        c1 == 'x' || c1 == 'X'
    };
    proof {
        assert(hex == has_hex_prefix(s@));
    }
    if hex {
        let r = parse_digits(s, 2, true);
        proof {
            if s@.skip(2).len() > 0 && all_hex(s@.skip(2)) {
                lemma_hex_val_bounds(s@.skip(2));
            }
        }
        r
    } else {
        let r = parse_digits(s, 0, false);
        proof {
            assert(s@.skip(0) =~= s@);
            if s@.len() > 0 && all_dec(s@) {
                lemma_dec_val_bounds(s@);
            }
        }
        r
    }
}

/// The canonical decimal rendering of a number.
pub open spec fn dec_char(d: int) -> char {
    if d == 0 {
        '0'
    } else if d == 1 {
        '1'
    } else if d == 2 {
        '2'
    } else if d == 3 {
        '3'
    } else if d == 4 {
        '4'
    } else if d == 5 {
        '5'
    } else if d == 6 {
        '6'
    } else if d == 7 {
        '7'
    } else if d == 8 {
        '8'
    } else {
        '9'
    }
}

pub open spec fn dec_str(v: int) -> Seq<char>
    decreases v,
{
    if v < 10 {
        seq![dec_char(v)]
    } else {
        dec_str(v / 10).push(dec_char(v % 10))
    }
}

/// The decimal rendering of a number consists of decimal digits and reads
/// back as the same number.
pub proof fn lemma_dec_str_val(v: int)
    requires
        v >= 0,
    ensures
        dec_str(v).len() >= 1,
        all_dec(dec_str(v)),
        dec_val(dec_str(v)) == v,
        num_of(dec_str(v)) == Some(v),
        forall|j: int| 0 <= j < dec_str(v).len() ==> !is_ws(#[trigger] dec_str(v)[j]),
    decreases v,
{
    if v < 10 {
        let s = dec_str(v);
        assert(s =~= seq![dec_char(v)]);
        assert(s.drop_last() =~= Seq::<char>::empty());
        assert(dec_val(Seq::<char>::empty()) == 0);
        assert(is_dec_digit(dec_char(v)) && dec_digit_val(dec_char(v)) == v);
        assert(all_dec(s));
        assert(dec_val(s) == v);
        assert(!has_hex_prefix(s));
    } else {
        lemma_dec_str_val(v / 10);
        let s = dec_str(v);
        let p = dec_str(v / 10);
        assert(s == p.push(dec_char(v % 10)));
        assert(s.drop_last() =~= p);
        assert(s.last() == dec_char(v % 10));
        assert(is_dec_digit(dec_char(v % 10)) && dec_digit_val(dec_char(v % 10)) == v % 10);
        assert(all_dec(s)) by {
            assert(forall|j: int| 0 <= j < s.len() - 1 ==> s[j] == p[j]);
        }
        assert(dec_val(p) == v / 10);
        assert(dec_val(s) == dec_val(p) * 10 + v % 10);
        vstd::arithmetic::div_mod::lemma_fundamental_div_mod(v, 10);
        assert(v == 10 * (v / 10) + (v % 10));
        assert(dec_val(s) == v);
        assert(!has_hex_prefix(s)) by {
            if s.len() >= 2 {
                let c1 = s[1];
                assert(is_dec_digit(c1));
                assert(c1 != 'x' && c1 != 'X');
            }
        }
    }
}

fn digit_str(d: u32) -> (r: &'static str)
    requires
        d < 10,
    ensures
        r@ == seq![dec_char(d as int)],
{
    proof {
        reveal_strlit("0");
        reveal_strlit("1");
        reveal_strlit("2");
        reveal_strlit("3");
        reveal_strlit("4");
        reveal_strlit("5");
        reveal_strlit("6");
        reveal_strlit("7");
        reveal_strlit("8");
        reveal_strlit("9");
    }
    let r = if d == 0 {
        "0"
    } else if d == 1 {
        "1"
    } else if d == 2 {
        "2"
    } else if d == 3 {
        "3"
    } else if d == 4 {
        "4"
    } else if d == 5 {
        "5"
    } else if d == 6 {
        "6"
    } else if d == 7 {
        "7"
    } else if d == 8 {
        "8"
    } else {
        "9"
    };
    proof {
        assert(r@ =~= seq![dec_char(d as int)]);
    }
    r
}

/// Renders `v` in decimal.
pub fn u32_to_dec(v: u32) -> (r: String)
    ensures
        r@ == dec_str(v as int),
    decreases v,
{
    if v < 10 {
        let s = digit_str(v);
        s.to_owned()
    } else {
        let mut s = u32_to_dec(v / 10);
        s.append(digit_str(v % 10));
        proof {
            assert(s@ =~= dec_str(v as int / 10).push(dec_char(v as int % 10)));
        }
        s
    }
}

} // verus!
