//! Verified string helpers: equality, prefix/suffix tests, decimal
//! formatting and parsing, all specified over `Seq<char>` views.

use vstd::prelude::*;

verus! {

/// The character for one decimal digit value.
pub open spec fn digit_char(d: int) -> char {
    if d == 0 {
        '0'
    } else if d == 1 {
        '1'
    } else if d == 2 {
        '2'
    } else if d == 3 {
        '3'
    } else if d == 4 {
        '4'
    } else if d == 5 {
        '5'
    } else if d == 6 {
        '6'
    } else if d == 7 {
        '7'
    } else if d == 8 {
        '8'
    } else {
        '9'
    }
}

/// Decimal representation of `n`, most significant digit first.
pub open spec fn dec_str(n: nat) -> Seq<char>
    decreases n,
{
    if n < 10 {
        seq![digit_char(n as int)]
    } else {
        dec_str(n / 10) + seq![digit_char((n % 10) as int)]
    }
}

/// Decimal representation of a signed value: a minus sign before the digits
/// of the magnitude when the value is negative.
pub open spec fn dec_str_signed(n: int) -> Seq<char> {
    if n < 0 {
        seq!['-'] + dec_str((-n) as nat)
    } else {
        dec_str(n as nat)
    }
}

fn digit_str(d: u64) -> (r: &'static str)
    requires
        d < 10,
    ensures
        r@ == seq![digit_char(d as int)],
{
    let r = match d {
        0 => "0",
        1 => "1",
        2 => "2",
        3 => "3",
        4 => "4",
        5 => "5",
        6 => "6",
        7 => "7",
        8 => "8",
        _ => "9",
    };
    proof {
        reveal_strlit("0");
        reveal_strlit("1");
        reveal_strlit("2");
        reveal_strlit("3");
        reveal_strlit("4");
        reveal_strlit("5");
        reveal_strlit("6");
        reveal_strlit("7");
        reveal_strlit("8");
        reveal_strlit("9");
        assert(r@ =~= seq![digit_char(d as int)]);
    }
    r
}

/// Format `n` in decimal.
pub fn u64_to_string(n: u64) -> (r: String)
    ensures
        r@ == dec_str(n as nat),
    decreases n,
{
    if n < 10 {
        String::from_str(digit_str(n))
    } else {
        let mut r = u64_to_string(n / 10);
        r.append(digit_str(n % 10));
        r
    }
}

/// Format a signed value in decimal.
pub fn i64_to_string(n: i64) -> (r: String)
    ensures
        r@ == dec_str_signed(n as int),
{
    if n < 0 {
        let mut r = String::from_str("-");
        let m: u64 = if n == i64::MIN {
            9223372036854775808u64
        } else {
            (-n) as u64
        };
        r.append(u64_to_string(m).as_str());
        proof {
            reveal_strlit("-");
            assert(r@ =~= dec_str_signed(n as int));
        }
        r
    } else {
        u64_to_string(n as u64)
    }
}

/// `true` when the views of the two strings are equal.
pub fn str_eq(a: &str, b: &str) -> (r: bool)
    ensures
        r == (a@ == b@),
{
    let la = a.unicode_len();
    let lb = b.unicode_len();
    if la != lb {
        return false;
    }
    let mut i: usize = 0;
    while i < la
        invariant
            i <= la,
            la == a@.len(),
            la == b@.len(),
            forall|j: int| 0 <= j < i ==> a@[j] == b@[j],
        decreases la - i,
    {
        if a.get_char(i) != b.get_char(i) {
            return false;
        }
        i = i + 1;
    }
    proof {
        assert(a@ =~= b@);
    }
    true
}

/// `p` is a prefix of `s`.
pub open spec fn is_prefix(s: Seq<char>, p: Seq<char>) -> bool {
    p.len() <= s.len() && (forall|j: int| 0 <= j < p.len() ==> s[j] == p[j])
}

/// `p` is a suffix of `s`.
pub open spec fn is_suffix(s: Seq<char>, p: Seq<char>) -> bool {
    p.len() <= s.len() && (forall|j: int|
        0 <= j < p.len() ==> s[s.len() - p.len() + j] == p[j])
}

/// Decide whether `p@` is a prefix of `s@`.
pub fn starts_with(s: &str, p: &str) -> (r: bool)
    ensures
        r == is_prefix(s@, p@),
{
    let ls = s.unicode_len();
    let lp = p.unicode_len();
    if lp > ls {
        return false;
    }
    let mut i: usize = 0;
    while i < lp
        invariant
            i <= lp,
            lp <= ls,
            ls == s@.len(),
            lp == p@.len(),
            forall|j: int| 0 <= j < i ==> s@[j] == p@[j],
        decreases lp - i,
    {
        if s.get_char(i) != p.get_char(i) {
            return false;
        }
        i = i + 1;
    }
    true
}

/// Decide whether `p@` is a suffix of `s@`.
pub fn ends_with(s: &str, p: &str) -> (r: bool)
    ensures
        r == is_suffix(s@, p@),
{
    let ls = s.unicode_len();
    let lp = p.unicode_len();
    if lp > ls {
        return false;
    }
    let off = ls - lp;
    let mut i: usize = 0;
    while i < lp
        invariant
            i <= lp,
            lp <= ls,
            off == ls - lp,
            ls == s@.len(),
            lp == p@.len(),
            forall|j: int| 0 <= j < i ==> s@[off + j] == p@[j],
        decreases lp - i,
    {
        if s.get_char(off + i) != p.get_char(i) {
            return false;
        }
        i = i + 1;
    }
    true
}

/// The characters this library strips from either end of a read text value:
/// the ASCII whitespace that system files actually contain.
pub open spec fn is_trim_char(c: char) -> bool {
    c == ' ' || c == '\n' || c == '\t' || c == '\r'
}

/// The view of `s` with leading and trailing whitespace removed.
pub open spec fn trimmed(s: Seq<char>) -> Seq<char>
    decreases s.len(),
{
    if s.len() == 0 {
        s
    } else if is_trim_char(s[0]) {
        trimmed(s.drop_first())
    } else if is_trim_char(s[s.len() - 1]) {
        trimmed(s.drop_last())
    } else {
        s
    }
}

/// Strip leading and trailing ASCII whitespace.
pub fn trim(s: &str) -> (r: String)
    ensures
        r@ == trimmed(s@),
{
    let len = s.unicode_len();
    let mut lo: usize = 0;
    let mut hi: usize = len;
    proof {
        assert(s@.subrange(0, len as int) =~= s@);
    }
    while lo < hi && is_trim_char_exec(s.get_char(lo))
        invariant
            0 <= lo <= hi <= len,
            len == s@.len(),
            trimmed(s@) == trimmed(s@.subrange(lo as int, hi as int)),
            hi == len,
        decreases hi - lo,
    {
        proof {
            lemma_trim_drop_first(s@.subrange(lo as int, hi as int));
            assert(s@.subrange(lo as int, hi as int).drop_first() =~= s@.subrange(
                lo as int + 1,
                hi as int,
            ));
        }
        lo = lo + 1;
    }
    while lo < hi && is_trim_char_exec(s.get_char(hi - 1))
        invariant
            0 <= lo <= hi <= len,
            len == s@.len(),
            trimmed(s@) == trimmed(s@.subrange(lo as int, hi as int)),
            lo < hi ==> !is_trim_char(s@[lo as int]),
        decreases hi - lo,
    {
        proof {
            lemma_trim_drop_last(s@.subrange(lo as int, hi as int));
            assert(s@.subrange(lo as int, hi as int).drop_last() =~= s@.subrange(
                lo as int,
                hi as int - 1,
            ));
        }
        hi = hi - 1;
    }
    let mut r = String::new();
    let mut i: usize = lo;
    while i < hi
        invariant
            lo <= i <= hi <= len,
            len == s@.len(),
            r@ == s@.subrange(lo as int, i as int),
        decreases hi - i,
    {
        push_char(&mut r, s.get_char(i));
        proof {
            assert(r@ =~= s@.subrange(lo as int, i as int + 1));
        }
        i = i + 1;
    }
    proof {
        lemma_trim_clean(s@.subrange(lo as int, hi as int));
        assert(r@ =~= s@.subrange(lo as int, hi as int));
    }
    r
}

fn is_trim_char_exec(c: char) -> (r: bool)
    ensures
        r == is_trim_char(c),
{
    c == ' ' || c == '\n' || c == '\t' || c == '\r'
}

proof fn lemma_trim_drop_first(s: Seq<char>)
    requires
        s.len() > 0,
        is_trim_char(s[0]),
    ensures
        trimmed(s) == trimmed(s.drop_first()),
{
}

proof fn lemma_trim_drop_last(s: Seq<char>)
    requires
        s.len() > 0,
        !is_trim_char(s[0]) || s.len() == 1,
        is_trim_char(s[s.len() - 1]),
    ensures
        trimmed(s) == trimmed(s.drop_last()),
{
    if s.len() == 1 {
        assert(s.drop_last() =~= s.drop_first());
    }
}

proof fn lemma_trim_clean(s: Seq<char>)
    requires
        s.len() == 0 || (!is_trim_char(s[0]) && !is_trim_char(s[s.len() - 1])),
    ensures
        trimmed(s) == s,
{
}

/// Relies on String::push: appends exactly the given character.
#[verifier::external_body]
pub fn push_char(s: &mut String, c: char)
    ensures
        final(s)@ == old(s)@.push(c),
{
    s.push(c);
}

/// Every character of `s` is a decimal digit and there is at least one.
pub open spec fn is_digits(s: Seq<char>) -> bool {
    s.len() > 0 && (forall|j: int| 0 <= j < s.len() ==> '0' <= #[trigger] s[j] <= '9')
}

/// Numeric value of a digit string, most significant digit first.
pub open spec fn dec_val(s: Seq<char>) -> nat
    decreases s.len(),
{
    if s.len() == 0 {
        0
    } else {
        (dec_val(s.drop_last()) * 10 + (s[s.len() - 1] as int - '0' as int)) as nat
    }
}

/// Parse a decimal digit string as `u64`: `Some` exactly when `s` is one or
/// more digits whose value fits.
pub fn parse_u64(s: &str) -> (r: Option<u64>)
    ensures
        match r {
            Some(n) => is_digits(s@) && n as nat == dec_val(s@) && dec_val(s@) <= u64::MAX,
            None => !is_digits(s@) || dec_val(s@) > u64::MAX,
        },
{
    let len = s.unicode_len();
    if len == 0 {
        return None;
    }
    let mut acc: u64 = 0;
    let mut i: usize = 0;
    while i < len
        invariant
            0 <= i <= len,
            len == s@.len(),
            forall|j: int| 0 <= j < i ==> '0' <= #[trigger] s@[j] <= '9',
            acc as nat == dec_val(s@.subrange(0, i as int)),
        decreases len - i,
    {
        let c = s.get_char(i);
        if !('0' <= c && c <= '9') {
            return None;
        }
        let d: u32 = c as u32 - 48;
        proof {
            assert(s@.subrange(0, i as int + 1).drop_last() =~= s@.subrange(0, i as int));
            assert(dec_val(s@.subrange(0, i as int + 1)) == acc as int * 10 + (c as int
                - '0' as int));
        }
        if acc > 1844674407370955161u64 || (acc == 1844674407370955161u64 && d > 5) {
            proof {
                if is_digits(s@) {
                    lemma_dec_val_prefix_grows(s@, i as int + 1);
                }
            }
            return None;
        }
        acc = acc * 10 + (d as u64);
        i = i + 1;
    }
    proof {
        assert(s@.subrange(0, len as int) =~= s@);
    }
    Some(acc)
}

/// The value of a digit string is at least the value of any of its prefixes
/// scaled up, so an overflowing prefix makes the whole string overflow.
proof fn lemma_dec_val_prefix_grows(s: Seq<char>, k: int)
    requires
        0 < k <= s.len(),
        forall|j: int| 0 <= j < s.len() ==> '0' <= #[trigger] s[j] <= '9',
    ensures
        dec_val(s) >= dec_val(s.subrange(0, k)),
    decreases s.len() - k,
{
    if k == s.len() {
        assert(s.subrange(0, k) =~= s);
    } else {
        lemma_dec_val_prefix_grows(s, k + 1);
        assert(s.subrange(0, k + 1).drop_last() =~= s.subrange(0, k));
        assert(dec_val(s.subrange(0, k + 1)) >= dec_val(s.subrange(0, k)) * 10) by {
            assert(s.subrange(0, k + 1)[k] as nat >= '0' as nat);
        }
        assert(dec_val(s.subrange(0, k)) * 10 >= dec_val(s.subrange(0, k))) by (nonlinear_arith);
    }
}

/// Parse a decimal digit string as `u32`.
pub fn parse_u32(s: &str) -> (r: Option<u32>)
    ensures
        match r {
            Some(n) => is_digits(s@) && n as nat == dec_val(s@) && dec_val(s@) <= u32::MAX,
            None => !is_digits(s@) || dec_val(s@) > u32::MAX,
        },
{
    match parse_u64(s) {
        None => None,
        Some(n) => {
            if n > 4294967295u64 {
                None
            } else {
                Some(n as u32)
            }
        },
    }
}

} // verus!
