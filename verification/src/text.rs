//! Verified text helpers: prefix tests, base-name extraction from a
//! slash-separated path, decimal formatting, and unsigned decimal parsing.
use vstd::prelude::*;
use vstd::string::StrSliceExecFns;

verus! {

/// `p` is a prefix of `s`.
pub open spec fn is_prefix_of(p: Seq<char>, s: Seq<char>) -> bool {
    p.len() <= s.len() && s.subrange(0, p.len() as int) == p
}

/// Character-by-character prefix test.
pub fn str_starts_with(s: &str, p: &str) -> (r: bool)
    ensures
        r == is_prefix_of(p@, s@),
{
    let n = p.unicode_len();
    if s.unicode_len() < n {
        return false;
    }
    let mut i: usize = 0;
    while i < n
        invariant
            0 <= i <= n,
            n == p@.len(),
            s@.len() >= n,
            forall|j: int| 0 <= j < i ==> s@[j] == p@[j],
        decreases n - i,
    {
        if s.get_char(i) != p.get_char(i) {
            assert(s@.subrange(0, n as int)[i as int] != p@[i as int]);
            return false;
        }
        i += 1;
    }
    assert(s@.subrange(0, n as int) =~= p@);
    true
}

/// Index where the base name (the text after the last `/`) begins.
pub open spec fn base_start(path: Seq<char>) -> int
    decreases path.len(),
{
    if path.len() == 0 {
        0
    } else if path.last() == '/' {
        path.len() as int
    } else {
        base_start(path.drop_last())
    }
}

/// The base name of a slash-separated path: everything after the last `/`,
/// or the whole path when it contains no `/`.
pub open spec fn base_name(path: Seq<char>) -> Seq<char> {
    path.subrange(base_start(path), path.len() as int)
}

proof fn lemma_base_start_at(path: Seq<char>, i: int)
    requires
        0 <= i <= path.len(),
        i == 0 || path[i - 1] == '/',
        forall|j: int| i <= j < path.len() ==> path[j] != '/',
    ensures
        base_start(path) == i,
    decreases path.len(),
{
    if path.len() == 0 {
    } else if i == path.len() {
        assert(path.last() == '/');
    } else {
        assert(path.last() != '/');
        assert(forall|j: int| i <= j < path.drop_last().len() ==> path.drop_last()[j] != '/');
        if i > 0 {
            assert(path.drop_last()[i - 1] == '/');
        }
        lemma_base_start_at(path.drop_last(), i);
    }
}

/// Finds the index where the base name of a path begins.
pub fn base_start_of(path: &str) -> (r: usize)
    ensures
        r == base_start(path@),
        r <= path@.len(),
{
    let n = path.unicode_len();
    let mut i: usize = n;
    while i > 0 && path.get_char(i - 1) != '/'
        invariant
            0 <= i <= n,
            n == path@.len(),
            forall|j: int| i <= j < n ==> path@[j] != '/',
        decreases i,
    {
        i -= 1;
    }
    proof {
        lemma_base_start_at(path@, i as int);
    }
    i
}

/// Extracts the base name of a path as a sub-slice.
pub fn base_name_of(path: &str) -> (r: &str)
    ensures
        r@ == base_name(path@),
{
    let i = base_start_of(path);
    path.substring_char(i, path.unicode_len())
}

/// The character for a single decimal digit value.
pub open spec fn dec_digit(d: nat) -> char {
    ((48 + d) as char)
}

/// The decimal representation of `n`, most significant digit first,
/// without leading zeros (except for `n == 0` itself).
pub open spec fn dec_digits(n: nat) -> Seq<char>
    decreases n,
{
    if n < 10 {
        seq![dec_digit(n)]
    } else {
        dec_digits(n / 10).push(dec_digit(n % 10))
    }
}

/// Formats `n` in decimal.
pub fn u64_to_string(n: u64) -> (s: String)
    ensures
        s@ == dec_digits(n as nat),
    decreases n,
{
    let digits = "0123456789";
    proof {
        reveal_strlit("0123456789");
    }
    if n < 10 {
        let d = n as usize;
        let piece = digits.substring_char(d, d + 1);
        assert(piece@ =~= seq![dec_digit(n as nat)]);
        piece.to_owned()
    } else {
        let high = u64_to_string(n / 10);
        let d = (n % 10) as usize;
        let piece = digits.substring_char(d, d + 1);
        assert(piece@ =~= seq![dec_digit((n % 10) as nat)]);
        let r = high.concat(piece);
        assert(r@ =~= dec_digits(n as nat));
        r
    }
}

/// Law: the decimal representation is faithful; its digits read back as
/// the number itself.
pub proof fn lemma_dec_digits_value(n: nat)
    ensures
        dec_digits(n).len() >= 1,
        all_digits(dec_digits(n)),
        digits_val(dec_digits(n)) == n,
    decreases n,
{
    if n < 10 {
        assert(dec_digits(n) == seq![dec_digit(n)]);
        assert(is_digit(dec_digit(n)));
        assert(digit_val(dec_digit(n)) == n);
        assert(all_digits(dec_digits(n))) by {
            assert(dec_digits(n)[0] == dec_digit(n));
        }
        assert(digits_val(dec_digits(n)) == n) by {
            assert(dec_digits(n).drop_last() =~= Seq::<char>::empty());
            assert(digits_val(Seq::<char>::empty()) == 0);
            assert(dec_digits(n).last() == dec_digit(n));
        }
    } else {
        lemma_dec_digits_value(n / 10);
        let whole = dec_digits(n);
        assert(whole.drop_last() == dec_digits(n / 10));
        assert(whole.last() == dec_digit(n % 10));
        assert(is_digit(dec_digit(n % 10)));
        assert(digit_val(dec_digit(n % 10)) == n % 10);
        assert(forall|j: int| 0 <= j < whole.len() ==> is_digit(#[trigger] whole[j])) by {
            assert(forall|j: int|
                0 <= j < whole.len() - 1 ==> whole[j] == #[trigger] whole.drop_last()[j]);
        }
        assert(digits_val(whole) == (n / 10) * 10 + n % 10);
        assert((n / 10) * 10 + n % 10 == n) by (nonlinear_arith);
    }
}

/// `c` is an ASCII decimal digit.
pub open spec fn is_digit(c: char) -> bool {
    '0' <= c && c <= '9'
}

/// The numeric value of a digit character.
pub open spec fn digit_val(c: char) -> nat {
    ((c as int) - 48) as nat
}

/// Every character of `t` is a decimal digit.
pub open spec fn all_digits(t: Seq<char>) -> bool {
    forall|j: int| 0 <= j < t.len() ==> is_digit(#[trigger] t[j])
}

/// The value of a digit string read in base 10.
pub open spec fn digits_val(t: Seq<char>) -> nat
    decreases t.len(),
{
    if t.len() == 0 {
        0
    } else {
        digits_val(t.drop_last()) * 10 + digit_val(t.last())
    }
}

/// The digits of a numeral after an optional leading `+` sign.
pub open spec fn numeral_body(t: Seq<char>) -> Seq<char> {
    if t.len() > 0 && t[0] == '+' {
        t.skip(1)
    } else {
        t
    }
}

/// `t` parses as a `u32`: an optional `+`, then at least one digit,
/// with a value that fits.
pub open spec fn parses_as_u32(t: Seq<char>) -> bool {
    let b = numeral_body(t);
    b.len() > 0 && all_digits(b) && digits_val(b) <= u32::MAX
}

/// The value of a numeral that parses as a `u32`.
pub open spec fn u32_numeral_val(t: Seq<char>) -> nat {
    digits_val(numeral_body(t))
}

proof fn lemma_digits_val_take_le(t: Seq<char>, k: int)
    requires
        0 <= k <= t.len(),
    ensures
        digits_val(t.take(k)) <= digits_val(t),
    decreases t.len() - k,
{
    if k < t.len() {
        assert(t.take(k + 1).drop_last() =~= t.take(k));
        assert(t.take(k + 1).last() == t[k]);
        assert(digits_val(t.take(k + 1)) == digits_val(t.take(k)) * 10 + digit_val(t[k]));
        lemma_digits_val_take_le(t, k + 1);
    } else {
        assert(t.take(k) =~= t);
    }
}

/// Parses a decimal `u32` numeral, accepting an optional leading `+`.
pub fn parse_u32(s: &str) -> (r: Option<u32>)
    ensures
        r is Some <==> parses_as_u32(s@),
        r matches Some(v) ==> v as nat == u32_numeral_val(s@),
{
    let n = s.unicode_len();
    let mut start: usize = 0;
    if n > 0 && s.get_char(0) == '+' {
        start = 1;
    }
    let ghost b = numeral_body(s@);
    assert(b =~= s@.subrange(start as int, n as int));
    if start >= n {
        return None;
    }
    let mut acc: u32 = 0;
    let mut j: usize = start;
    while j < n
        invariant
            start < n,
            start <= j <= n,
            n == s@.len(),
            b == numeral_body(s@),
            b =~= s@.subrange(start as int, n as int),
            acc as nat == digits_val(s@.subrange(start as int, j as int)),
            forall|k: int| start <= k < j ==> is_digit(#[trigger] s@[k]),
        decreases n - j,
    {
        let c = s.get_char(j);
        if !(c >= '0' && c <= '9') {
            assert(b[j - start as int] == s@[j as int]);
            assert(!all_digits(b));
            return None;
        }
        let d: u32 = (c as u32) - 48;
        if acc > (u32::MAX - d) / 10 {
            proof {
                assert(s@.subrange(start as int, j as int + 1).drop_last() =~= s@.subrange(
                    start as int,
                    j as int,
                ));
                assert(digits_val(s@.subrange(start as int, j as int + 1)) == acc as nat * 10
                    + d as nat);
                assert(acc as nat * 10 + d as nat > u32::MAX) by (nonlinear_arith)
                    requires
                        acc > (u32::MAX - d) / 10,
                        d <= 9,
                ;
                assert(s@.subrange(start as int, j as int + 1) =~= b.take(
                    j as int + 1 - start as int,
                ));
                lemma_digits_val_take_le(b, j as int + 1 - start as int);
            }
            return None;
        }
        proof {
            assert(acc as nat * 10 + d as nat <= u32::MAX) by (nonlinear_arith)
                requires
                    acc <= (u32::MAX - d) / 10,
                    d <= 9,
            ;
            assert(s@.subrange(start as int, j as int + 1).drop_last() =~= s@.subrange(
                start as int,
                j as int,
            ));
        }
        acc = acc * 10 + d;
        j += 1;
    }
    assert(b =~= s@.subrange(start as int, n as int));
    Some(acc)
}

} // verus!
