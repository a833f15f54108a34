//! Character-level text helpers: conversions between `str` and `Vec<char>`,
//! decimal printing and parsing, and string comparison.
use vstd::prelude::*;

verus! {

/// Relies on `str::chars` and `Iterator::collect`: the characters of the
/// string, in order.
#[verifier::external_body]
pub fn chars_of(s: &str) -> (v: Vec<char>)
    ensures
        v@ == s@,
{
    s.chars().collect()
}

/// Relies on `Iterator::collect` for `String`: builds the string holding
/// exactly the given characters, in order.
#[verifier::external_body]
pub fn string_of(v: &Vec<char>) -> (s: String)
    ensures
        s@ == v@,
{
    v.iter().collect()
}

/// Push every character of `s` onto `out`.
pub fn push_chars(out: &mut Vec<char>, s: &str)
    ensures
        final(out)@ == old(out)@ + s@,
{
    let cs = chars_of(s);
    let mut i: usize = 0;
    while i < cs.len()
        invariant
            i <= cs.len(),
            cs@ == s@,
            out@ == old(out)@ + s@.take(i as int),
        decreases cs.len() - i,
    {
        out.push(cs[i]);
        i += 1;
        proof {
            assert(s@.take(i as int) == s@.take(i - 1) + seq![s@[i - 1]]);
        }
    }
    proof {
        assert(s@.take(cs@.len() as int) == s@);
    }
}

/// Whether two strings hold the same characters.
pub fn str_eq(a: &str, b: &str) -> (r: bool)
    ensures
        r == (a@ == b@),
{
    let va = chars_of(a);
    let vb = chars_of(b);
    chars_eq(&va, &vb)
}

/// Whether two character vectors are equal.
pub fn chars_eq(a: &Vec<char>, b: &Vec<char>) -> (r: bool)
    ensures
        r == (a@ == b@),
{
    if a.len() != b.len() {
        proof {
            assert(a@.len() != b@.len());
        }
        return false;
    }
    let mut i: usize = 0;
    while i < a.len()
        invariant
            i <= a.len(),
            a@.len() == b@.len(),
            forall|j: int| 0 <= j < i ==> a@[j] == b@[j],
        decreases a.len() - i,
    {
        if a[i] != b[i] {
            return false;
        }
        i += 1;
    }
    proof {
        assert(a@ =~= b@);
    }
    true
}

/// The character for a single decimal digit.
pub open spec fn digit_char(d: nat) -> char {
    (48 + d) as u8 as char
}

/// The decimal representation of `n`, most significant digit first.
pub open spec fn dec_digits(n: nat) -> Seq<char>
    decreases n,
{
    if n < 10 {
        seq![digit_char(n)]
    } else {
        dec_digits(n / 10) + seq![digit_char(n % 10)]
    }
}

fn digit_char_exec(d: u64) -> (c: char)
    requires
        d < 10,
    ensures
        c == digit_char(d as nat),
{
    (48 + d as u8) as char
}

/// Append the decimal digits of `n` to `out`.
pub fn push_dec_u64(out: &mut Vec<char>, n: u64)
    ensures
        final(out)@ == old(out)@ + dec_digits(n as nat),
    decreases n,
{
    if n >= 10 {
        push_dec_u64(out, n / 10);
        out.push(digit_char_exec(n % 10));
    } else {
        out.push(digit_char_exec(n));
    }
}

/// The decimal representation of `n` as a string.
pub fn u64_to_dec_string(n: u64) -> (s: String)
    ensures
        s@ == dec_digits(n as nat),
{
    let mut out: Vec<char> = Vec::new();
    push_dec_u64(&mut out, n);
    string_of(&out)
}

/// Whether `c` is a decimal digit.
pub open spec fn is_dec_digit(c: char) -> bool {
    '0' <= c && c <= '9'
}

/// Whether every character of `s` is a decimal digit.
pub open spec fn all_dec_digits(s: Seq<char>) -> bool {
    forall|i: int| 0 <= i < s.len() ==> is_dec_digit(#[trigger] s[i])
}

/// The numeric value of a sequence of decimal digits.
pub open spec fn dec_val(s: Seq<char>) -> nat
    decreases s.len(),
{
    if s.len() == 0 {
        0
    } else {
        (dec_val(s.drop_last()) * 10 + (s.last() as int - 48)) as nat
    }
}

/// Whether `s` is the text that `u64` parsing accepts: an optional leading
/// `+`, then one or more decimal digits, with a value that fits in a `u64`.
pub open spec fn is_u64_text(s: Seq<char>) -> bool {
    if s.len() > 0 && s[0] == '+' {
        s.len() > 1 && all_dec_digits(s.drop_first()) && dec_val(s.drop_first()) <= u64::MAX
    } else {
        s.len() > 0 && all_dec_digits(s) && dec_val(s) <= u64::MAX
    }
}

/// The `u64` value that `s` denotes, when `is_u64_text(s)` holds.
pub open spec fn u64_text_val(s: Seq<char>) -> nat {
    if s.len() > 0 && s[0] == '+' {
        dec_val(s.drop_first())
    } else {
        dec_val(s)
    }
}

proof fn lemma_dec_val_monotone(s: Seq<char>, i: int)
    requires
        0 <= i <= s.len(),
        all_dec_digits(s),
    ensures
        dec_val(s.take(i)) <= dec_val(s),
    decreases s.len() - i,
{
    if i < s.len() {
        lemma_dec_val_monotone(s, i + 1);
        assert(s.take(i + 1).drop_last() =~= s.take(i));
        assert(s.take(i + 1).last() == s[i]);
        assert(dec_val(s.take(i)) <= dec_val(s.take(i + 1)));
    } else {
        assert(s.take(i) =~= s);
    }
}

/// Parse the digits of `digits` into a value; `None` when `digits` is not a
/// nonempty all-digit sequence whose value fits in a `u64`.
fn parse_dec_digits(digits: &Vec<char>, from: usize) -> (r: Option<u64>)
    requires
        from <= digits.len(),
    ensures
        match r {
            Some(n) => {
                &&& digits@.skip(from as int).len() > 0
                &&& all_dec_digits(digits@.skip(from as int))
                &&& dec_val(digits@.skip(from as int)) == n as nat
            },
            None => {
                ||| digits@.skip(from as int).len() == 0
                ||| !all_dec_digits(digits@.skip(from as int))
                ||| dec_val(digits@.skip(from as int)) > u64::MAX
            },
        },
{
    let ghost s = digits@.skip(from as int);
    if from == digits.len() {
        return None;
    }
    let mut acc: u64 = 0;
    let mut i: usize = from;
    while i < digits.len()
        invariant
            from <= i <= digits.len(),
            s == digits@.skip(from as int),
            all_dec_digits(s.take(i - from)),
            acc as nat == dec_val(s.take(i - from)),
        decreases digits.len() - i,
    {
        let c = digits[i];
        proof {
            assert(s[i - from] == c);
        }
        if c < '0' || c > '9' {
            proof {
                assert(!is_dec_digit(s[i - from]));
            }
            return None;
        }
        let d = (c as u32 - 48) as u64;
        proof {
            assert(s.take(i - from + 1).drop_last() =~= s.take(i - from));
            assert(s.take(i - from + 1).last() == s[i - from]);
            assert(dec_val(s.take(i - from + 1)) == acc as nat * 10 + d as nat);
        }
        if acc > u64::MAX / 10 || (acc == u64::MAX / 10 && d > u64::MAX % 10) {
            proof {
                assert(acc as nat * 10 + d as nat > u64::MAX);
                if all_dec_digits(s) {
                    lemma_dec_val_monotone(s, i - from + 1);
                }
            }
            return None;
        }
        acc = acc * 10 + d;
        i += 1;
    }
    proof {
        assert(s.take(digits@.len() - from) =~= s);
    }
    Some(acc)
}

/// Parse `s` as `u64` text.  Mirrors what `u64` parsing in Rust accepts: an
/// optional leading `+`, then decimal digits.
pub fn parse_u64(s: &str) -> (r: Option<u64>)
    ensures
        match r {
            Some(n) => is_u64_text(s@) && u64_text_val(s@) == n as nat,
            None => !is_u64_text(s@),
        },
{
    let cs = chars_of(s);
    if cs.len() == 0 {
        return None;
    }
    if cs[0] == '+' {
        let r = parse_dec_digits(&cs, 1);
        proof {
            assert(cs@.skip(1) =~= s@.drop_first());
        }
        r
    } else {
        let r = parse_dec_digits(&cs, 0);
        proof {
            assert(cs@.skip(0) =~= cs@);
        }
        r
    }
}

/// Whether `c` occurs nowhere in `s`.
pub open spec fn no_char(s: Seq<char>, c: char) -> bool {
    forall|i: int| 0 <= i < s.len() ==> (#[trigger] s[i]) != c
}

/// The position of the first occurrence of `c` in `s`; `-1` when there is
/// none.
pub open spec fn first_index_of(s: Seq<char>, c: char) -> int
    decreases s,
{
    if s.len() == 0 {
        -1
    } else if s[0] == c {
        0
    } else {
        let r = first_index_of(s.drop_first(), c);
        if r < 0 {
            -1
        } else {
            r + 1
        }
    }
}

/// The first occurrence lies inside `s`, marks `c`, and nothing before it
/// is `c`; `-1` means `c` does not occur.
pub proof fn lemma_first_index_of(s: Seq<char>, c: char)
    ensures
        first_index_of(s, c) >= 0 ==> {
            &&& first_index_of(s, c) < s.len()
            &&& s[first_index_of(s, c)] == c
            &&& no_char(s.take(first_index_of(s, c)), c)
        },
        first_index_of(s, c) < 0 ==> no_char(s, c),
    decreases s,
{
    if s.len() > 0 && s[0] != c {
        lemma_first_index_of(s.drop_first(), c);
        let r = first_index_of(s.drop_first(), c);
        if r >= 0 {
            assert(s[r + 1] == s.drop_first()[r]);
            assert forall|i: int| 0 <= i < r + 1 implies (#[trigger] s[i]) != c by {
                if i > 0 {
                    assert(s.drop_first().take(r)[i - 1] == s[i]);
                }
            }
        } else {
            assert forall|i: int| 0 <= i < s.len() implies (#[trigger] s[i]) != c by {
                if i > 0 {
                    assert(s.drop_first()[i - 1] == s[i]);
                }
            }
        }
    }
}

/// Prepending a `c`-free sequence shifts the first occurrence of `c`.
pub proof fn lemma_first_index_of_concat(a: Seq<char>, b: Seq<char>, c: char)
    requires
        no_char(a, c),
    ensures
        first_index_of(a + b, c) == if first_index_of(b, c) < 0 {
            -1
        } else {
            a.len() + first_index_of(b, c)
        },
    decreases a,
{
    if a.len() == 0 {
        assert(a + b =~= b);
    } else {
        assert((a + b)[0] == a[0]);
        assert((a + b).drop_first() =~= a.drop_first() + b);
        assert forall|i: int| 0 <= i < a.drop_first().len() implies (#[trigger] a.drop_first()[i])
            != c by {
            assert(a.drop_first()[i] == a[i + 1]);
        }
        lemma_first_index_of_concat(a.drop_first(), b, c);
    }
}

/// Find the first `c` at or after `from` in `v`.
#[verifier::loop_isolation(false)]
pub fn find_char_from(v: &Vec<char>, from: usize, c: char) -> (r: Option<usize>)
    requires
        from <= v@.len(),
    ensures
        match r {
            Some(j) => from <= j < v@.len() && first_index_of(v@.skip(from as int), c) == j - from,
            None => first_index_of(v@.skip(from as int), c) == -1,
        },
{
    let ghost tail = v@.skip(from as int);
    let mut i: usize = from;
    while i < v.len()
        invariant
            from <= i <= v@.len(),
            first_index_of(tail, c) == if first_index_of(v@.skip(i as int), c) < 0 {
                -1int
            } else {
                first_index_of(v@.skip(i as int), c) + (i - from)
            },
        decreases v@.len() - i,
    {
        proof {
            assert(v@.skip(i as int)[0] == v@[i as int]);
            assert(v@.skip(i as int).drop_first() =~= v@.skip(i + 1));
        }
        if v[i] == c {
            return Some(i);
        }
        i += 1;
    }
    proof {
        assert(v@.skip(v@.len() as int).len() == 0);
    }
    None
}

/// Whether `c` occurs anywhere in `s`.
pub fn str_has_char(s: &str, c: char) -> (r: bool)
    ensures
        r == !no_char(s@, c),
{
    let v = chars_of(s);
    let found = find_char_from(&v, 0, c);
    proof {
        assert(v@.skip(0) =~= v@);
        lemma_first_index_of(v@, c);
    }
    match found {
        Some(j) => {
            proof {
                assert(s@[j as int] == c);
            }
            true
        },
        None => false,
    }
}

/// The characters of `v` between `from` and `to`.
#[verifier::loop_isolation(false)]
pub fn subrange_chars(v: &Vec<char>, from: usize, to: usize) -> (r: Vec<char>)
    requires
        from <= to <= v@.len(),
    ensures
        r@ == v@.subrange(from as int, to as int),
{
    let mut out: Vec<char> = Vec::new();
    let mut i: usize = from;
    while i < to
        invariant
            from <= i <= to,
            out@ =~= v@.subrange(from as int, i as int),
        decreases to - i,
    {
        out.push(v[i]);
        i += 1;
        proof {
            assert(out@ =~= v@.subrange(from as int, i as int));
        }
    }
    out
}

/// The segments of `s` between occurrences of `sep`, in order; the
/// separators themselves are dropped, and `n` separators yield `n + 1`
/// segments.
pub open spec fn split_on(s: Seq<char>, sep: char) -> Seq<Seq<char>>
    decreases s.len(),
{
    let j = first_index_of(s, sep);
    if j < 0 || j >= s.len() {
        seq![s]
    } else {
        seq![s.take(j)] + split_on(s.skip(j + 1), sep)
    }
}

/// Whether `c` has Unicode's White_Space property: the set that Rust's
/// standard string trimming removes.
pub open spec fn is_white_space(c: char) -> bool {
    ||| c == '\t'
    ||| c == '\n'
    ||| c == '\u{B}'
    ||| c == '\u{C}'
    ||| c == '\r'
    ||| c == ' '
    ||| c == '\u{85}'
    ||| c == '\u{A0}'
    ||| c == '\u{1680}'
    ||| ('\u{2000}' <= c && c <= '\u{200A}')
    ||| c == '\u{2028}'
    ||| c == '\u{2029}'
    ||| c == '\u{202F}'
    ||| c == '\u{205F}'
    ||| c == '\u{3000}'
}

/// Whether `c` has Unicode's White_Space property.
pub fn is_white_space_char(c: char) -> (r: bool)
    ensures
        r == is_white_space(c),
{
    c == '\t' || c == '\n' || c == '\u{B}' || c == '\u{C}' || c == '\r' || c == ' ' || c
        == '\u{85}' || c == '\u{A0}' || c == '\u{1680}' || ('\u{2000}' <= c && c <= '\u{200A}')
        || c == '\u{2028}' || c == '\u{2029}' || c == '\u{202F}' || c == '\u{205F}' || c
        == '\u{3000}'
}

/// `s` without leading whitespace.
pub open spec fn trim_start_spec(s: Seq<char>) -> Seq<char>
    decreases s.len(),
{
    if s.len() > 0 && is_white_space(s[0]) {
        trim_start_spec(s.drop_first())
    } else {
        s
    }
}

/// `s` without trailing whitespace.
pub open spec fn trim_end_spec(s: Seq<char>) -> Seq<char>
    decreases s.len(),
{
    if s.len() > 0 && is_white_space(s.last()) {
        trim_end_spec(s.drop_last())
    } else {
        s
    }
}

/// `s` without leading and trailing whitespace.
pub open spec fn trim_spec(s: Seq<char>) -> Seq<char> {
    trim_end_spec(trim_start_spec(s))
}

/// The characters of `v` between `from` and `to`, without leading and
/// trailing whitespace.
#[verifier::loop_isolation(false)]
pub fn trim_chars(v: &Vec<char>, from: usize, to: usize) -> (r: Vec<char>)
    requires
        from <= to <= v@.len(),
    ensures
        r@ == trim_spec(v@.subrange(from as int, to as int)),
{
    let ghost raw = v@.subrange(from as int, to as int);
    let mut a = from;
    while a < to && is_white_space_char(v[a])
        invariant
            from <= a <= to,
            trim_start_spec(raw) == trim_start_spec(v@.subrange(a as int, to as int)),
        decreases to - a,
    {
        proof {
            let cur = v@.subrange(a as int, to as int);
            assert(cur[0] == v@[a as int]);
            assert(cur.drop_first() =~= v@.subrange(a + 1, to as int));
        }
        a += 1;
    }
    proof {
        let cur = v@.subrange(a as int, to as int);
        if cur.len() > 0 {
            assert(cur[0] == v@[a as int]);
        }
        assert(trim_start_spec(raw) == cur);
    }
    let ghost started = v@.subrange(a as int, to as int);
    let mut b = to;
    while b > a && is_white_space_char(v[b - 1])
        invariant
            a <= b <= to,
            trim_end_spec(started) == trim_end_spec(v@.subrange(a as int, b as int)),
        decreases b,
    {
        proof {
            let cur = v@.subrange(a as int, b as int);
            assert(cur.last() == v@[b - 1]);
            assert(cur.drop_last() =~= v@.subrange(a as int, b - 1));
        }
        b -= 1;
    }
    proof {
        let cur = v@.subrange(a as int, b as int);
        if cur.len() > 0 {
            assert(cur.last() == v@[b - 1]);
        }
        assert(trim_end_spec(started) == cur);
    }
    subrange_chars(v, a, b)
}

/// Filtering a pushed sequence keeps the front filter and appends the new
/// element exactly when it passes.
pub proof fn seq_filter_push<A>(s: Seq<A>, x: A, pred: spec_fn(A) -> bool)
    ensures
        s.push(x).filter(pred) == if pred(x) {
            s.filter(pred).push(x)
        } else {
            s.filter(pred)
        },
    decreases s.len(),
{
    reveal(Seq::filter);
    assert(s.push(x).drop_last() =~= s);
    assert(s.push(x).last() == x);
}

/// A decimal digit's character is a digit character with that value.
pub proof fn lemma_digit_char(d: nat)
    requires
        d < 10,
    ensures
        is_dec_digit(digit_char(d)),
        digit_char(d) as int == 48 + d,
{
}

/// The decimal text of `n` is all digits and reads back as `n`.
pub proof fn lemma_dec_digits_value(n: nat)
    ensures
        all_dec_digits(dec_digits(n)),
        dec_val(dec_digits(n)) == n,
    decreases n,
{
    if n < 10 {
        lemma_digit_char(n);
        let s = dec_digits(n);
        assert(s.drop_last() =~= Seq::<char>::empty());
        assert(dec_val(Seq::<char>::empty()) == 0);
        assert(s.last() == digit_char(n));
        assert(dec_val(s) == n);
    } else {
        lemma_dec_digits_value(n / 10);
        lemma_digit_char(n % 10);
        let s = dec_digits(n);
        assert(s.drop_last() =~= dec_digits(n / 10));
        assert(s.last() == digit_char(n % 10));
        assert(dec_val(s) == dec_val(dec_digits(n / 10)) * 10 + (digit_char(n % 10) as int - 48));
        assert forall|i: int| 0 <= i < s.len() implies is_dec_digit(#[trigger] s[i]) by {
            if i < s.len() - 1 {
                assert(s[i] == dec_digits(n / 10)[i]);
            }
        }
    }
}

} // verus!
