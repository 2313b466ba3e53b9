//! Verified text primitives used by the value objects and the search
//! filters: whitespace trimming, substring search, and decimal rendering of
//! counters.

use vstd::prelude::*;

verus! {

broadcast use vstd::string::group_string_axioms;

/// True on the characters with the Unicode `White_Space` property, the set
/// that trimming removes.
pub open spec fn is_space(c: char) -> bool {
    ||| c == ' '
    ||| c == '\t'
    ||| c == '\n'
    ||| c == '\u{b}'
    ||| c == '\u{c}'
    ||| c == '\r'
    ||| c == '\u{85}'
    ||| c == '\u{a0}'
    ||| c == '\u{1680}'
    ||| c == '\u{2000}'
    ||| c == '\u{2001}'
    ||| c == '\u{2002}'
    ||| c == '\u{2003}'
    ||| c == '\u{2004}'
    ||| c == '\u{2005}'
    ||| c == '\u{2006}'
    ||| c == '\u{2007}'
    ||| c == '\u{2008}'
    ||| c == '\u{2009}'
    ||| c == '\u{200a}'
    ||| c == '\u{2028}'
    ||| c == '\u{2029}'
    ||| c == '\u{202f}'
    ||| c == '\u{205f}'
    ||| c == '\u{3000}'
}

/// Executable test for [`is_space`].
pub fn char_is_space(c: char) -> (r: bool)
    ensures
        r == is_space(c),
{
    c == ' ' || c == '\t' || c == '\n' || c == '\u{b}' || c == '\u{c}' || c == '\r'
        || c == '\u{85}' || c == '\u{a0}' || c == '\u{1680}' || c == '\u{2000}' || c == '\u{2001}'
        || c == '\u{2002}' || c == '\u{2003}' || c == '\u{2004}' || c == '\u{2005}'
        || c == '\u{2006}' || c == '\u{2007}' || c == '\u{2008}' || c == '\u{2009}'
        || c == '\u{200a}' || c == '\u{2028}' || c == '\u{2029}' || c == '\u{202f}'
        || c == '\u{205f}' || c == '\u{3000}'
}

/// The sequence with its leading whitespace removed.
pub open spec fn trim_front(s: Seq<char>) -> Seq<char>
    decreases s.len(),
{
    if s.len() > 0 && is_space(s.first()) {
        trim_front(s.drop_first())
    } else {
        s
    }
}

/// The sequence with its trailing whitespace removed.
pub open spec fn trim_back(s: Seq<char>) -> Seq<char>
    decreases s.len(),
{
    if s.len() > 0 && is_space(s.last()) {
        trim_back(s.drop_last())
    } else {
        s
    }
}

/// The sequence with both leading and trailing whitespace removed: what
/// trimming a string yields.
pub open spec fn trimmed(s: Seq<char>) -> Seq<char> {
    trim_back(trim_front(s))
}

/// A sequence that neither starts nor ends with whitespace, and is not
/// empty: the shape every stored identifier and name has.
pub open spec fn is_trim_shaped(s: Seq<char>) -> bool {
    s.len() > 0 && !is_space(s.first()) && !is_space(s.last())
}

/// When the first `k` characters are whitespace and the character at `k` (if
/// any) is not, trimming the front drops exactly those `k` characters.
proof fn lemma_trim_front_skip(s: Seq<char>, k: int)
    requires
        0 <= k <= s.len(),
        forall|i: int| 0 <= i < k ==> is_space(#[trigger] s[i]),
        k == s.len() || !is_space(s[k]),
    ensures
        trim_front(s) == s.skip(k),
    decreases k,
{
    if k == 0 {
        assert(s.skip(0) =~= s);
    } else {
        assert(is_space(s.first()));
        lemma_trim_front_skip(s.drop_first(), k - 1);
        assert(s.drop_first().skip(k - 1) =~= s.skip(k));
    }
}

/// When the characters from `k` on are whitespace and the character before
/// `k` (if any) is not, trimming the back keeps exactly the first `k`.
proof fn lemma_trim_back_take(s: Seq<char>, k: int)
    requires
        0 <= k <= s.len(),
        forall|i: int| k <= i < s.len() ==> is_space(#[trigger] s[i]),
        k == 0 || !is_space(s[k - 1]),
    ensures
        trim_back(s) == s.take(k),
    decreases s.len() - k,
{
    if k == s.len() {
        if s.len() > 0 && is_space(s.last()) {
            assert(!is_space(s[k - 1]));
            assert(false);
        }
        assert(s.take(k) =~= s);
    } else {
        assert(is_space(s.last()));
        lemma_trim_back_take(s.drop_last(), k);
        assert(s.drop_last().take(k) =~= s.take(k));
    }
}

/// Returns the input with leading and trailing whitespace removed, together
/// with everything the value objects need to know about the result: it is
/// the trimmed form, and it is empty exactly when the input is all
/// whitespace (in particular when it is empty).
pub fn trim_text(s: &str) -> (r: String)
    ensures
        r@ == trimmed(s@),
        r@.len() == 0 <==> (forall|i: int| 0 <= i < s@.len() ==> is_space(#[trigger] s@[i])),
        r@.len() > 0 ==> is_trim_shaped(r@),
{
    let n = s.unicode_len();
    let mut a: usize = 0;
    while a < n && char_is_space(s.get_char(a))
        invariant
            0 <= a <= n,
            n == s@.len(),
            forall|i: int| 0 <= i < a ==> is_space(#[trigger] s@[i]),
        decreases n - a,
    {
        a = a + 1;
    }
    if a == n {
        proof {
            lemma_trim_front_skip(s@, n as int);
            assert(s@.skip(n as int) =~= Seq::<char>::empty());
            assert(trim_back(Seq::<char>::empty()) =~= Seq::<char>::empty());
        }
        return String::new();
    }
    // a is the first non-whitespace index; now find the last one.
    let mut b: usize = n;
    while b > a && char_is_space(s.get_char(b - 1))
        invariant
            a <= b <= n,
            n == s@.len(),
            a < n,
            !is_space(s@[a as int]),
            forall|i: int| b <= i < n ==> is_space(#[trigger] s@[i]),
        decreases b,
    {
        b = b - 1;
    }
    // b > a since s[a] is not whitespace.
    proof {
        lemma_trim_front_skip(s@, a as int);
        lemma_trim_back_take(s@.skip(a as int), b - a);
        assert(s@.skip(a as int).take(b - a) =~= s@.subrange(a as int, b as int));
    }
    let t = s.substring_char(a, b);
    String::from_str(t)
}

/// True when `needle` occurs contiguously inside `hay` (an empty needle
/// occurs in every sequence): the substring filter of the searches.
pub open spec fn text_contains(hay: Seq<char>, needle: Seq<char>) -> bool {
    exists|i: int|
        0 <= i <= hay.len() - needle.len() && #[trigger] hay.subrange(i, i + needle.len())
            == needle
}

/// Substring search: whether `needle` occurs contiguously inside `hay`.
pub fn str_contains_str(hay: &str, needle: &str) -> (r: bool)
    ensures
        r == text_contains(hay@, needle@),
{
    let n = hay.unicode_len();
    let m = needle.unicode_len();
    if m > n {
        return false;
    }
    if m == 0 {
        proof {
            assert(hay@.subrange(0, 0 + needle@.len() as int) =~= needle@);
        }
        return true;
    }
    let mut i: usize = 0;
    while i <= n - m
        invariant
            0 <= i <= n - m + 1,
            0 < m <= n,
            n == hay@.len(),
            m == needle@.len(),
            forall|j: int|
                0 <= j < i ==> #[trigger] hay@.subrange(j, j + m as int) != needle@,
        decreases n - i,
    {
        let mut k: usize = 0;
        let mut mismatch = false;
        while k < m
            invariant
                0 <= k <= m,
                m <= n,
                i <= n - m,
                n == hay@.len(),
                m == needle@.len(),
                !mismatch ==> forall|t: int| 0 <= t < k ==> hay@[i + t] == #[trigger] needle@[t],
                mismatch ==> hay@.subrange(i as int, i + m as int) != needle@,
            decreases m - k,
        {
            if hay.get_char(i + k) == needle.get_char(k) {
                k = k + 1;
            } else {
                proof {
                    assert(hay@.subrange(i as int, i + m as int)[k as int] == hay@[i + k]);
                }
                mismatch = true;
                k = m;
            }
        }
        if !mismatch {
            proof {
                assert(hay@.subrange(i as int, i + m as int) =~= needle@);
            }
            return true;
        }
        i = i + 1;
    }
    proof {
        assert forall|j: int| 0 <= j <= n - m implies #[trigger] hay@.subrange(j, j + m as int)
            != needle@ by {
            assert(j < i);
        }
    }
    false
}

/// The character for a single decimal digit.
pub open spec fn digit_char(d: int) -> char {
    if d == 0 {
        '0'
    } else if d == 1 {
        '1'
    } else if d == 2 {
        '2'
    } else if d == 3 {
        '3'
    } else if d == 4 {
        '4'
    } else if d == 5 {
        '5'
    } else if d == 6 {
        '6'
    } else if d == 7 {
        '7'
    } else if d == 8 {
        '8'
    } else {
        '9'
    }
}

/// The decimal rendering of a non-negative integer, without leading zeros
/// (zero itself renders as a single digit).
pub open spec fn dec_of(n: int) -> Seq<char>
    recommends
        n >= 0,
    decreases n,
{
    if n < 10 {
        seq![digit_char(n)]
    } else {
        dec_of(n / 10).push(digit_char(n % 10))
    }
}

/// Every character of a decimal rendering is a digit, so in particular the
/// rendering is non-empty and has the trimmed shape.
pub proof fn lemma_dec_of_trim_shaped(n: int)
    requires
        n >= 0,
    ensures
        is_trim_shaped(dec_of(n)),
    decreases n,
{
    if n < 10 {
    } else {
        lemma_dec_of_trim_shaped(n / 10);
    }
}

/// Executable digit-to-character conversion.
fn digit_char_exec(d: u64) -> (c: char)
    requires
        d < 10,
    ensures
        c == digit_char(d as int),
{
    match d {
        0 => '0',
        1 => '1',
        2 => '2',
        3 => '3',
        4 => '4',
        5 => '5',
        6 => '6',
        7 => '7',
        8 => '8',
        _ => '9',
    }
}

/// Relies on `String::push`: appends the given character to the end of the
/// string.
pub assume_specification[ String::push ](s: &mut String, ch: char)
    ensures
        final(s)@ == old(s)@.push(ch),
;

/// Renders a counter as its decimal string.
pub fn dec_string(n: u64) -> (r: String)
    ensures
        r@ == dec_of(n as int),
{
    let mut digits: Vec<char> = Vec::new();
    digits.push(digit_char_exec(n % 10));
    let mut m: u64 = n / 10;
    proof {
        assert(digits@.reverse() =~= seq![digit_char(n as int % 10)]);
        if n >= 10 {
            assert(dec_of(n as int) =~= dec_of(n as int / 10) + digits@.reverse());
        } else {
            assert(dec_of(n as int) =~= digits@.reverse());
        }
    }
    while m > 0
        invariant
            m == 0 ==> dec_of(n as int) =~= digits@.reverse(),
            m > 0 ==> dec_of(n as int) =~= dec_of(m as int) + digits@.reverse(),
        decreases m,
    {
        let ghost prev = digits@;
        let ghost pm = m as int;
        digits.push(digit_char_exec(m % 10));
        proof {
            assert(digits@.reverse() =~= seq![digit_char(pm % 10)] + prev.reverse());
        }
        m = m / 10;
        proof {
            if m == 0 {
                assert(pm < 10);
                assert(dec_of(pm) =~= seq![digit_char(pm)]);
                assert(pm % 10 == pm);
                assert(dec_of(n as int) =~= digits@.reverse());
            } else {
                assert(pm >= 10);
                assert(dec_of(pm) =~= dec_of(pm / 10).push(digit_char(pm % 10)));
                assert(dec_of(pm / 10).push(digit_char(pm % 10)) + prev.reverse() =~= dec_of(
                    pm / 10,
                ) + (seq![digit_char(pm % 10)] + prev.reverse()));
                assert(dec_of(n as int) =~= dec_of(m as int) + digits@.reverse());
            }
        }
    }
    let mut r = String::new();
    let mut i: usize = digits.len();
    while i > 0
        invariant
            0 <= i <= digits@.len(),
            r@ =~= digits@.reverse().take(digits@.len() - i),
        decreases i,
    {
        i = i - 1;
        r.push(digits[i]);
        proof {
            assert(digits@.reverse()[digits@.len() - i - 1] == digits@[i as int]);
            assert(r@ =~= digits@.reverse().take(digits@.len() - i));
        }
    }
    proof {
        assert(digits@.reverse().take(digits@.len() as int) =~= digits@.reverse());
    }
    r
}

} // verus!
