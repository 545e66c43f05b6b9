//! Text helpers: trimming of surrounding whitespace, the order of texts and
//! zero-padded decimals.

use vstd::prelude::*;
use vstd::std_specs::iter::IteratorSpec;
use vstd::string::StringExecFns;
use vstd::string::StrSliceExecFns;

verus! {

broadcast use vstd::string::group_string_axioms;

/// The code points that Unicode marks as `White_Space`.
pub open spec fn is_whitespace(c: char) -> bool {
    let u = c as u32;
    ||| 0x09 <= u <= 0x0d
    ||| u == 0x20
    ||| u == 0x85
    ||| u == 0xa0
    ||| u == 0x1680
    ||| 0x2000 <= u <= 0x200a
    ||| u == 0x2028
    ||| u == 0x2029
    ||| u == 0x202f
    ||| u == 0x205f
    ||| u == 0x3000
}

/// `s` without its leading whitespace.
pub open spec fn trim_start(s: Seq<char>) -> Seq<char>
    decreases s.len(),
{
    if s.len() > 0 && is_whitespace(s[0]) {
        trim_start(s.drop_first())
    } else {
        s
    }
}

/// `s` without its trailing whitespace.
pub open spec fn trim_end(s: Seq<char>) -> Seq<char>
    decreases s.len(),
{
    if s.len() > 0 && is_whitespace(s.last()) {
        trim_end(s.drop_last())
    } else {
        s
    }
}

/// `s` without its surrounding whitespace.
pub open spec fn trimmed(s: Seq<char>) -> Seq<char> {
    trim_end(trim_start(s))
}

/// Whether `c` is a whitespace character.
pub fn char_is_whitespace(c: char) -> (r: bool)
    ensures
        r == is_whitespace(c),
{
    let u: u32 = c as u32;
    (0x09 <= u && u <= 0x0d) || u == 0x20 || u == 0x85 || u == 0xa0 || u == 0x1680 || (0x2000 <= u
        && u <= 0x200a) || u == 0x2028 || u == 0x2029 || u == 0x202f || u == 0x205f || u == 0x3000
}

/// Without its leading whitespace a text is what begins at its first
/// character that is no whitespace.
pub proof fn lemma_trim_start_skips(s: Seq<char>, first: int)
    requires
        0 <= first <= s.len(),
        forall|k: int| 0 <= k < first ==> is_whitespace(s[k]),
        first < s.len() ==> !is_whitespace(s[first]),
    ensures
        trim_start(s) == s.skip(first),
    decreases s.len(),
{
    if first == 0 {
        assert(s.skip(0) =~= s);
    } else {
        lemma_trim_start_skips(s.drop_first(), first - 1);
        assert(s.drop_first().skip(first - 1) =~= s.skip(first));
    }
}

/// Without its trailing whitespace a text is what ends with its last
/// character that is no whitespace.
pub proof fn lemma_trim_end_takes(s: Seq<char>, end: int)
    requires
        0 <= end <= s.len(),
        forall|k: int| end <= k < s.len() ==> is_whitespace(s[k]),
        end > 0 ==> !is_whitespace(s[end - 1]),
    ensures
        trim_end(s) == s.take(end),
    decreases s.len(),
{
    if end == s.len() {
        assert(s.take(end) =~= s);
    } else {
        lemma_trim_end_takes(s.drop_last(), end);
        assert(s.drop_last().take(end) =~= s.take(end));
    }
}

/// A copy of `s` without its surrounding whitespace.
pub fn trim(s: &str) -> (r: String)
    ensures
        r@ == trimmed(s@),
{
    let length: usize = s.unicode_len();
    let mut chars = s.chars();
    let mut index: usize = 0;
    let mut start: usize = 0;
    let mut end: usize = 0;
    let mut found = false;
    assert(s@.skip(0) =~= s@);
    loop
        invariant
            chars.obeys_prophetic_iter_laws(),
            chars.decrease() is Some,
            length == s@.len(),
            index <= length,
            chars.remaining() == s@.skip(index as int),
            !found ==> forall|k: int| 0 <= k < index ==> is_whitespace(s@[k]),
            found ==> {
                &&& start < end <= index
                &&& forall|k: int| 0 <= k < start ==> is_whitespace(s@[k])
                &&& !is_whitespace(s@[start as int])
                &&& !is_whitespace(s@[end - 1])
                &&& forall|k: int| end <= k < index ==> is_whitespace(s@[k])
            },
        decreases chars.decrease()->0,
    {
        match chars.next() {
            Some(c) => {
                assert(s@.skip(index as int).drop_first() =~= s@.skip(index + 1));
                assert(c == s@[index as int]);
                if !char_is_whitespace(c) {
                    if !found {
                        found = true;
                        start = index;
                    }
                    end = index + 1;
                }
                index = index + 1;
            },
            None => {
                if !found {
                    proof {
                        lemma_trim_start_skips(s@, length as int);
                        assert(s@.skip(length as int) =~= Seq::<char>::empty());
                    }
                    return String::new();
                }
                proof {
                    lemma_trim_start_skips(s@, start as int);
                    lemma_trim_end_takes(s@.skip(start as int), end - start);
                    assert(s@.skip(start as int).take(end - start) =~= s@.subrange(
                        start as int,
                        end as int,
                    ));
                }
                return String::from_str(s.substring_char(start, end));
            },
        }
    }
}

/// Whether `a` is not after `b` in the order of texts: character by
/// character, by code point, and a text before those that it begins. This
/// is the order of the bytes of texts in UTF-8.
pub open spec fn text_le(a: Seq<char>, b: Seq<char>) -> bool
    decreases a.len(),
{
    if a.len() == 0 {
        true
    } else if b.len() == 0 {
        false
    } else if a[0] != b[0] {
        (a[0] as u32) < (b[0] as u32)
    } else {
        text_le(a.drop_first(), b.drop_first())
    }
}

/// Whether `a` is not after `b` in the order of texts.
pub fn text_at_most(a: &str, b: &str) -> (r: bool)
    ensures
        r == text_le(a@, b@),
{
    let mut left = a.chars();
    let mut right = b.chars();
    loop
        invariant
            left.obeys_prophetic_iter_laws(),
            right.obeys_prophetic_iter_laws(),
            left.decrease() is Some,
            text_le(a@, b@) == text_le(left.remaining(), right.remaining()),
        decreases left.decrease()->0,
    {
        let x = left.next();
        let y = right.next();
        match (x, y) {
            (None, _) => {
                return true;
            },
            (Some(_), None) => {
                return false;
            },
            (Some(p), Some(q)) => {
                if p != q {
                    return (p as u32) < (q as u32);
                }
            },
        }
    }
}

/// Every text is at its own place in the order.
pub proof fn lemma_text_le_reflexive(a: Seq<char>)
    ensures
        text_le(a, a),
    decreases a.len(),
{
    if a.len() > 0 {
        lemma_text_le_reflexive(a.drop_first());
    }
}

/// Two texts that are each not after the other are one text.
pub proof fn lemma_text_le_antisymmetric(a: Seq<char>, b: Seq<char>)
    requires
        text_le(a, b),
        text_le(b, a),
    ensures
        a == b,
    decreases a.len(),
{
    if a.len() == 0 || b.len() == 0 {
        assert(a =~= b);
    } else {
        lemma_text_le_antisymmetric(a.drop_first(), b.drop_first());
        assert(a =~= seq![a[0]] + a.drop_first());
        assert(b =~= seq![b[0]] + b.drop_first());
    }
}

/// The order of texts is transitive.
pub proof fn lemma_text_le_transitive(a: Seq<char>, b: Seq<char>, c: Seq<char>)
    requires
        text_le(a, b),
        text_le(b, c),
    ensures
        text_le(a, c),
    decreases a.len(),
{
    if a.len() > 0 && b.len() > 0 && c.len() > 0 && a[0] == b[0] && b[0] == c[0] {
        lemma_text_le_transitive(a.drop_first(), b.drop_first(), c.drop_first());
    }
}

/// The character that writes the decimal digit `d`.
pub open spec fn digit_char(d: int) -> char {
    if d == 0 {
        '0'
    } else if d == 1 {
        '1'
    } else if d == 2 {
        '2'
    } else if d == 3 {
        '3'
    } else if d == 4 {
        '4'
    } else if d == 5 {
        '5'
    } else if d == 6 {
        '6'
    } else if d == 7 {
        '7'
    } else if d == 8 {
        '8'
    } else {
        '9'
    }
}

/// The decimal digits of `n`, most significant first, without leading zeros.
pub open spec fn decimal_digits(n: nat) -> Seq<char>
    decreases n,
{
    if n < 10 {
        seq![digit_char(n as int)]
    } else {
        decimal_digits(n / 10).push(digit_char((n % 10) as int))
    }
}

/// `k` zero characters; none where `k` is not positive.
pub open spec fn zeros(k: int) -> Seq<char> {
    Seq::new(
        if k > 0 {
            k as nat
        } else {
            0
        },
        |i: int| '0',
    )
}

/// `n` in decimal, filled with zeros after the sign up to `width` characters.
/// A number that needs more than `width` characters is written in full.
pub open spec fn zero_padded(n: int, width: int) -> Seq<char> {
    if n < 0 {
        let d = decimal_digits((-n) as nat);
        seq!['-'] + zeros(width - 1 - d.len()) + d
    } else {
        let d = decimal_digits(n as nat);
        zeros(width - d.len()) + d
    }
}

fn digit_text(d: u8) -> (r: &'static str)
    requires
        d < 10,
    ensures
        r@ == seq![digit_char(d as int)],
{
    proof {
        reveal_strlit("0");
        reveal_strlit("1");
        reveal_strlit("2");
        reveal_strlit("3");
        reveal_strlit("4");
        reveal_strlit("5");
        reveal_strlit("6");
        reveal_strlit("7");
        reveal_strlit("8");
        reveal_strlit("9");
    }
    let r = if d == 0 {
        "0"
    } else if d == 1 {
        "1"
    } else if d == 2 {
        "2"
    } else if d == 3 {
        "3"
    } else if d == 4 {
        "4"
    } else if d == 5 {
        "5"
    } else if d == 6 {
        "6"
    } else if d == 7 {
        "7"
    } else if d == 8 {
        "8"
    } else {
        "9"
    };
    assert(r@ =~= seq![digit_char(d as int)]);
    r
}

/// Appends the decimal digits of `n` to `out`.
pub fn append_decimal(out: &mut String, n: u128)
    ensures
        final(out)@ == old(out)@ + decimal_digits(n as nat),
    decreases n,
{
    if n >= 10 {
        append_decimal(out, n / 10);
    }
    out.append(digit_text((n % 10) as u8));
    assert(out@ =~= old(out)@ + decimal_digits(n as nat));
}

fn append_zeros(out: &mut String, k: usize)
    ensures
        final(out)@ == old(out)@ + zeros(k as int),
{
    let mut i: usize = 0;
    assert(out@ =~= old(out)@ + zeros(0));
    while i < k
        invariant
            i <= k,
            out@ == old(out)@ + zeros(i as int),
        decreases k - i,
    {
        proof {
            reveal_strlit("0");
        }
        out.append("0");
        i = i + 1;
        assert(out@ =~= old(out)@ + zeros(i as int));
    }
}

/// Appends `n` to `out` in decimal, filled with zeros to `width` characters.
pub fn append_zero_padded(out: &mut String, n: i128, width: usize)
    ensures
        final(out)@ == old(out)@ + zero_padded(n as int, width as int),
{
    let negative = n < 0;
    let magnitude: u128 = if negative {
        ((-(n + 1)) as u128) + 1
    } else {
        n as u128
    };
    let mut digits = String::new();
    append_decimal(&mut digits, magnitude);
    assert(digits@ =~= decimal_digits(magnitude as nat));
    let len = digits.as_str().unicode_len();
    let mut used: usize = len;
    if negative {
        proof {
            reveal_strlit("-");
        }
        out.append("-");
        used = if len < usize::MAX {
            len + 1
        } else {
            len
        };
    }
    if used < width {
        append_zeros(out, width - used);
    }
    out.append(digits.as_str());
    proof {
        if negative {
            assert(zeros(width - 1 - len) =~= if used < width {
                zeros(width - used)
            } else {
                Seq::<char>::empty()
            });
        } else {
            assert(zeros(width - len) =~= if used < width {
                zeros(width - used)
            } else {
                Seq::<char>::empty()
            });
        }
        assert(out@ =~= old(out)@ + zero_padded(n as int, width as int));
    }
}

} // verus!
