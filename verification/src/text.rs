//! Character-sequence utilities: locating separator characters, reading and
//! writing decimal numbers, and trimming surrounding whitespace.

use vstd::prelude::*;
use vstd::string::*;

verus! {

/// True for the ASCII decimal digits.
pub open spec fn is_digit_char(c: char) -> bool {
    '0' <= c && c <= '9'
}

/// Numeric value of a digit character; zero for any other character.
pub open spec fn digit_char_val(c: char) -> nat {
    if is_digit_char(c) {
        (c as int - '0' as int) as nat
    } else {
        0
    }
}

pub open spec fn all_digit_chars(s: Seq<char>) -> bool {
    forall|i: int| 0 <= i < s.len() ==> is_digit_char(#[trigger] s[i])
}

/// Value of a digit string read in base ten.
pub open spec fn digits_val(s: Seq<char>) -> nat
    decreases s.len(),
{
    if s.len() == 0 {
        0
    } else {
        digits_val(s.drop_last()) * 10 + digit_char_val(s.last())
    }
}

/// The digit character for a value at most nine.
pub open spec fn digit_char_of(d: nat) -> char {
    if d == 0 {
        '0'
    } else if d == 1 {
        '1'
    } else if d == 2 {
        '2'
    } else if d == 3 {
        '3'
    } else if d == 4 {
        '4'
    } else if d == 5 {
        '5'
    } else if d == 6 {
        '6'
    } else if d == 7 {
        '7'
    } else if d == 8 {
        '8'
    } else {
        '9'
    }
}

/// Decimal representation of a number, most significant digit first,
/// without leading zeros.
pub open spec fn spec_decimal(n: nat) -> Seq<char>
    decreases n,
{
    if n < 10 {
        seq![digit_char_of(n)]
    } else {
        spec_decimal(n / 10).push(digit_char_of(n % 10))
    }
}

/// True when `c` occurs nowhere in `s`.
pub open spec fn no_char(s: Seq<char>, c: char) -> bool {
    forall|i: int| 0 <= i < s.len() ==> s[i] != c
}

/// First index at or after `from` holding `c`, or the length if there is none.
pub open spec fn find_char(s: Seq<char>, from: int, c: char) -> int
    decreases s.len() - from,
{
    if from < 0 || from >= s.len() {
        s.len() as int
    } else if s[from] == c {
        from
    } else {
        find_char(s, from + 1, c)
    }
}

/// Number of occurrences of `c` at or after `from`.
pub open spec fn count_char(s: Seq<char>, from: int, c: char) -> nat
    decreases s.len() - from,
{
    if from < 0 || from >= s.len() {
        0
    } else {
        (if s[from] == c {
            1nat
        } else {
            0nat
        }) + count_char(s, from + 1, c)
    }
}

pub proof fn lemma_find_char_props(s: Seq<char>, from: int, c: char)
    requires
        0 <= from <= s.len(),
    ensures
        from <= find_char(s, from, c) <= s.len(),
        find_char(s, from, c) < s.len() ==> s[find_char(s, from, c)] == c,
        forall|j: int| from <= j < find_char(s, from, c) ==> s[j] != c,
    decreases s.len() - from,
{
    if from < s.len() && s[from] != c {
        lemma_find_char_props(s, from + 1, c);
    }
}

/// An index with no occurrence of `c` before it (from `from` on), and either
/// holding `c` or equal to the length, is what `find_char` returns.
pub proof fn lemma_find_char_at(s: Seq<char>, from: int, i: int, c: char)
    requires
        0 <= from <= i <= s.len(),
        forall|j: int| from <= j < i ==> s[j] != c,
        i == s.len() || s[i] == c,
    ensures
        find_char(s, from, c) == i,
    decreases i - from,
{
    if from < i {
        lemma_find_char_at(s, from + 1, i, c);
    }
}

/// The occurrence count from `from` on, expressed through the first occurrence.
pub proof fn lemma_count_char_step(s: Seq<char>, from: int, c: char)
    requires
        0 <= from <= s.len(),
    ensures
        count_char(s, from, c) == if find_char(s, from, c) < s.len() {
            1nat + count_char(s, find_char(s, from, c) + 1, c)
        } else {
            0nat
        },
    decreases s.len() - from,
{
    if from < s.len() && s[from] != c {
        lemma_count_char_step(s, from + 1, c);
    }
}

/// A digit-string prefix never reads as a larger value than the whole string.
pub proof fn lemma_digits_val_prefix(s: Seq<char>, k: int)
    requires
        0 <= k <= s.len(),
    ensures
        digits_val(s.subrange(0, k)) <= digits_val(s),
    decreases s.len() - k,
{
    if k == s.len() {
        assert(s.subrange(0, k) =~= s);
    } else {
        assert(s.subrange(0, k + 1).drop_last() =~= s.subrange(0, k));
        assert(digits_val(s.subrange(0, k)) <= digits_val(s.subrange(0, k + 1)));
        lemma_digits_val_prefix(s, k + 1);
    }
}

/// Exact inverse: reading back the decimal representation gives the number.
pub proof fn lemma_decimal_digits_val(n: nat)
    ensures
        spec_decimal(n).len() >= 1,
        all_digit_chars(spec_decimal(n)),
        digits_val(spec_decimal(n)) == n,
    decreases n,
{
    assert(digit_char_val(digit_char_of(n % 10)) == n % 10);
    if n < 10 {
        assert(spec_decimal(n) =~= seq![digit_char_of(n)]);
        assert(spec_decimal(n).drop_last() =~= Seq::<char>::empty());
        assert(digits_val(Seq::<char>::empty()) == 0);
        assert(spec_decimal(n).last() == digit_char_of(n));
        assert(digits_val(spec_decimal(n)) == 0 * 10 + digit_char_val(digit_char_of(n)));
        assert(digit_char_val(digit_char_of(n)) == n);
    } else {
        lemma_decimal_digits_val(n / 10);
        assert(spec_decimal(n).drop_last() =~= spec_decimal(n / 10));
        assert(spec_decimal(n).last() == digit_char_of(n % 10));
        assert(digits_val(spec_decimal(n)) == (n / 10) * 10 + n % 10);
        assert((n / 10) * 10 + n % 10 == n);
    }
}

/// First index at or after `from` that is not ASCII whitespace.
pub open spec fn is_space_char(c: char) -> bool {
    c == ' ' || c == '\t' || c == '\r' || c == '\n'
}

pub open spec fn trim_start_idx(s: Seq<char>, from: int) -> int
    decreases s.len() - from,
{
    if from < 0 || from >= s.len() {
        s.len() as int
    } else if !is_space_char(s[from]) {
        from
    } else {
        trim_start_idx(s, from + 1)
    }
}

/// One past the last index below `upto` that is not ASCII whitespace.
pub open spec fn trim_end_idx(s: Seq<char>, upto: int) -> int
    decreases upto,
{
    if upto <= 0 {
        0
    } else if !is_space_char(s[upto - 1]) {
        upto
    } else {
        trim_end_idx(s, upto - 1)
    }
}

/// The sequence with leading and trailing ASCII whitespace removed.
pub open spec fn spec_trim(s: Seq<char>) -> Seq<char> {
    let a = trim_start_idx(s, 0);
    let b = trim_end_idx(s, s.len() as int);
    if a < b {
        s.subrange(a, b)
    } else {
        Seq::empty()
    }
}

/// An index reached from `from` by skipping whitespace only, and itself not
/// whitespace (or the end), is where trimming from the left stops.
pub proof fn lemma_trim_start_at(s: Seq<char>, from: int, i: int)
    requires
        0 <= from <= i <= s.len(),
        forall|j: int| from <= j < i ==> is_space_char(s[j]),
        i < s.len() ==> !is_space_char(s[i]),
    ensures
        trim_start_idx(s, from) == i,
    decreases i - from,
{
    if from < i {
        lemma_trim_start_at(s, from + 1, i);
    }
}

/// An index reached from `upto` by skipping whitespace only, and not preceded
/// by whitespace (or zero), is where trimming from the right stops.
pub proof fn lemma_trim_end_at(s: Seq<char>, upto: int, i: int)
    requires
        0 <= i <= upto <= s.len(),
        forall|j: int| i <= j < upto ==> is_space_char(s[j]),
        i > 0 ==> !is_space_char(s[i - 1]),
    ensures
        trim_end_idx(s, upto) == i,
    decreases upto - i,
{
    if i < upto {
        lemma_trim_end_at(s, upto - 1, i);
    }
}

/// Searching within a suffix finds the same occurrence as searching the whole
/// sequence from that offset.
pub proof fn lemma_find_char_shift(s: Seq<char>, p: int, c: char)
    requires
        0 <= p <= s.len(),
    ensures
        find_char(s.subrange(p, s.len() as int), 0, c) == find_char(s, p, c) - p,
{
    let sub = s.subrange(p, s.len() as int);
    let f = find_char(s, p, c);
    lemma_find_char_props(s, p, c);
    assert(forall|j: int| 0 <= j < f - p ==> sub[j] != c);
    lemma_find_char_at(sub, 0, f - p, c);
}

/// First position of `c` in `s` at or after `from`, or the length if none.
pub fn find_char_from(s: &str, from: usize, c: char) -> (r: usize)
    requires
        from <= s@.len(),
    ensures
        r == find_char(s@, from as int, c),
        from <= r <= s@.len(),
{
    let len = s.unicode_len();
    let mut i: usize = from;
    while i < len
        invariant
            from <= i <= len,
            len == s@.len(),
            forall|j: int| from <= j < i ==> s@[j] != c,
        decreases len - i,
    {
        if s.get_char(i) == c {
            proof {
                lemma_find_char_at(s@, from as int, i as int, c);
            }
            return i;
        }
        i += 1;
    }
    proof {
        lemma_find_char_at(s@, from as int, len as int, c);
    }
    len
}

/// Whether the characters of `s` between `from` and `to` are exactly `t`.
pub fn str_range_eq(s: &str, from: usize, to: usize, t: &str) -> (r: bool)
    requires
        from <= to <= s@.len(),
    ensures
        r == (s@.subrange(from as int, to as int) == t@),
{
    let tl = t.unicode_len();
    if tl != to - from {
        proof {
            assert(s@.subrange(from as int, to as int).len() == to - from);
        }
        return false;
    }
    let mut i: usize = 0;
    while i < tl
        invariant
            0 <= i <= tl,
            tl == t@.len(),
            tl == to - from,
            from <= to <= s@.len(),
            forall|j: int| 0 <= j < i ==> s@[from + j] == t@[j],
        decreases tl - i,
    {
        if s.get_char(from + i) != t.get_char(i) {
            proof {
                assert(s@.subrange(from as int, to as int)[i as int] != t@[i as int]);
            }
            return false;
        }
        i += 1;
    }
    proof {
        assert(s@.subrange(from as int, to as int) =~= t@);
    }
    true
}

/// Reads the characters of `s` between `from` and `to` as an unsigned decimal
/// number, the way an unsigned 16-bit parse does: at least one digit, digits
/// only, value at most the 16-bit maximum.
pub fn parse_u16_digits(s: &str, from: usize, to: usize) -> (r: Option<u16>)
    requires
        from <= to <= s@.len(),
    ensures
        ({
            let seg = s@.subrange(from as int, to as int);
            match r {
                Some(v) => seg.len() > 0 && all_digit_chars(seg) && digits_val(seg) == v as nat,
                None => !(seg.len() > 0 && all_digit_chars(seg) && digits_val(seg)
                    <= u16::MAX as nat),
            }
        }),
{
    let ghost seg = s@.subrange(from as int, to as int);
    if from == to {
        return None;
    }
    let mut acc: u32 = 0;
    let mut i: usize = from;
    while i < to
        invariant
            from <= i <= to <= s@.len(),
            seg == s@.subrange(from as int, to as int),
            all_digit_chars(s@.subrange(from as int, i as int)),
            acc as nat == digits_val(s@.subrange(from as int, i as int)),
            acc <= 65535,
        decreases to - i,
    {
        let c = s.get_char(i);
        let cu = c as u32;
        if cu < 48 || cu > 57 {
            proof {
                assert(!is_digit_char(seg[i - from]));
            }
            return None;
        }
        proof {
            assert(s@.subrange(from as int, i as int + 1).drop_last() =~= s@.subrange(
                from as int,
                i as int,
            ));
            assert(s@.subrange(from as int, i as int + 1).last() == c);
        }
        acc = acc * 10 + (cu - 48);
        i += 1;
        if acc > 65535 {
            proof {
                let pre = s@.subrange(from as int, i as int);
                assert(pre =~= seg.subrange(0, i - from));
                lemma_digits_val_prefix(seg, i - from);
            }
            return None;
        }
    }
    proof {
        assert(s@.subrange(from as int, i as int) =~= seg);
    }
    Some(acc as u16)
}

fn is_space(c: char) -> (r: bool)
    ensures
        r == is_space_char(c),
{
    c == ' ' || c == '\t' || c == '\r' || c == '\n'
}

/// Copies the characters of `s` between `from` and `to`, with leading and
/// trailing ASCII whitespace removed.
pub fn trimmed_segment(s: &str, from: usize, to: usize) -> (r: String)
    requires
        from <= to <= s@.len(),
    ensures
        r@ == spec_trim(s@.subrange(from as int, to as int)),
{
    let ghost seg = s@.subrange(from as int, to as int);
    let mut a: usize = from;
    loop
        invariant
            from <= a <= to <= s@.len(),
            forall|j: int| from <= j < a ==> is_space_char(s@[j]),
        ensures
            from <= a <= to,
            forall|j: int| from <= j < a ==> is_space_char(s@[j]),
            a == to || !is_space_char(s@[a as int]),
        decreases to - a,
    {
        if a == to {
            break;
        }
        if !is_space(s.get_char(a)) {
            break;
        }
        a += 1;
    }
    let mut b: usize = to;
    loop
        invariant
            a <= b <= to,
            to <= s@.len(),
            forall|j: int| b <= j < to ==> is_space_char(s@[j]),
        ensures
            a <= b <= to,
            forall|j: int| b <= j < to ==> is_space_char(s@[j]),
            b == a || !is_space_char(s@[b - 1]),
        decreases b,
    {
        if b == a {
            break;
        }
        if !is_space(s.get_char(b - 1)) {
            break;
        }
        b -= 1;
    }
    proof {
        lemma_trim_start_at(seg, 0, a - from);
        if b == a {
            lemma_trim_end_at(seg, seg.len() as int, 0);
        } else {
            lemma_trim_end_at(seg, seg.len() as int, b - from);
            assert(seg.subrange(a - from, b - from) =~= s@.subrange(a as int, b as int));
        }
    }
    let piece = s.substring_char(a, b);
    String::from_str(piece)
}

/// Appends the decimal representation of `n` to `out`.
pub fn push_decimal(out: &mut String, n: u16)
    ensures
        final(out)@ == old(out)@ + spec_decimal(n as nat),
    decreases n,
{
    if n >= 10 {
        push_decimal(out, n / 10);
    }
    let d = n % 10;
    if d == 0 {
        out.append("0");
    } else if d == 1 {
        out.append("1");
    } else if d == 2 {
        out.append("2");
    } else if d == 3 {
        out.append("3");
    } else if d == 4 {
        out.append("4");
    } else if d == 5 {
        out.append("5");
    } else if d == 6 {
        out.append("6");
    } else if d == 7 {
        out.append("7");
    } else if d == 8 {
        out.append("8");
    } else {
        out.append("9");
    }
    proof {
        reveal_strlit("0");
        reveal_strlit("1");
        reveal_strlit("2");
        reveal_strlit("3");
        reveal_strlit("4");
        reveal_strlit("5");
        reveal_strlit("6");
        reveal_strlit("7");
        reveal_strlit("8");
        reveal_strlit("9");
        assert(final(out)@ =~= old(out)@ + spec_decimal(n as nat));
    }
}

} // verus!
