//! Text primitives shared by the runtime: whitespace trimming, equality of
//! string slices, and truncation measured in UTF-16 code units.

use vstd::prelude::*;
use vstd::string::*;
use vstd::utf8::*;

verus! {

/// The characters that carry the Unicode `White_Space` property.
pub open spec fn is_whitespace(c: char) -> bool {
    let u = c as u32;
    ||| 0x09 <= u <= 0x0D
    ||| u == 0x20
    ||| u == 0x85
    ||| u == 0xA0
    ||| u == 0x1680
    ||| 0x2000 <= u <= 0x200A
    ||| u == 0x2028
    ||| u == 0x2029
    ||| u == 0x202F
    ||| u == 0x205F
    ||| u == 0x3000
}

/// `s` without its leading whitespace.
pub open spec fn trim_start(s: Seq<char>) -> Seq<char>
    decreases s.len(),
{
    if s.len() > 0 && is_whitespace(s.first()) {
        trim_start(s.drop_first())
    } else {
        s
    }
}

/// `s` without its trailing whitespace.
pub open spec fn trim_end(s: Seq<char>) -> Seq<char>
    decreases s.len(),
{
    if s.len() > 0 && is_whitespace(s.last()) {
        trim_end(s.drop_last())
    } else {
        s
    }
}

/// `s` without leading and trailing whitespace.
pub open spec fn trimmed(s: Seq<char>) -> Seq<char> {
    trim_end(trim_start(s))
}

/// Whether `s` holds nothing but whitespace.
pub open spec fn is_blank(s: Seq<char>) -> bool {
    trimmed(s).len() == 0
}

/// Number of UTF-16 code units that encode `c`.
pub open spec fn utf16_width(c: char) -> nat {
    if c as u32 >= 0x10000 {
        2
    } else {
        1
    }
}

/// Number of UTF-16 code units that encode `s`.
pub open spec fn utf16_len(s: Seq<char>) -> nat
    decreases s.len(),
{
    if s.len() == 0 {
        0
    } else {
        utf16_len(s.drop_last()) + utf16_width(s.last())
    }
}

/// Leading whitespace ends at the first character that is none.
pub proof fn lemma_trim_start_at(s: Seq<char>, a: int)
    requires
        0 <= a <= s.len(),
        forall|i: int| 0 <= i < a ==> is_whitespace(s[i]),
        a < s.len() ==> !is_whitespace(s[a]),
    ensures
        trim_start(s) == s.subrange(a, s.len() as int),
    decreases a,
{
    if a == 0 {
        assert(s.subrange(0, s.len() as int) =~= s);
    } else {
        let rest = s.drop_first();
        assert forall|i: int| 0 <= i < a - 1 implies is_whitespace(rest[i]) by {
            assert(rest[i] == s[i + 1]);
        }
        lemma_trim_start_at(rest, a - 1);
        assert(rest.subrange(a - 1, rest.len() as int) =~= s.subrange(a, s.len() as int));
    }
}

/// Trailing whitespace begins behind the last character that is none.
pub proof fn lemma_trim_end_at(s: Seq<char>, b: int)
    requires
        0 <= b <= s.len(),
        forall|i: int| b <= i < s.len() ==> is_whitespace(s[i]),
        0 < b ==> !is_whitespace(s[b - 1]),
    ensures
        trim_end(s) == s.subrange(0, b),
    decreases s.len() - b,
{
    if b == s.len() {
        assert(s.subrange(0, b) =~= s);
    } else {
        let rest = s.drop_last();
        lemma_trim_end_at(rest, b);
        assert(rest.subrange(0, b) =~= s.subrange(0, b));
    }
}

/// The trimmed text is the span between the first and the last character that
/// is not whitespace.
pub proof fn lemma_trimmed_span(s: Seq<char>, a: int, b: int)
    requires
        0 <= a < b <= s.len(),
        forall|i: int| 0 <= i < a ==> is_whitespace(s[i]),
        forall|i: int| b <= i < s.len() ==> is_whitespace(s[i]),
        !is_whitespace(s[a]),
        !is_whitespace(s[b - 1]),
    ensures
        trimmed(s) == s.subrange(a, b),
{
    lemma_trim_start_at(s, a);
    let t = s.subrange(a, s.len() as int);
    lemma_trim_end_at(t, b - a);
    assert(t.subrange(0, b - a) =~= s.subrange(a, b));
}

/// Text made of whitespace alone trims to nothing.
pub proof fn lemma_trimmed_blank(s: Seq<char>)
    requires
        forall|i: int| 0 <= i < s.len() ==> is_whitespace(s[i]),
    ensures
        trimmed(s) == Seq::<char>::empty(),
{
    lemma_trim_start_at(s, s.len() as int);
    assert(s.subrange(s.len() as int, s.len() as int) =~= Seq::<char>::empty());
}

/// Trimmed text never starts or ends with whitespace, and trimming it again
/// changes nothing.
pub proof fn law_trim_is_idempotent(s: Seq<char>)
    ensures
        trimmed(trimmed(s)) == trimmed(s),
        trimmed(s).len() > 0 ==> !is_whitespace(trimmed(s).first()) && !is_whitespace(
            trimmed(s).last(),
        ),
        trimmed(s).len() <= s.len(),
{
    lemma_trim_start_shape(s);
    let t = trim_start(s);
    lemma_trim_end_shape(t);
    let u = trim_end(t);
    if u.len() > 0 {
        assert(u.first() == t.first());
        lemma_trimmed_span(u, 0, u.len() as int);
        assert(u.subrange(0, u.len() as int) =~= u);
    } else {
        lemma_trimmed_blank(u);
    }
}

proof fn lemma_trim_start_shape(s: Seq<char>)
    ensures
        trim_start(s).len() <= s.len(),
        trim_start(s).len() > 0 ==> !is_whitespace(trim_start(s).first()),
    decreases s.len(),
{
    if s.len() > 0 && is_whitespace(s.first()) {
        lemma_trim_start_shape(s.drop_first());
    }
}

proof fn lemma_trim_end_shape(s: Seq<char>)
    ensures
        trim_end(s).len() <= s.len(),
        trim_end(s).is_prefix_of(s),
        trim_end(s).len() > 0 ==> !is_whitespace(trim_end(s).last()),
    decreases s.len(),
{
    if s.len() > 0 && is_whitespace(s.last()) {
        lemma_trim_end_shape(s.drop_last());
    }
}

/// Whether the character is whitespace.
pub fn is_whitespace_char(c: char) -> (b: bool)
    ensures
        b == is_whitespace(c),
{
    let u: u32 = c as u32;
    (0x09 <= u && u <= 0x0D) || u == 0x20 || u == 0x85 || u == 0xA0 || u == 0x1680 || (0x2000 <= u
        && u <= 0x200A) || u == 0x2028 || u == 0x2029 || u == 0x202F || u == 0x205F || u == 0x3000
}

/// Strips leading and trailing whitespace.
pub fn trim(s: &str) -> (r: &str)
    ensures
        r@ == trimmed(s@),
{
    let n: usize = s.unicode_len();
    let mut first: usize = n;
    let mut end: usize = 0;
    let mut i: usize = 0;
    for c in it: s.chars()
        invariant
            it.seq() == s@,
            i == it.index(),
            n == s@.len(),
            first <= n,
            end <= i,
            first < n ==> first < end && !is_whitespace(s@[first as int]) && !is_whitespace(
                s@[end - 1],
            ),
            first == n ==> end == 0,
            forall|j: int| 0 <= j < i && j < first ==> is_whitespace(s@[j]),
            forall|j: int| end <= j < i ==> is_whitespace(s@[j]),
    {
        if !is_whitespace_char(c) {
            if first == n {
                first = i;
            }
            end = i + 1;
        }
        i = i + 1;
    }
    if first == n {
        proof {
            lemma_trimmed_blank(s@);
        }
        s.substring_char(0, 0)
    } else {
        proof {
            lemma_trimmed_span(s@, first as int, end as int);
        }
        s.substring_char(first, end)
    }
}

/// Whether the text is empty once trimmed.
pub fn is_blank_text(s: &str) -> (b: bool)
    ensures
        b == is_blank(s@),
{
    trim(s).unicode_len() == 0
}

/// Compares two string slices character by character.
pub fn str_equal(a: &str, b: &str) -> (r: bool)
    ensures
        r == (a@ == b@),
{
    let x = a.as_bytes();
    let y = b.as_bytes();
    proof {
        encode_utf8_decode_utf8(a@);
        encode_utf8_decode_utf8(b@);
    }
    if x.len() != y.len() {
        return false;
    }
    let mut i: usize = 0;
    while i < x.len()
        invariant
            i <= x.len(),
            x.len() == y.len(),
            x@ == encode_utf8(a@),
            y@ == encode_utf8(b@),
            forall|j: int| 0 <= j < i ==> x@[j] == y@[j],
        decreases x.len() - i,
    {
        if x[i] != y[i] {
            return false;
        }
        i = i + 1;
    }
    assert(x@ =~= y@);
    true
}

/// How many leading characters of `s` fit in `max` UTF-16 code units.
pub open spec fn fitting_len(s: Seq<char>, max: nat) -> nat
    decreases s.len(),
{
    if utf16_len(s) <= max {
        s.len()
    } else {
        fitting_len(s.drop_last(), max)
    }
}

/// The longest prefix of `s` that fits in `max` UTF-16 code units.
pub open spec fn truncated(s: Seq<char>, max: nat) -> Seq<char> {
    s.take(fitting_len(s, max) as int)
}

/// The longest fitting prefix is a prefix, fits, and cannot be made longer.
pub proof fn lemma_truncated_is_longest(s: Seq<char>, max: nat)
    ensures
        fitting_len(s, max) <= s.len(),
        truncated(s, max).is_prefix_of(s),
        utf16_len(truncated(s, max)) <= max,
        fitting_len(s, max) < s.len() ==> utf16_len(s.take(fitting_len(s, max) as int + 1)) > max,
        utf16_len(s) <= max ==> truncated(s, max) == s,
    decreases s.len(),
{
    if utf16_len(s) <= max {
        assert(s.take(s.len() as int) =~= s);
    } else {
        let shorter = s.drop_last();
        lemma_truncated_is_longest(shorter, max);
        let k = fitting_len(shorter, max) as int;
        assert(shorter.take(k) =~= s.take(k));
        if k < shorter.len() {
            assert(shorter.take(k + 1) =~= s.take(k + 1));
        } else {
            assert(s.take(k + 1) =~= s);
        }
    }
}

/// A prefix that fits and cannot be made longer is the longest fitting one.
pub proof fn lemma_truncated_unique(s: Seq<char>, max: nat, k: int)
    requires
        0 <= k <= s.len(),
        utf16_len(s.take(k)) <= max,
        k < s.len() ==> utf16_len(s.take(k + 1)) > max,
    ensures
        fitting_len(s, max) == k,
        truncated(s, max) == s.take(k),
{
    lemma_truncated_is_longest(s, max);
    let f = fitting_len(s, max) as int;
    if f < k {
        lemma_utf16_len_prefix(s, f + 1, k);
    } else if k < f {
        lemma_utf16_len_prefix(s, k + 1, f);
    }
}

/// A prefix takes no more code units than a longer one.
pub proof fn lemma_utf16_len_prefix(s: Seq<char>, i: int, j: int)
    requires
        0 <= i <= j <= s.len(),
    ensures
        utf16_len(s.take(i)) <= utf16_len(s.take(j)),
    decreases j - i,
{
    if i < j {
        lemma_utf16_len_prefix(s, i, j - 1);
        assert(s.take(j).drop_last() =~= s.take(j - 1));
    }
}

/// Keeps the longest prefix of `input` that fits in `max_utf16_units` UTF-16
/// code units. The cut falls between characters, so a surrogate pair is kept
/// whole or dropped whole.
pub fn truncate_to_telegram_limit(input: &str, max_utf16_units: usize) -> (r: &str)
    ensures
        r@ == truncated(input@, max_utf16_units as nat),
        r@.is_prefix_of(input@),
        utf16_len(r@) <= max_utf16_units,
        r@.len() < input@.len() ==> utf16_len(input@.take(r@.len() as int + 1)) > max_utf16_units,
{
    let n: usize = input.unicode_len();
    let mut units: usize = 0;
    let mut i: usize = 0;
    proof {
        assert(input@.take(0) =~= Seq::<char>::empty());
    }
    for c in it: input.chars()
        invariant
            it.seq() == input@,
            i == it.index(),
            n == input@.len(),
            units == utf16_len(input@.take(i as int)),
            units <= max_utf16_units,
    {
        let width: usize = if c as u32 >= 0x10000 {
            2
        } else {
            1
        };
        proof {
            assert(input@.take(i + 1).drop_last() =~= input@.take(i as int));
            assert(input@.take(i + 1).last() == c);
        }
        if width > max_utf16_units - units {
            proof {
                lemma_truncated_unique(input@, max_utf16_units as nat, i as int);
            }
            return input.substring_char(0, i);
        }
        units = units + width;
        i = i + 1;
    }
    proof {
        assert(input@.take(n as int) =~= input@);
        lemma_truncated_unique(input@, max_utf16_units as nat, n as int);
    }
    input
}

} // verus!
