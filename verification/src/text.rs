//! Text as sequences of characters: searching, trimming, splitting at white
//! space, ordering, and writing numbers in decimal.
//!
//! The spec functions say what each operation means on a `Seq<char>`; the
//! executable functions scan a `Vec<char>` between two positions and are
//! proved against them.

use vstd::prelude::*;
use vstd::string::StrSliceExecFns;
use vstd::string::StringSliceAdditionalSpecFns;
use vstd::string::StringExecFns;

verus! {

/// White space: the characters with Unicode's `White_Space` property.
pub open spec fn is_space(c: char) -> bool {
    let n = c as u32;
    ||| 0x09 <= n <= 0x0D
    ||| n == 0x20
    ||| n == 0x85
    ||| n == 0xA0
    ||| n == 0x1680
    ||| 0x2000 <= n <= 0x200A
    ||| n == 0x2028
    ||| n == 0x2029
    ||| n == 0x202F
    ||| n == 0x205F
    ||| n == 0x3000
}

/// The length of the longest prefix of `s` made of white space only
/// (`space`), or of anything but white space (`!space`).
pub open spec fn run_len(s: Seq<char>, space: bool) -> nat
    decreases s.len(),
{
    if s.len() > 0 && is_space(s[0]) == space {
        1 + run_len(s.drop_first(), space)
    } else {
        0
    }
}

/// The number of white-space characters at the end of `s`.
pub open spec fn trailing_spaces(s: Seq<char>) -> nat
    decreases s.len(),
{
    if s.len() > 0 && is_space(s.last()) {
        1 + trailing_spaces(s.drop_last())
    } else {
        0
    }
}

/// `s` without the white space at its start.
pub open spec fn trim_start(s: Seq<char>) -> Seq<char> {
    s.skip(run_len(s, true) as int)
}

/// `s` without the white space at its end.
pub open spec fn trim_end(s: Seq<char>) -> Seq<char> {
    s.take(s.len() - trailing_spaces(s))
}

/// `s` without the white space at either end.
pub open spec fn trim(s: Seq<char>) -> Seq<char> {
    trim_end(trim_start(s))
}

/// The first word of `s`: what stands between the white space at its start
/// and the next white space. Empty where `s` holds white space only.
pub open spec fn first_word(s: Seq<char>) -> Seq<char> {
    let rest = trim_start(s);
    rest.take(run_len(rest, false) as int)
}

/// What follows the first word of `s`.
pub open spec fn after_first_word(s: Seq<char>) -> Seq<char> {
    let rest = trim_start(s);
    rest.skip(run_len(rest, false) as int)
}

/// The position of the first `c` in `s`, or the length of `s` where it holds
/// none.
pub open spec fn offset_of(s: Seq<char>, c: char) -> nat
    decreases s.len(),
{
    if s.len() > 0 && s[0] != c {
        1 + offset_of(s.drop_first(), c)
    } else {
        0
    }
}

/// The position of the last `c` in `s`, or -1 where it holds none.
pub open spec fn last_offset_of(s: Seq<char>, c: char) -> int
    decreases s.len(),
{
    if s.len() == 0 {
        -1
    } else if s.last() == c {
        s.len() - 1
    } else {
        last_offset_of(s.drop_last(), c)
    }
}

/// Whether `s` starts with `prefix`.
pub open spec fn has_prefix(s: Seq<char>, prefix: Seq<char>) -> bool {
    prefix.len() <= s.len() && s.take(prefix.len() as int) == prefix
}

/// The order of texts: character by character by code point, a proper prefix
/// coming before the longer text. This is the order of `str` and `String`.
pub open spec fn text_lt(a: Seq<char>, b: Seq<char>) -> bool
    decreases a.len(),
{
    if b.len() == 0 {
        false
    } else if a.len() == 0 {
        true
    } else if a[0] != b[0] {
        (a[0] as u32) < (b[0] as u32)
    } else {
        text_lt(a.drop_first(), b.drop_first())
    }
}

/// The character of the digit `d`.
pub open spec fn digit(d: nat) -> char {
    if d == 0 {
        '0'
    } else if d == 1 {
        '1'
    } else if d == 2 {
        '2'
    } else if d == 3 {
        '3'
    } else if d == 4 {
        '4'
    } else if d == 5 {
        '5'
    } else if d == 6 {
        '6'
    } else if d == 7 {
        '7'
    } else if d == 8 {
        '8'
    } else {
        '9'
    }
}

/// `n` written in decimal, without leading zeros.
pub open spec fn decimal(n: nat) -> Seq<char>
    decreases n,
{
    if n < 10 {
        seq![digit(n)]
    } else {
        decimal(n / 10).push(digit(n % 10))
    }
}

/// Whoever finds a position `k` of `s` with only `space`-kind characters
/// before it and none at it has found `run_len(s, space)`.
pub proof fn lemma_run_len(s: Seq<char>, space: bool, k: int)
    requires
        0 <= k <= s.len(),
        forall|j: int| 0 <= j < k ==> is_space(#[trigger] s[j]) == space,
        k < s.len() ==> is_space(s[k]) != space,
    ensures
        run_len(s, space) == k,
    decreases k,
{
    if k > 0 {
        let rest = s.drop_first();
        assert forall|j: int| 0 <= j < k - 1 implies is_space(#[trigger] rest[j]) == space by {
            assert(rest[j] == s[j + 1]);
        }
        lemma_run_len(rest, space, k - 1);
    }
}

/// Whoever finds `k` characters of white space at the end of `s` and none
/// before them has found `trailing_spaces(s)`.
pub proof fn lemma_trailing_spaces(s: Seq<char>, k: int)
    requires
        0 <= k <= s.len(),
        forall|j: int| s.len() - k <= j < s.len() ==> is_space(#[trigger] s[j]),
        k < s.len() ==> !is_space(s[s.len() - k - 1]),
    ensures
        trailing_spaces(s) == k,
    decreases k,
{
    if k > 0 {
        let rest = s.drop_last();
        assert forall|j: int| rest.len() - (k - 1) <= j < rest.len() implies is_space(
            #[trigger] rest[j],
        ) by {
            assert(rest[j] == s[j]);
        }
        lemma_trailing_spaces(rest, k - 1);
    }
}

/// Whoever finds a position `k` of `s` with no `c` before it and a `c` at it
/// (or the end of `s`) has found `offset_of(s, c)`.
pub proof fn lemma_offset_of(s: Seq<char>, c: char, k: int)
    requires
        0 <= k <= s.len(),
        forall|j: int| 0 <= j < k ==> #[trigger] s[j] != c,
        k < s.len() ==> s[k] == c,
    ensures
        offset_of(s, c) == k,
    decreases k,
{
    if k > 0 {
        let rest = s.drop_first();
        assert forall|j: int| 0 <= j < k - 1 implies #[trigger] rest[j] != c by {
            assert(rest[j] == s[j + 1]);
        }
        lemma_offset_of(rest, c, k - 1);
    }
}

/// Whoever finds a position `k` of `s` with a `c` at it (or -1) and no `c`
/// after it has found `last_offset_of(s, c)`.
pub proof fn lemma_last_offset_of(s: Seq<char>, c: char, k: int)
    requires
        -1 <= k < s.len(),
        forall|j: int| k < j < s.len() ==> #[trigger] s[j] != c,
        k >= 0 ==> s[k] == c,
    ensures
        last_offset_of(s, c) == k,
    decreases s.len(),
{
    if s.len() > 0 && k < s.len() - 1 {
        let rest = s.drop_last();
        assert forall|j: int| k < j < rest.len() implies #[trigger] rest[j] != c by {
            assert(rest[j] == s[j]);
        }
        lemma_last_offset_of(rest, c, k);
    }
}

/// Texts that agree on their first `k` characters are ordered as what
/// follows those characters.
pub proof fn lemma_text_lt_skip(a: Seq<char>, b: Seq<char>, k: int)
    requires
        0 <= k <= a.len(),
        k <= b.len(),
        forall|j: int| 0 <= j < k ==> a[j] == b[j],
    ensures
        text_lt(a, b) == text_lt(a.skip(k), b.skip(k)),
    decreases k,
{
    if k == 0 {
        assert(a.skip(0) =~= a);
        assert(b.skip(0) =~= b);
    } else {
        assert(a[0] == b[0]);
        lemma_text_lt_skip(a.drop_first(), b.drop_first(), k - 1);
        assert(a.drop_first().skip(k - 1) =~= a.skip(k));
        assert(b.drop_first().skip(k - 1) =~= b.skip(k));
    }
}

/// Different characters have different code points.
pub proof fn lemma_code_points_differ(a: char, b: char)
    requires
        a != b,
    ensures
        (a as u32) != (b as u32),
{
}

/// No text comes before itself.
pub proof fn lemma_text_lt_irreflexive(a: Seq<char>)
    ensures
        !text_lt(a, a),
    decreases a.len(),
{
    if a.len() > 0 {
        lemma_text_lt_irreflexive(a.drop_first());
    }
}

/// The order of texts is transitive.
pub proof fn lemma_text_lt_transitive(a: Seq<char>, b: Seq<char>, c: Seq<char>)
    requires
        text_lt(a, b),
        text_lt(b, c),
    ensures
        text_lt(a, c),
    decreases a.len(),
{
    if a.len() > 0 && a[0] == b[0] && b[0] == c[0] {
        lemma_text_lt_transitive(a.drop_first(), b.drop_first(), c.drop_first());
    }
}

/// Of two different texts, one comes before the other.
pub proof fn lemma_text_lt_total(a: Seq<char>, b: Seq<char>)
    ensures
        text_lt(a, b) || text_lt(b, a) || a == b,
    decreases a.len(),
{
    if a.len() == 0 || b.len() == 0 {
        if a.len() == 0 && b.len() == 0 {
            assert(a =~= b);
        }
    } else if a[0] == b[0] {
        lemma_text_lt_total(a.drop_first(), b.drop_first());
        if a.drop_first() == b.drop_first() {
            assert(a =~= seq![a[0]] + a.drop_first());
            assert(b =~= seq![b[0]] + b.drop_first());
        }
    } else {
        lemma_code_points_differ(a[0], b[0]);
    }
}

/// Whether `c` is white space.
pub fn is_whitespace(c: char) -> (space: bool)
    ensures
        space == is_space(c),
{
    let n: u32 = c as u32;
    (0x09 <= n && n <= 0x0D) || n == 0x20 || n == 0x85 || n == 0xA0 || n == 0x1680 || (0x2000 <= n
        && n <= 0x200A) || n == 0x2028 || n == 0x2029 || n == 0x202F || n == 0x205F || n == 0x3000
}

/// The characters of `s`, in order.
pub fn chars_of(s: &str) -> (chars: Vec<char>)
    ensures
        chars@ == s@,
{
    let mut chars: Vec<char> = Vec::new();
    for c in it: s.chars()
        invariant
            it.seq() == s@,
            chars@ == it.seq().take(it.index()),
    {
        chars.push(c);
    }
    chars
}

/// The characters of `s` from position `from` up to, not including, `to`.
pub fn substring(s: &str, from: usize, to: usize) -> (part: String)
    requires
        from <= to <= s@.len(),
    ensures
        part@ == s@.subrange(from as int, to as int),
{
    String::from_str(s.substring_char(from, to))
}

/// Whether two texts hold the same characters.
pub fn same_text(a: &str, b: &str) -> (same: bool)
    ensures
        same == (a@ == b@),
{
    let x = a.as_bytes();
    let y = b.as_bytes();
    if x.len() != y.len() {
        return false;
    }
    let mut i: usize = 0;
    while i < x.len()
        invariant
            i <= x.len(),
            x.len() == y.len(),
            x@ == a.spec_bytes(),
            y@ == b.spec_bytes(),
            forall|j: int| 0 <= j < i ==> x@[j] == y@[j],
        decreases x.len() - i,
    {
        if x[i] != y[i] {
            return false;
        }
        i += 1;
    }
    proof {
        assert(x@ =~= y@);
        vstd::utf8::encode_utf8_decode_utf8(a@);
        vstd::utf8::encode_utf8_decode_utf8(b@);
    }
    true
}

/// Whether the code point of `a` is less than that of `b`.
pub fn char_before(a: char, b: char) -> (before: bool)
    ensures
        before == ((a as u32) < (b as u32)),
{
    a < b
}

/// Whether `a` comes before `b` in the order of texts.
pub fn text_before(a: &Vec<char>, b: &Vec<char>) -> (before: bool)
    ensures
        before == text_lt(a@, b@),
{
    let mut i: usize = 0;
    while i < a.len() && i < b.len() && a[i] == b[i]
        invariant
            i <= a.len(),
            i <= b.len(),
            forall|j: int| 0 <= j < i ==> a@[j] == b@[j],
        decreases a.len() - i,
    {
        i += 1;
    }
    proof {
        lemma_text_lt_skip(a@, b@, i as int);
        let rest_a = a@.skip(i as int);
        let rest_b = b@.skip(i as int);
        assert(rest_a.len() == a.len() - i);
        assert(rest_b.len() == b.len() - i);
        if i < a.len() && i < b.len() {
            assert(rest_a[0] == a@[i as int]);
            assert(rest_b[0] == b@[i as int]);
        }
    }
    if i >= b.len() {
        false
    } else if i >= a.len() {
        true
    } else {
        char_before(a[i], b[i])
    }
}

/// Whether the characters of `s` from `from` on start with `prefix`.
pub fn starts_with_at(s: &Vec<char>, from: usize, prefix: &Vec<char>) -> (found: bool)
    requires
        from <= s.len(),
    ensures
        found == has_prefix(s@.skip(from as int), prefix@),
{
    if prefix.len() > s.len() - from {
        return false;
    }
    let mut i: usize = 0;
    while i < prefix.len()
        invariant
            i <= prefix.len(),
            from + prefix.len() <= s.len(),
            forall|j: int| 0 <= j < i ==> s@[from + j] == prefix@[j],
        decreases prefix.len() - i,
    {
        if s[from + i] != prefix[i] {
            proof {
                let head = s@.skip(from as int).take(prefix@.len() as int);
                assert(head[i as int] == s@[from + i]);
            }
            return false;
        }
        i += 1;
    }
    proof {
        assert(s@.skip(from as int).take(prefix@.len() as int) =~= prefix@);
    }
    true
}

/// The position of the first `c` between `from` and `to`, or `to` where none
/// stands there.
pub fn find_char(s: &Vec<char>, c: char, from: usize, to: usize) -> (at: usize)
    requires
        from <= to <= s.len(),
    ensures
        from <= at <= to,
        at - from == offset_of(s@.subrange(from as int, to as int), c),
{
    let mut i: usize = from;
    while i < to && s[i] != c
        invariant
            from <= i <= to,
            to <= s.len(),
            forall|j: int| from <= j < i ==> s@[j] != c,
        decreases to - i,
    {
        i += 1;
    }
    proof {
        let part = s@.subrange(from as int, to as int);
        assert forall|j: int| 0 <= j < i - from implies #[trigger] part[j] != c by {
            assert(part[j] == s@[from + j]);
        }
        lemma_offset_of(part, c, i - from);
    }
    i
}

/// The position of the last `c` between `from` and `to`, if one stands there.
pub fn rfind_char(s: &Vec<char>, c: char, from: usize, to: usize) -> (at: Option<usize>)
    requires
        from <= to <= s.len(),
    ensures
        match at {
            Some(i) => from <= i < to && i - from == last_offset_of(
                s@.subrange(from as int, to as int),
                c,
            ),
            None => last_offset_of(s@.subrange(from as int, to as int), c) == -1,
        },
{
    let ghost part = s@.subrange(from as int, to as int);
    let mut i: usize = to;
    while i > from
        invariant
            from <= i <= to,
            to <= s.len(),
            part == s@.subrange(from as int, to as int),
            forall|j: int| i <= j < to ==> s@[j] != c,
        decreases i,
    {
        if s[i - 1] == c {
            proof {
                assert forall|j: int| i - 1 - from < j < part.len() implies #[trigger] part[j]
                    != c by {
                    assert(part[j] == s@[from + j]);
                }
                lemma_last_offset_of(part, c, i - 1 - from);
            }
            return Some(i - 1);
        }
        i -= 1;
    }
    proof {
        assert forall|j: int| -1 < j < part.len() implies #[trigger] part[j] != c by {
            assert(part[j] == s@[from + j]);
        }
        lemma_last_offset_of(part, c, -1);
    }
    None
}

/// The end of the run of white space (`space`) or of other characters
/// (`!space`) that starts at `from` and does not go beyond `to`.
pub fn skip_run(s: &Vec<char>, space: bool, from: usize, to: usize) -> (end: usize)
    requires
        from <= to <= s.len(),
    ensures
        from <= end <= to,
        end - from == run_len(s@.subrange(from as int, to as int), space),
{
    let mut i: usize = from;
    while i < to && is_whitespace(s[i]) == space
        invariant
            from <= i <= to,
            to <= s.len(),
            forall|j: int| from <= j < i ==> is_space(s@[j]) == space,
        decreases to - i,
    {
        i += 1;
    }
    proof {
        let part = s@.subrange(from as int, to as int);
        assert forall|j: int| 0 <= j < i - from implies is_space(#[trigger] part[j]) == space by {
            assert(part[j] == s@[from + j]);
        }
        lemma_run_len(part, space, i - from);
    }
    i
}

/// The start of the white space that ends at `to` and does not reach back
/// beyond `from`.
pub fn skip_spaces_back(s: &Vec<char>, from: usize, to: usize) -> (start: usize)
    requires
        from <= to <= s.len(),
    ensures
        from <= start <= to,
        to - start == trailing_spaces(s@.subrange(from as int, to as int)),
{
    let mut i: usize = to;
    while i > from && is_whitespace(s[i - 1])
        invariant
            from <= i <= to,
            to <= s.len(),
            forall|j: int| i <= j < to ==> is_space(s@[j]),
        decreases i,
    {
        i -= 1;
    }
    proof {
        let part = s@.subrange(from as int, to as int);
        assert forall|j: int| part.len() - (to - i) <= j < part.len() implies is_space(
            #[trigger] part[j],
        ) by {
            assert(part[j] == s@[from + j]);
        }
        lemma_trailing_spaces(part, to - i);
    }
    i
}

/// The bounds of what is left of the characters between `from` and `to` when
/// the white space at either end is taken away.
pub fn trim_bounds(s: &Vec<char>, from: usize, to: usize) -> (bounds: (usize, usize))
    requires
        from <= to <= s.len(),
    ensures
        from <= bounds.0 <= bounds.1 <= to,
        s@.subrange(bounds.0 as int, bounds.1 as int) == trim(s@.subrange(from as int, to as int)),
{
    let start = skip_run(s, true, from, to);
    let end = skip_spaces_back(s, start, to);
    proof {
        let part = s@.subrange(from as int, to as int);
        assert(trim_start(part) =~= s@.subrange(start as int, to as int));
        assert(trim(part) =~= s@.subrange(start as int, end as int));
    }
    (start, end)
}

fn digit_text(d: u64) -> (text: &'static str)
    requires
        d < 10,
    ensures
        text@ == seq![digit(d as nat)],
{
    proof {
        reveal_strlit("0");
        reveal_strlit("1");
        reveal_strlit("2");
        reveal_strlit("3");
        reveal_strlit("4");
        reveal_strlit("5");
        reveal_strlit("6");
        reveal_strlit("7");
        reveal_strlit("8");
        reveal_strlit("9");
    }
    let text = if d == 0 {
        "0"
    } else if d == 1 {
        "1"
    } else if d == 2 {
        "2"
    } else if d == 3 {
        "3"
    } else if d == 4 {
        "4"
    } else if d == 5 {
        "5"
    } else if d == 6 {
        "6"
    } else if d == 7 {
        "7"
    } else if d == 8 {
        "8"
    } else {
        "9"
    };
    proof {
        assert(text@ =~= seq![digit(d as nat)]);
    }
    text
}

/// Appends `n`, written in decimal, to `out`.
pub fn push_decimal(out: &mut String, n: u64)
    ensures
        final(out)@ == old(out)@ + decimal(n as nat),
    decreases n,
{
    if n >= 10 {
        push_decimal(out, n / 10);
    }
    out.append(digit_text(n % 10));
    proof {
        assert(out@ =~= old(out)@ + decimal(n as nat));
    }
}

} // verus!
