//! Text as the library measures and builds it: trimming, lengths, decimal numbers, file names.
use vstd::prelude::*;
use vstd::string::*;

verus! {

/// Whether a character has the Unicode property White_Space.
pub open spec fn white_space(c: char) -> bool {
    let n = c as u32;
    ||| 0x9 <= n <= 0xD
    ||| n == 0x20 || n == 0x85 || n == 0xA0 || n == 0x1680
    ||| 0x2000 <= n <= 0x200A
    ||| n == 0x2028 || n == 0x2029 || n == 0x202F || n == 0x205F || n == 0x3000
}

fn is_whitespace(c: char) -> (r: bool)
    ensures
        r == white_space(c),
{
    let n: u32 = c as u32;
    match n {
        0x9..=0xD | 0x20 | 0x85 | 0xA0 | 0x1680 | 0x2000..=0x200A => true,
        0x2028 | 0x2029 | 0x202F | 0x205F | 0x3000 => true,
        _ => false,
    }
}

/// How many characters of white space `s` begins with.
pub open spec fn leading_white(s: Seq<char>) -> nat
    decreases s.len(),
{
    if s.len() == 0 || !white_space(s[0]) {
        0
    } else {
        1 + leading_white(s.drop_first())
    }
}

/// How many characters of white space `s` ends with.
pub open spec fn trailing_white(s: Seq<char>) -> nat
    decreases s.len(),
{
    if s.len() == 0 || !white_space(s.last()) {
        0
    } else {
        1 + trailing_white(s.drop_last())
    }
}

/// `s` without the white space at its two ends.
pub open spec fn trimmed(s: Seq<char>) -> Seq<char> {
    let rest = s.skip(leading_white(s) as int);
    rest.take(rest.len() - trailing_white(rest))
}

proof fn lemma_leading_bound(s: Seq<char>)
    ensures
        leading_white(s) <= s.len(),
    decreases s.len(),
{
    if s.len() != 0 && white_space(s[0]) {
        lemma_leading_bound(s.drop_first());
    }
}

proof fn lemma_trailing_bound(s: Seq<char>)
    ensures
        trailing_white(s) <= s.len(),
    decreases s.len(),
{
    if s.len() != 0 && white_space(s.last()) {
        lemma_trailing_bound(s.drop_last());
    }
}

/// `leading_white` is the least position that does not hold white space.
proof fn lemma_leading_at(s: Seq<char>, n: int)
    requires
        0 <= n <= s.len(),
        forall|i: int| 0 <= i < n ==> white_space(#[trigger] s[i]),
        n < s.len() ==> !white_space(s[n]),
    ensures
        leading_white(s) == n,
    decreases s.len(),
{
    if n > 0 {
        assert(white_space(s[0]));
        let rest = s.drop_first();
        assert forall|i: int| 0 <= i < n - 1 implies white_space(#[trigger] rest[i]) by {
            assert(rest[i] == s[i + 1]);
        }
        if n < s.len() {
            assert(rest[n - 1] == s[n]);
        }
        lemma_leading_at(rest, n - 1);
    }
}

/// `trailing_white` counts back to the last position that does not hold white space.
proof fn lemma_trailing_at(s: Seq<char>, n: int)
    requires
        0 <= n <= s.len(),
        forall|i: int| s.len() - n <= i < s.len() ==> white_space(#[trigger] s[i]),
        n < s.len() ==> !white_space(s[s.len() - n - 1]),
    ensures
        trailing_white(s) == n,
    decreases s.len(),
{
    if n > 0 {
        assert(white_space(s[s.len() - 1]));
        let rest = s.drop_last();
        assert forall|i: int| rest.len() - (n - 1) <= i < rest.len() implies white_space(
            #[trigger] rest[i],
        ) by {
            assert(rest[i] == s[i]);
        }
        if n < s.len() {
            assert(rest[rest.len() - (n - 1) - 1] == s[s.len() - n - 1]);
        }
        lemma_trailing_at(rest, n - 1);
    }
}

/// Trimming twice is trimming once.
pub proof fn trim_is_idempotent(s: Seq<char>)
    ensures
        trimmed(trimmed(s)) == trimmed(s),
{
    lemma_leading_bound(s);
    let rest = s.skip(leading_white(s) as int);
    lemma_trailing_bound(rest);
    let t = trimmed(s);
    if t.len() > 0 {
        lemma_first_kept(s);
        lemma_last_kept(rest);
        assert(t[0] == rest[0]);
        lemma_leading_at(t, 0);
        assert(t.skip(0) == t);
        assert(t[t.len() - 1] == rest[t.len() - 1]);
        lemma_trailing_at(t, 0);
        assert(t.take(t.len() as int) == t);
    } else {
        assert(t.skip(0) == t);
        assert(t.take(0) == t);
    }
}

proof fn lemma_first_kept(s: Seq<char>)
    ensures
        leading_white(s) < s.len() ==> !white_space(s[leading_white(s) as int]),
    decreases s.len(),
{
    if s.len() != 0 && white_space(s[0]) {
        lemma_first_kept(s.drop_first());
        if leading_white(s) < s.len() {
            assert(s.drop_first()[leading_white(s) - 1] == s[leading_white(s) as int]);
        }
    }
}

proof fn lemma_last_kept(s: Seq<char>)
    ensures
        trailing_white(s) < s.len() ==> !white_space(s[s.len() - trailing_white(s) - 1]),
    decreases s.len(),
{
    if s.len() != 0 && white_space(s.last()) {
        lemma_last_kept(s.drop_last());
        if trailing_white(s) < s.len() {
            let rest = s.drop_last();
            assert(rest[rest.len() - trailing_white(rest) - 1] == s[s.len() - trailing_white(s)
                - 1]);
        }
    }
}

/// The text without the white space at its two ends.
pub fn trim(s: &str) -> (r: &str)
    ensures
        r@ == trimmed(s@),
{
    let n: usize = s.unicode_len();
    let mut from: usize = 0;
    while from < n && is_whitespace(s.get_char(from))
        invariant
            n == s@.len(),
            from <= n,
            forall|i: int| 0 <= i < from ==> white_space(#[trigger] s@[i]),
        decreases n - from,
    {
        from = from + 1;
    }
    proof {
        lemma_leading_at(s@, from as int);
    }
    let ghost rest = s@.skip(from as int);
    let mut to: usize = n;
    while to > from && is_whitespace(s.get_char(to - 1))
        invariant
            n == s@.len(),
            from <= to <= n,
            forall|i: int| to <= i < n ==> white_space(#[trigger] s@[i]),
        decreases to,
    {
        to = to - 1;
    }
    proof {
        assert forall|i: int| rest.len() - (n - to) <= i < rest.len() implies white_space(
            #[trigger] rest[i],
        ) by {
            assert(rest[i] == s@[i + from]);
        }
        if n - to < rest.len() {
            assert(rest[rest.len() - (n - to) - 1] == s@[to - 1]);
        }
        lemma_trailing_at(rest, n - to);
        assert(s@.subrange(from as int, to as int) == rest.take(rest.len() - (n - to)));
    }
    s.substring_char(from, to)
}

/// The number of bytes of a text in UTF-8.
pub open spec fn byte_length(s: Seq<char>) -> usize {
    vstd::utf8::encode_utf8(s).len() as usize
}

/// The number of characters in the trimmed lines, as a sum.
pub open spec fn total_length(lines: Seq<String>) -> nat
    decreases lines.len(),
{
    if lines.len() == 0 {
        0
    } else {
        total_length(lines.drop_last()) + trimmed(lines.last()@).len()
    }
}

/// What a message of these lines measures: the characters of its trimmed lines, counted together.
/// A count that a `usize` cannot hold is cut to the greatest that it can.
pub open spec fn measured_length(lines: Seq<String>) -> usize {
    if total_length(lines) <= usize::MAX {
        total_length(lines) as usize
    } else {
        usize::MAX
    }
}

/// Measures a message.
pub fn lines_length(lines: &Vec<String>) -> (r: usize)
    ensures
        r == measured_length(lines@),
{
    let mut sum: usize = 0;
    let mut i: usize = 0;
    while i < lines.len()
        invariant
            i <= lines@.len(),
            sum == measured_length(lines@.take(i as int)),
        decreases lines@.len() - i,
    {
        let line = trim(lines[i].as_str());
        let count: usize = line.unicode_len();
        proof {
            assert(lines@.take(i + 1).drop_last() == lines@.take(i as int));
            assert(lines@.take(i + 1).last() == lines@[i as int]);
        }
        sum = sum.saturating_add(count);
        i = i + 1;
    }
    proof {
        assert(lines@.take(lines@.len() as int) == lines@);
    }
    sum
}

/// The decimal digit of a number below ten.
pub open spec fn digit(d: nat) -> char {
    if d == 0 {
        '0'
    } else if d == 1 {
        '1'
    } else if d == 2 {
        '2'
    } else if d == 3 {
        '3'
    } else if d == 4 {
        '4'
    } else if d == 5 {
        '5'
    } else if d == 6 {
        '6'
    } else if d == 7 {
        '7'
    } else if d == 8 {
        '8'
    } else {
        '9'
    }
}

/// A number in decimal, without leading zeros.
pub open spec fn decimal(n: nat) -> Seq<char>
    decreases n,
{
    if n < 10 {
        seq![digit(n)]
    } else {
        decimal(n / 10).push(digit(n % 10))
    }
}

fn digit_text(d: u64) -> (r: &'static str)
    requires
        d < 10,
    ensures
        r@ == seq![digit(d as nat)],
{
    proof {
        reveal_strlit("0");
        reveal_strlit("1");
        reveal_strlit("2");
        reveal_strlit("3");
        reveal_strlit("4");
        reveal_strlit("5");
        reveal_strlit("6");
        reveal_strlit("7");
        reveal_strlit("8");
        reveal_strlit("9");
    }
    match d {
        0 => "0",
        1 => "1",
        2 => "2",
        3 => "3",
        4 => "4",
        5 => "5",
        6 => "6",
        7 => "7",
        8 => "8",
        _ => "9",
    }
}

/// Writes a number in decimal.
pub fn decimal_text(n: u64) -> (r: String)
    ensures
        r@ == decimal(n as nat),
    decreases n,
{
    if n < 10 {
        let r = digit_text(n).to_owned();
        assert(r@ == decimal(n as nat));
        r
    } else {
        let head = decimal_text(n / 10);
        let last = digit_text(n % 10);
        let r = head.concat(last);
        assert(r@ == decimal(n as nat));
        r
    }
}

/// The text in lower case.
pub uninterp spec fn lowercase(s: Seq<char>) -> Seq<char>;

/// `str::to_lowercase`: the text in lower case, which has the name `lowercase`.
#[verifier::external_body]
pub(crate) fn to_lowercase(s: &str) -> (r: String)
    ensures
        r@ == lowercase(s@),
{
    s.to_lowercase()
}

/// Whether two texts hold the same characters.
pub fn same_text(a: &str, b: &str) -> (r: bool)
    ensures
        r == (a@ == b@),
{
    let n: usize = a.unicode_len();
    if n != b.unicode_len() {
        return false;
    }
    let mut i: usize = 0;
    while i < n
        invariant
            n == a@.len(),
            n == b@.len(),
            i <= n,
            forall|j: int| 0 <= j < i ==> a@[j] == b@[j],
        decreases n - i,
    {
        if a.get_char(i) != b.get_char(i) {
            return false;
        }
        i = i + 1;
    }
    assert(a@ == b@);
    true
}

/// A copy of a text that may be missing.
pub fn copy_text(s: &Option<String>) -> (r: Option<String>)
    ensures
        r == *s,
{
    match s {
        Some(s) => Some(s.clone()),
        None => None,
    }
}

/// Trimming cuts white space off the two ends, all of it, and nothing else.
pub proof fn trim_cuts_white_ends(s: Seq<char>)
    ensures
        exists|from: int, to: int|
            {
                &&& 0 <= from <= to <= s.len()
                &&& trimmed(s) == #[trigger] s.subrange(from, to)
                &&& forall|i: int| 0 <= i < from ==> white_space(#[trigger] s[i])
                &&& forall|i: int| to <= i < s.len() ==> white_space(#[trigger] s[i])
                &&& from < to ==> !white_space(s[from]) && !white_space(s[to - 1])
            },
{
    lemma_leading_bound(s);
    lemma_leading_white(s);
    lemma_first_kept(s);
    let from = leading_white(s) as int;
    let rest = s.skip(from);
    lemma_trailing_bound(rest);
    lemma_trailing_white(rest);
    lemma_last_kept(rest);
    let to = s.len() - trailing_white(rest);
    assert(trimmed(s) == s.subrange(from, to));
    assert forall|i: int| to <= i < s.len() implies white_space(#[trigger] s[i]) by {
        assert(rest[i - from] == s[i]);
    }
    if from < to {
        assert(rest[rest.len() - trailing_white(rest) - 1] == s[to - 1]);
    }
}

proof fn lemma_leading_white(s: Seq<char>)
    ensures
        forall|i: int| 0 <= i < leading_white(s) ==> white_space(#[trigger] s[i]),
    decreases s.len(),
{
    if s.len() != 0 && white_space(s[0]) {
        let rest = s.drop_first();
        lemma_leading_white(rest);
        lemma_leading_bound(rest);
        assert forall|i: int| 0 <= i < leading_white(s) implies white_space(#[trigger] s[i]) by {
            if i > 0 {
                assert(rest[i - 1] == s[i]);
            }
        }
    }
}

proof fn lemma_trailing_white(s: Seq<char>)
    ensures
        forall|i: int| s.len() - trailing_white(s) <= i < s.len() ==> white_space(#[trigger] s[i]),
    decreases s.len(),
{
    if s.len() != 0 && white_space(s.last()) {
        let rest = s.drop_last();
        lemma_trailing_white(rest);
        lemma_trailing_bound(rest);
        assert forall|i: int| s.len() - trailing_white(s) <= i < s.len() implies white_space(
            #[trigger] s[i],
        ) by {
            if i < s.len() - 1 {
                assert(rest[i] == s[i]);
            }
        }
    }
}

/// Lines measure what they measure one by one, each without the white space around it.
pub proof fn lines_measure_together(a: Seq<String>, b: Seq<String>, line: String)
    ensures
        total_length(a + b) == total_length(a) + total_length(b),
        total_length(seq![line]) == trimmed(line@).len(),
        total_length(Seq::<String>::empty()) == 0,
        measured_length(a) == (if total_length(a) <= usize::MAX {
            total_length(a) as int
        } else {
            usize::MAX as int
        }),
    decreases b.len(),
{
    assert(seq![line].drop_last() == Seq::<String>::empty());
    assert(total_length(seq![line].drop_last()) == 0);
    assert(seq![line].last() == line);
    if b.len() == 0 {
        assert(a + b == a);
    } else {
        assert((a + b).drop_last() == a + b.drop_last());
        assert((a + b).last() == b.last());
        lines_measure_together(a, b.drop_last(), line);
    }
}

/// The number that decimal digits stand for.
pub open spec fn read_decimal(s: Seq<char>) -> int
    decreases s.len(),
{
    if s.len() == 0 {
        0
    } else {
        10 * read_decimal(s.drop_last()) + (s.last() as int - '0' as int)
    }
}

/// A number in decimal reads back as the number. It consists of digits, and begins with a zero only
/// where it is zero.
pub proof fn decimal_reads_back(n: nat)
    ensures
        read_decimal(decimal(n)) == n,
        decimal(n).len() >= 1,
        forall|i: int|
            0 <= i < decimal(n).len() ==> '0' as int <= (#[trigger] decimal(n)[i]) as int <= '9' as int,
        decimal(n)[0] == '0' ==> n == 0,
    decreases n,
{
    if n < 10 {
        let s = decimal(n);
        assert(s.drop_last() == Seq::<char>::empty());
        assert(read_decimal(s.drop_last()) == 0);
    } else {
        decimal_reads_back(n / 10);
        let head = decimal(n / 10);
        let s = decimal(n);
        assert(s.drop_last() == head);
        assert(s.last() == digit(n % 10));
        assert(s[0] == head[0]);
        assert forall|i: int| 0 <= i < s.len() implies '0' as int <= (#[trigger] s[i]) as int <= '9' as int by {
            if i < head.len() {
                assert(s[i] == head[i]);
            }
        }
    }
}

} // verus!
