//! Character-level text handling for the settings format: whitespace,
//! trimming, searching, line splitting and decimal numbers.
//!
//! Text is handled as a sequence of `char`s (the view of a `&str`), and a
//! piece of text under work is named by a half-open range `lo..hi` of
//! positions in a vector of characters.
use vstd::prelude::*;
use vstd::string::StringExecFns;

verus! {

// ---------------------------------------------------------------------------
// Specifications
// ---------------------------------------------------------------------------

/// The Unicode `White_Space` property, as `char::is_whitespace` tests it.
pub open spec fn is_ws(c: char) -> bool {
    let u = c as u32;
    ||| u == 0x20
    ||| 0x09 <= u <= 0x0d
    ||| u == 0x85
    ||| u == 0xa0
    ||| u == 0x1680
    ||| 0x2000 <= u <= 0x200a
    ||| u == 0x2028
    ||| u == 0x2029
    ||| u == 0x202f
    ||| u == 0x205f
    ||| u == 0x3000
}

/// `x` without its leading whitespace.
pub open spec fn trim_start(x: Seq<char>) -> Seq<char>
    decreases x.len(),
{
    if x.len() > 0 && is_ws(x[0]) {
        trim_start(x.drop_first())
    } else {
        x
    }
}

/// `x` without its trailing whitespace.
pub open spec fn trim_end(x: Seq<char>) -> Seq<char>
    decreases x.len(),
{
    if x.len() > 0 && is_ws(x.last()) {
        trim_end(x.drop_last())
    } else {
        x
    }
}

/// `x` without leading and trailing whitespace (`str::trim`).
pub open spec fn trim(x: Seq<char>) -> Seq<char> {
    trim_end(trim_start(x))
}

/// The position of the first `c` in `x`, or `x.len()` when `x` holds none.
pub open spec fn find_char(x: Seq<char>, c: char) -> nat
    decreases x.len(),
{
    if x.len() == 0 {
        0
    } else if x[0] == c {
        0
    } else {
        1 + find_char(x.drop_first(), c)
    }
}

/// A line as `str::lines` hands it out: a `'\r'` right before the line
/// feed that ended it is not part of it.
pub open spec fn strip_cr(line: Seq<char>) -> Seq<char> {
    if line.len() > 0 && line.last() == '\r' {
        line.drop_last()
    } else {
        line
    }
}

/// The lines of `s`, as `str::lines` yields them: text is cut at each
/// `'\n'`; a line ended by `"\r\n"` loses the `'\r'`; a final line feed
/// does not start another, empty, line.
pub open spec fn lines(s: Seq<char>) -> Seq<Seq<char>>
    decreases s.len(),
{
    if s.len() == 0 {
        Seq::empty()
    } else {
        let i = find_char(s, '\n');
        if i < s.len() {
            seq![strip_cr(s.take(i as int))] + lines(s.skip((i + 1) as int))
        } else {
            seq![s]
        }
    }
}

/// `c` is one of the ASCII digits `'0'..='9'`.
pub open spec fn is_digit(c: char) -> bool {
    48 <= (c as u32) <= 57
}

pub open spec fn all_digits(x: Seq<char>) -> bool {
    forall|i: int| 0 <= i < x.len() ==> is_digit(#[trigger] x[i])
}

/// The value of a digit character.
pub open spec fn digit_value(c: char) -> nat {
    ((c as u32) - 48) as nat
}

/// The number that the decimal digits `x` write (0 for no digits).
pub open spec fn digits_value(x: Seq<char>) -> nat
    decreases x.len(),
{
    if x.len() == 0 {
        0
    } else {
        digits_value(x.drop_last()) * 10 + digit_value(x.last())
    }
}

/// The character of the digit `d` (below 10).
pub open spec fn digit_char(d: nat) -> char {
    ((d + 48) as u32) as char
}

/// `n` written in decimal, without leading zeros (`"0"` for zero): what
/// `Display` prints for an unsigned integer.
pub open spec fn decimal(n: nat) -> Seq<char>
    decreases n,
{
    if n < 10 {
        seq![digit_char(n)]
    } else {
        decimal(n / 10).push(digit_char(n % 10))
    }
}

/// How `Display` prints a `bool`.
pub open spec fn bool_text(b: bool) -> Seq<char> {
    if b {
        "true"@
    } else {
        "false"@
    }
}

/// What `str::parse::<bool>` gives for `s`: only `"true"` and `"false"`
/// are accepted.
pub open spec fn parse_bool(s: Seq<char>) -> Option<bool> {
    if s == "true"@ {
        Some(true)
    } else if s == "false"@ {
        Some(false)
    } else {
        None
    }
}

// ---------------------------------------------------------------------------
// Lemmas
// ---------------------------------------------------------------------------

/// Leading whitespace before position `k` does not change `trim_start`.
pub proof fn lemma_trim_start_skip(x: Seq<char>, k: int)
    requires
        0 <= k <= x.len(),
        forall|i: int| 0 <= i < k ==> is_ws(#[trigger] x[i]),
    ensures
        trim_start(x) == trim_start(x.skip(k)),
    decreases k,
{
    if k > 0 {
        assert(x.drop_first().skip(k - 1) =~= x.skip(k));
        lemma_trim_start_skip(x.drop_first(), k - 1);
    } else {
        assert(x.skip(0) =~= x);
    }
}

/// Trailing whitespace from position `k` on does not change `trim_end`.
pub proof fn lemma_trim_end_take(x: Seq<char>, k: int)
    requires
        0 <= k <= x.len(),
        forall|i: int| k <= i < x.len() ==> is_ws(#[trigger] x[i]),
    ensures
        trim_end(x) == trim_end(x.take(k)),
    decreases x.len() - k,
{
    if k < x.len() {
        assert(x.drop_last().take(k) =~= x.take(k));
        lemma_trim_end_take(x.drop_last(), k);
    } else {
        assert(x.take(k) =~= x);
    }
}

/// Text that neither starts nor ends with whitespace is its own trim.
pub proof fn lemma_trim_unchanged(x: Seq<char>)
    requires
        x.len() > 0,
        !is_ws(x[0]),
        !is_ws(x.last()),
    ensures
        trim(x) == x,
{
}

/// An empty or all-whitespace text trims to nothing.
pub proof fn lemma_trim_start_all_ws(x: Seq<char>)
    requires
        forall|i: int| 0 <= i < x.len() ==> is_ws(#[trigger] x[i]),
    ensures
        trim_start(x).len() == 0,
{
    lemma_trim_start_skip(x, x.len() as int);
    assert(x.skip(x.len() as int).len() == 0);
}

/// Adding a character at the end of a text: its leading whitespace is
/// the same, unless the text is whitespace through and through.
pub proof fn lemma_trim_start_push(z: Seq<char>, c: char)
    ensures
        (forall|i: int| 0 <= i < z.len() ==> is_ws(#[trigger] z[i])) ==> trim_start(z.push(c))
            == trim_start(seq![c]),
        !(forall|i: int| 0 <= i < z.len() ==> is_ws(#[trigger] z[i])) ==> trim_start(z.push(c))
            == trim_start(z).push(c),
    decreases z.len(),
{
    if z.len() == 0 {
        assert(z.push(c) =~= seq![c]);
    } else if is_ws(z[0]) {
        assert(z.push(c).drop_first() =~= z.drop_first().push(c));
        lemma_trim_start_push(z.drop_first(), c);
        if forall|i: int| 0 <= i < z.drop_first().len() ==> is_ws(#[trigger] z.drop_first()[i]) {
            assert forall|i: int| 0 <= i < z.len() implies is_ws(#[trigger] z[i]) by {
                if i > 0 {
                    assert(z[i] == z.drop_first()[i - 1]);
                }
            }
        } else {
            let k = choose|i: int|
                0 <= i < z.drop_first().len() && !is_ws(#[trigger] z.drop_first()[i]);
            assert(!is_ws(z[k + 1]));
        }
    } else {
        assert(z.push(c)[0] == z[0]);
    }
}

/// A `'\r'` at the end of a line makes no difference once it is trimmed.
pub proof fn lemma_trim_strip_cr(x: Seq<char>)
    ensures
        trim(strip_cr(x)) == trim(x),
{
    if x.len() > 0 && x.last() == '\r' {
        let y = x.drop_last();
        assert(y.push('\r') =~= x);
        assert(is_ws('\r'));
        lemma_trim_start_push(y, '\r');
        if forall|i: int| 0 <= i < y.len() ==> is_ws(#[trigger] y[i]) {
            assert(seq!['\r'].drop_first() =~= Seq::<char>::empty());
            assert(trim_start(Seq::<char>::empty()) =~= Seq::<char>::empty());
            assert(seq!['\r'][0] == '\r');
            assert(trim_start(seq!['\r']) =~= Seq::<char>::empty());
            lemma_trim_start_all_ws(y);
            assert(trim_start(y) =~= Seq::<char>::empty());
        } else {
            let w = trim_start(y);
            assert(w.push('\r').drop_last() =~= w);
            assert(trim_end(w.push('\r')) == trim_end(w));
        }
    }
}

/// `find_char` finds the first `c`, or the end.
pub proof fn lemma_find_char(x: Seq<char>, c: char, k: int)
    requires
        0 <= k <= x.len(),
        forall|i: int| 0 <= i < k ==> #[trigger] x[i] != c,
        k == x.len() || x[k] == c,
    ensures
        find_char(x, c) == k,
    decreases k,
{
    if k > 0 {
        assert forall|i: int| 0 <= i < k - 1 implies #[trigger] x.drop_first()[i] != c by {
            assert(x.drop_first()[i] == x[i + 1]);
        }
        lemma_find_char(x.drop_first(), c, k - 1);
    }
}

/// The first line of a text that holds a line feed at `k` (and none
/// before it), and the lines after it.
pub proof fn lemma_lines_step(s: Seq<char>, k: int)
    requires
        0 <= k < s.len(),
        s[k] == '\n',
        forall|i: int| 0 <= i < k ==> #[trigger] s[i] != '\n',
    ensures
        lines(s) == seq![strip_cr(s.take(k))] + lines(s.skip(k + 1)),
{
    lemma_find_char(s, '\n', k);
}

/// A text without line feeds is one line.
pub proof fn lemma_lines_last(s: Seq<char>)
    requires
        s.len() > 0,
        forall|i: int| 0 <= i < s.len() ==> #[trigger] s[i] != '\n',
    ensures
        lines(s) == seq![s],
{
    lemma_find_char(s, '\n', s.len() as int);
}

/// `decimal(n)` is a nonempty run of digits that reads back as `n`.
pub proof fn lemma_decimal(n: nat)
    ensures
        decimal(n).len() > 0,
        all_digits(decimal(n)),
        digits_value(decimal(n)) == n,
    decreases n,
{
    if n < 10 {
        let d = decimal(n);
        assert(d.drop_last() =~= Seq::<char>::empty());
        assert(digits_value(d.drop_last()) == 0);
        assert(d.last() == digit_char(n));
        assert(digit_value(digit_char(n)) == n);
        assert(digits_value(d) == n);
    } else {
        lemma_decimal(n / 10);
        let d = decimal(n);
        assert(d.drop_last() =~= decimal(n / 10));
        assert(d.last() == digit_char(n % 10));
        assert(digit_value(digit_char(n % 10)) == n % 10);
        assert((n / 10) * 10 + n % 10 == n) by (nonlinear_arith);
        assert(digits_value(d) == digits_value(decimal(n / 10)) * 10 + digit_value(d.last()));
        assert(digits_value(d) == n);
        assert forall|i: int| 0 <= i < d.len() implies is_digit(#[trigger] d[i]) by {
            if i < d.len() - 1 {
                assert(d[i] == decimal(n / 10)[i]);
            }
        }
    }
}

/// `find_char` never goes beyond the end.
pub proof fn lemma_find_char_bound(x: Seq<char>, c: char)
    ensures
        find_char(x, c) <= x.len(),
    decreases x.len(),
{
    if x.len() > 0 && x[0] != c {
        lemma_find_char_bound(x.drop_first(), c);
    }
}

/// Where `find_char` stops short of the end, `c` stands there.
pub proof fn lemma_find_char_at(x: Seq<char>, c: char)
    requires
        find_char(x, c) < x.len(),
    ensures
        x[find_char(x, c) as int] == c,
    decreases x.len(),
{
    if x.len() > 0 && x[0] != c {
        lemma_find_char_at(x.drop_first(), c);
        assert(x[find_char(x, c) as int] == x.drop_first()[find_char(x.drop_first(), c) as int]);
    }
}

/// No `c` stands before what `find_char` finds.
pub proof fn lemma_find_char_before(x: Seq<char>, c: char, i: int)
    requires
        0 <= i < find_char(x, c),
    ensures
        x[i] != c,
    decreases x.len(),
{
    if x.len() == 0 {
        assert(find_char(x, c) == 0);
    } else if x[0] == c {
        assert(find_char(x, c) == 0);
    }
    lemma_find_char_bound(x, c);
    if i > 0 {
        lemma_find_char_before(x.drop_first(), c, i - 1);
        assert(x.drop_first()[i - 1] == x[i]);
    }
}

// ---------------------------------------------------------------------------
// Executable text handling
// ---------------------------------------------------------------------------

/// The characters of `s`, in order, as a vector.
pub fn chars_of(s: &str) -> (v: Vec<char>)
    ensures
        v@ == s@,
{
    let mut v: Vec<char> = Vec::new();
    for c in it: s.chars()
        invariant
            v@ == it.seq().take(it.index()),
    {
        v.push(c);
    }
    v
}

/// Whether `c` is whitespace (`char::is_whitespace`).
pub fn is_whitespace(c: char) -> (b: bool)
    ensures
        b == is_ws(c),
{
    let u = c as u32;
    u == 0x20 || (0x09 <= u && u <= 0x0d) || u == 0x85 || u == 0xa0 || u == 0x1680 || (0x2000 <= u
        && u <= 0x200a) || u == 0x2028 || u == 0x2029 || u == 0x202f || u == 0x205f || u == 0x3000
}

/// The bounds of the trimmed text of `cs[lo..hi]`.
pub fn trim_range(cs: &Vec<char>, lo: usize, hi: usize) -> (r: (usize, usize))
    requires
        lo <= hi <= cs@.len(),
    ensures
        lo <= r.0 <= r.1 <= hi,
        cs@.subrange(r.0 as int, r.1 as int) == trim(cs@.subrange(lo as int, hi as int)),
{
    let ghost x = cs@.subrange(lo as int, hi as int);
    let mut a = lo;
    while a < hi && is_whitespace(cs[a])
        invariant
            lo <= a <= hi <= cs@.len(),
            x == cs@.subrange(lo as int, hi as int),
            forall|i: int| lo <= i < a ==> is_ws(#[trigger] cs@[i]),
        decreases hi - a,
    {
        a = a + 1;
    }
    proof {
        assert forall|i: int| 0 <= i < a - lo implies is_ws(#[trigger] x[i]) by {
            assert(x[i] == cs@[lo + i]);
        }
        lemma_trim_start_skip(x, a - lo);
        assert(x.skip(a - lo) =~= cs@.subrange(a as int, hi as int));
    }
    let ghost y = cs@.subrange(a as int, hi as int);
    assert(trim_start(x) == y);
    let mut b = hi;
    while b > a && is_whitespace(cs[b - 1])
        invariant
            lo <= a <= b <= hi <= cs@.len(),
            y == cs@.subrange(a as int, hi as int),
            forall|i: int| b <= i < hi ==> is_ws(#[trigger] cs@[i]),
        decreases b - a,
    {
        b = b - 1;
    }
    proof {
        assert forall|i: int| b - a <= i < y.len() implies is_ws(#[trigger] y[i]) by {
            assert(y[i] == cs@[a + i]);
        }
        lemma_trim_end_take(y, b - a);
        assert(y.take(b - a) =~= cs@.subrange(a as int, b as int));
    }
    (a, b)
}

/// The position of the first `c` in `cs[lo..hi]`, or `hi`.
pub fn find_in(cs: &Vec<char>, lo: usize, hi: usize, c: char) -> (r: usize)
    requires
        lo <= hi <= cs@.len(),
    ensures
        lo <= r <= hi,
        r - lo == find_char(cs@.subrange(lo as int, hi as int), c),
{
    let ghost x = cs@.subrange(lo as int, hi as int);
    let mut k = lo;
    while k < hi && cs[k] != c
        invariant
            lo <= k <= hi <= cs@.len(),
            x == cs@.subrange(lo as int, hi as int),
            forall|i: int| lo <= i < k ==> #[trigger] cs@[i] != c,
        decreases hi - k,
    {
        k = k + 1;
    }
    proof {
        assert forall|i: int| 0 <= i < k - lo implies #[trigger] x[i] != c by {
            assert(x[i] == cs@[lo + i]);
        }
        lemma_find_char(x, c, k - lo);
    }
    k
}

/// Whether `cs[lo..hi]` is the text `word`.
pub fn range_equals(cs: &Vec<char>, lo: usize, hi: usize, word: &Vec<char>) -> (b: bool)
    requires
        lo <= hi <= cs@.len(),
    ensures
        b == (cs@.subrange(lo as int, hi as int) == word@),
{
    let ghost x = cs@.subrange(lo as int, hi as int);
    if hi - lo != word.len() {
        assert(x.len() != word@.len());
        return false;
    }
    let mut k: usize = 0;
    while k < word.len()
        invariant
            lo <= hi <= cs@.len(),
            hi - lo == word@.len(),
            x == cs@.subrange(lo as int, hi as int),
            0 <= k <= word@.len(),
            forall|i: int| 0 <= i < k ==> x[i] == word@[i],
        decreases word@.len() - k,
    {
        if cs[lo + k] != word[k] {
            assert(x[k as int] != word@[k as int]);
            return false;
        }
        k = k + 1;
    }
    assert(x =~= word@);
    true
}

/// What `str::parse::<bool>` gives for `cs[lo..hi]`.
pub fn parse_bool_range(cs: &Vec<char>, lo: usize, hi: usize) -> (r: Option<bool>)
    requires
        lo <= hi <= cs@.len(),
    ensures
        r == parse_bool(cs@.subrange(lo as int, hi as int)),
{
    let true_word = chars_of("true");
    let false_word = chars_of("false");
    if range_equals(cs, lo, hi, &true_word) {
        Some(true)
    } else if range_equals(cs, lo, hi, &false_word) {
        Some(false)
    } else {
        None
    }
}

/// Appends the digit `d` to `out`.
fn push_digit(out: &mut String, d: u64)
    requires
        d < 10,
    ensures
        final(out)@ == old(out)@.push(digit_char(d as nat)),
{
    proof {
        reveal_strlit("0");
        reveal_strlit("1");
        reveal_strlit("2");
        reveal_strlit("3");
        reveal_strlit("4");
        reveal_strlit("5");
        reveal_strlit("6");
        reveal_strlit("7");
        reveal_strlit("8");
        reveal_strlit("9");
    }
    let text = match d {
        0 => "0",
        1 => "1",
        2 => "2",
        3 => "3",
        4 => "4",
        5 => "5",
        6 => "6",
        7 => "7",
        8 => "8",
        _ => "9",
    };
    assert(text@ =~= seq![digit_char(d as nat)]);
    out.append(text);
}

/// Appends `n` in decimal to `out`.
pub fn push_decimal(out: &mut String, n: u64)
    ensures
        final(out)@ == old(out)@ + decimal(n as nat),
    decreases n,
{
    if n >= 10 {
        push_decimal(out, n / 10);
    }
    push_digit(out, n % 10);
    proof {
        if n >= 10 {
            assert(decimal(n as nat) == decimal((n / 10) as nat).push(digit_char((n % 10) as nat)));
        }
    }
}

} // verus!
