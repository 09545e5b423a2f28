use vstd::prelude::*;

verus! {

// ---------------------------------------------------------------------------
// Character classes
// ---------------------------------------------------------------------------

/// Unicode `White_Space`, the class that `char::is_whitespace` and `str::trim` use.
pub open spec fn is_white(c: char) -> bool {
    let u = c as u32;
    ||| 0x09 <= u <= 0x0D
    ||| u == 0x20
    ||| u == 0x85
    ||| u == 0xA0
    ||| u == 0x1680
    ||| 0x2000 <= u <= 0x200A
    ||| u == 0x2028
    ||| u == 0x2029
    ||| u == 0x202F
    ||| u == 0x205F
    ||| u == 0x3000
}

/// ASCII letter or digit.
pub open spec fn is_ascii_alnum(c: char) -> bool {
    let u = c as u32;
    ||| 0x30 <= u <= 0x39
    ||| 0x41 <= u <= 0x5A
    ||| 0x61 <= u <= 0x7A
}

/// Whether `c` is a Unicode white-space character.
pub fn is_whitespace(c: char) -> (b: bool)
    ensures
        b == is_white(c),
{
    let u = c as u32;
    (0x09 <= u && u <= 0x0D) || u == 0x20 || u == 0x85 || u == 0xA0 || u == 0x1680 || (0x2000
        <= u && u <= 0x200A) || u == 0x2028 || u == 0x2029 || u == 0x202F || u == 0x205F || u
        == 0x3000
}

/// Whether `c` is an ASCII letter or digit.
pub fn is_ascii_alphanumeric(c: char) -> (b: bool)
    ensures
        b == is_ascii_alnum(c),
{
    let u = c as u32;
    (0x30 <= u && u <= 0x39) || (0x41 <= u && u <= 0x5A) || (0x61 <= u && u <= 0x7A)
}

// ---------------------------------------------------------------------------
// Trimming
// ---------------------------------------------------------------------------

/// `s` without its leading white space.
pub open spec fn trim_start(s: Seq<char>) -> Seq<char>
    decreases s.len(),
{
    if s.len() > 0 && is_white(s[0]) {
        trim_start(s.drop_first())
    } else {
        s
    }
}

/// `s` without its trailing white space.
pub open spec fn trim_end(s: Seq<char>) -> Seq<char>
    decreases s.len(),
{
    if s.len() > 0 && is_white(s.last()) {
        trim_end(s.drop_last())
    } else {
        s
    }
}

/// `s` without leading and trailing white space (`str::trim`).
pub open spec fn trim(s: Seq<char>) -> Seq<char> {
    trim_end(trim_start(s))
}

/// A text that holds nothing but white space.
pub open spec fn is_blank(s: Seq<char>) -> bool {
    trim(s).len() == 0
}

pub open spec fn starts_with(s: Seq<char>, p: Seq<char>) -> bool {
    p.len() <= s.len() && s.subrange(0, p.len() as int) == p
}

pub open spec fn ends_with(s: Seq<char>, p: Seq<char>) -> bool {
    p.len() <= s.len() && s.subrange(s.len() - p.len(), s.len() as int) == p
}

proof fn lemma_trim_start_is_suffix(s: Seq<char>)
    ensures
        trim_start(s).len() <= s.len(),
        trim_start(s) == s.subrange(s.len() - trim_start(s).len(), s.len() as int),
        trim_start(s).len() > 0 ==> !is_white(trim_start(s)[0]),
        forall|i: int| 0 <= i < s.len() - trim_start(s).len() ==> is_white(#[trigger] s[i]),
    decreases s.len(),
{
    if s.len() > 0 && is_white(s[0]) {
        lemma_trim_start_is_suffix(s.drop_first());
        assert forall|i: int| 0 <= i < s.len() - trim_start(s).len() implies is_white(
            #[trigger] s[i],
        ) by {
            if i > 0 {
                assert(s[i] == s.drop_first()[i - 1]);
            }
        }
    } else {
        assert(s.subrange(0, s.len() as int) =~= s);
    }
}

proof fn lemma_trim_end_is_prefix(s: Seq<char>)
    ensures
        trim_end(s).len() <= s.len(),
        trim_end(s) == s.subrange(0, trim_end(s).len() as int),
        trim_end(s).len() > 0 ==> !is_white(trim_end(s).last()),
        forall|i: int| trim_end(s).len() <= i < s.len() ==> is_white(#[trigger] s[i]),
    decreases s.len(),
{
    if s.len() > 0 && is_white(s.last()) {
        lemma_trim_end_is_prefix(s.drop_last());
        assert forall|i: int| trim_end(s).len() <= i < s.len() implies is_white(#[trigger] s[i]) by {
            if i < s.len() - 1 {
                assert(s[i] == s.drop_last()[i]);
            }
        }
    } else {
        assert(s.subrange(0, s.len() as int) =~= s);
    }
}

/// Characterises `trim` by the positions it keeps.
pub proof fn lemma_trim_bounds(s: Seq<char>) -> (r: (int, int))
    ensures
        0 <= r.0 <= r.1 <= s.len(),
        trim(s) == s.subrange(r.0, r.1),
        forall|i: int| 0 <= i < r.0 ==> is_white(#[trigger] s[i]),
        forall|i: int| r.1 <= i < s.len() ==> is_white(#[trigger] s[i]),
        r.0 < r.1 ==> !is_white(s[r.0]) && !is_white(s[r.1 - 1]),
{
    lemma_trim_start_is_suffix(s);
    let t = trim_start(s);
    lemma_trim_end_is_prefix(t);
    let a = s.len() - t.len();
    let b = a + trim_end(t).len();
    assert(trim(s) =~= s.subrange(a, b));
    assert forall|i: int| b <= i < s.len() implies is_white(#[trigger] s[i]) by {
        assert(s[i] == t[i - a]);
    }
    if a < b {
        assert(s[a] == t[0]);
        assert(trim_end(t)[0] == t[0]);
        assert(s[b - 1] == trim_end(t).last());
    }
    (a, b)
}

/// Positions `[start, end)` of `v` that `trim` keeps.
pub fn trim_range(v: &Vec<char>) -> (r: (usize, usize))
    ensures
        r.0 <= r.1 <= v.len(),
        trim(v@) == v@.subrange(r.0 as int, r.1 as int),
{
    let ghost g = lemma_trim_bounds(v@);
    let n = v.len();
    let mut start: usize = 0;
    while start < n && is_whitespace(v[start])
        invariant
            n == v.len(),
            0 <= start <= n,
            forall|i: int| 0 <= i < start ==> is_white(#[trigger] v@[i]),
        decreases n - start,
    {
        start = start + 1;
    }
    proof {
        if start < g.0 {
            assert(is_white(v@[start as int]));
        }
        if g.0 < g.1 && start > g.0 {
            assert(is_white(v@[g.0]));
        }
        if g.0 == g.1 && start < n {
            if (start as int) < g.0 {
                assert(is_white(v@[start as int]));
            } else {
                assert(is_white(v@[start as int]));
            }
        }
    }
    let mut end: usize = n;
    while end > start && is_whitespace(v[end - 1])
        invariant
            n == v.len(),
            start <= end <= n,
            g.1 <= end || g.0 == g.1,
            g.0 <= start,
            g.0 == g.1 ==> start == n,
            g.0 < g.1 ==> start == g.0 && !is_white(v@[g.1 - 1]),
            trim(v@) == v@.subrange(g.0, g.1),
        decreases end,
    {
        end = end - 1;
    }
    proof {
        if g.0 < g.1 && end > g.1 {
            assert(is_white(v@[end - 1]));
            assert(false);
        }
        if g.0 == g.1 {
            assert(v@.subrange(start as int, end as int) =~= Seq::<char>::empty());
        }
    }
    (start, end)
}

/// Trimming twice changes nothing more.
pub proof fn lemma_trim_idempotent(s: Seq<char>)
    ensures
        trim(trim(s)) == trim(s),
{
    let t = trim(s);
    let r = lemma_trim_bounds(s);
    if t.len() > 0 {
        assert(t[0] == s[r.0]);
        assert(t.last() == s[r.1 - 1]);
        assert(trim_start(t) == t);
        assert(trim_end(t) == t);
    } else {
        assert(trim_start(t) == t);
        assert(trim_end(t) == t);
    }
}

// ---------------------------------------------------------------------------
// Counting
// ---------------------------------------------------------------------------

/// Number of characters of `s` that are not white space.
pub open spec fn count_non_white(s: Seq<char>) -> nat
    decreases s.len(),
{
    if s.len() == 0 {
        0
    } else {
        count_non_white(s.drop_last()) + if is_white(s.last()) {
            0nat
        } else {
            1nat
        }
    }
}

proof fn lemma_count_non_white_bound(s: Seq<char>)
    ensures
        count_non_white(s) <= s.len(),
    decreases s.len(),
{
    if s.len() > 0 {
        lemma_count_non_white_bound(s.drop_last());
    }
}

/// Counts the characters of `text` that are not white space.
pub fn count_text_chars(text: &str) -> (n: usize)
    ensures
        n == count_non_white(text@),
{
    let v = chars_of(text);
    let mut n: usize = 0;
    let mut i: usize = 0;
    while i < v.len()
        invariant
            i <= v.len(),
            n == count_non_white(v@.take(i as int)),
            n <= i,
        decreases v.len() - i,
    {
        assert(v@.take(i + 1).drop_last() =~= v@.take(i as int));
        if !is_whitespace(v[i]) {
            n = n + 1;
        }
        i = i + 1;
    }
    assert(v@.take(v.len() as int) =~= v@);
    n
}

// ---------------------------------------------------------------------------
// Decimal numbers
// ---------------------------------------------------------------------------

/// The ASCII digit for `d` (`0 <= d < 10`).
pub open spec fn digit_char(d: nat) -> char {
    ((48 + d) as u32) as char
}

/// Decimal representation of `n`, without sign or leading zeros.
pub open spec fn decimal(n: nat) -> Seq<char>
    decreases n,
{
    if n < 10 {
        seq![digit_char(n)]
    } else {
        decimal(n / 10).push(digit_char(n % 10))
    }
}

/// Decimal representation of `n`, padded with zeros to at least two digits (`{:02}`).
pub open spec fn decimal_two(n: nat) -> Seq<char> {
    if n < 10 {
        seq!['0'] + decimal(n)
    } else {
        decimal(n)
    }
}

fn digit(d: u64) -> (c: char)
    requires
        d < 10,
    ensures
        c == digit_char(d as nat),
{
    if d == 0 {
        '0'
    } else if d == 1 {
        '1'
    } else if d == 2 {
        '2'
    } else if d == 3 {
        '3'
    } else if d == 4 {
        '4'
    } else if d == 5 {
        '5'
    } else if d == 6 {
        '6'
    } else if d == 7 {
        '7'
    } else if d == 8 {
        '8'
    } else {
        '9'
    }
}

/// Appends the decimal representation of `n` to `s` (what `{}` prints for an unsigned integer).
pub fn push_decimal(s: &mut String, n: u64)
    ensures
        final(s)@ == old(s)@ + decimal(n as nat),
{
    let mut m = n;
    let mut tail: Vec<char> = Vec::new();
    while m >= 10
        invariant
            decimal(n as nat) == decimal(m as nat) + tail@,
        decreases m,
    {
        let d = digit(m % 10);
        assert(decimal(m as nat) == decimal((m / 10) as nat).push(d));
        let ghost before = tail@;
        tail.insert(0, d);
        assert(tail@ =~= seq![d] + before);
        assert(decimal((m / 10) as nat).push(d) + before =~= decimal((m / 10) as nat) + tail@);
        m = m / 10;
    }
    let first = digit(m);
    push_char(s, first);
    push_chars(s, &tail, 0, tail.len());
    assert(tail@.subrange(0, tail@.len() as int) =~= tail@);
    assert(decimal(m as nat) =~= seq![first]);
}

/// Appends `n` padded with zeros to two digits (`{:02}`).
pub fn push_decimal_two(s: &mut String, n: u64)
    ensures
        final(s)@ == old(s)@ + decimal_two(n as nat),
{
    if n < 10 {
        push_char(s, '0');
    }
    push_decimal(s, n);
    assert(s@ =~= old(s)@ + decimal_two(n as nat));
}

/// Formats a duration in milliseconds as `MM:SS` (minutes are not capped).
pub fn format_duration_for_log(ms: u64) -> (r: String)
    ensures
        r@ == decimal_two((ms / 1000 / 60) as nat) + seq![':'] + decimal_two((ms / 1000 % 60) as nat),
{
    let total_seconds = ms / 1000;
    let minutes = total_seconds / 60;
    let seconds = total_seconds % 60;
    let mut r = String::new();
    push_decimal_two(&mut r, minutes);
    push_char(&mut r, ':');
    push_decimal_two(&mut r, seconds);
    assert(r@ =~= decimal_two(minutes as nat) + seq![':'] + decimal_two(seconds as nat));
    r
}

/// An ASCII decimal digit.
pub open spec fn is_digit(c: char) -> bool {
    48 <= (c as u32) <= 57
}

/// Value of a run of ASCII digits.
pub open spec fn digits_value(s: Seq<char>) -> nat
    decreases s.len(),
{
    if s.len() == 0 {
        0
    } else {
        digits_value(s.drop_last()) * 10 + ((s.last() as u32) - 48) as nat
    }
}

/// The digits that an unsigned integer parse reads: one optional leading `+` is skipped.
pub open spec fn unsigned_digits(s: Seq<char>) -> Seq<char> {
    if s.len() > 0 && s[0] == '+' {
        s.drop_first()
    } else {
        s
    }
}

/// Whether `s` has the shape that `u64::from_str` accepts (before the range check).
pub open spec fn is_unsigned_text(s: Seq<char>) -> bool {
    let d = unsigned_digits(s);
    d.len() > 0 && forall|i: int| 0 <= i < d.len() ==> is_digit(#[trigger] d[i])
}

/// What `str::parse::<u64>` gives: the value when `s` is an unsigned decimal that fits.
pub open spec fn parsed_u64(s: Seq<char>) -> Option<u64> {
    if is_unsigned_text(s) && digits_value(unsigned_digits(s)) <= u64::MAX {
        Some(digits_value(unsigned_digits(s)) as u64)
    } else {
        None
    }
}

/// Parses an unsigned decimal integer as `str::parse::<u64>` does.
pub fn parse_u64(s: &str) -> (r: Option<u64>)
    ensures
        r == parsed_u64(s@),
{
    let v = chars_of(s);
    let start: usize = if v.len() > 0 && v[0] == '+' {
        1
    } else {
        0
    };
    let ghost d = unsigned_digits(v@);
    assert(d =~= v@.subrange(start as int, v@.len() as int));
    if start >= v.len() {
        return None;
    }
    let mut acc: u64 = 0;
    let mut overflow = false;
    let mut i = start;
    while i < v.len()
        invariant
            start <= i <= v.len(),
            d == v@.subrange(start as int, v@.len() as int),
            d == unsigned_digits(v@),
            v@ == s@,
            forall|j: int| 0 <= j < i - start ==> is_digit(#[trigger] d[j]),
            overflow ==> digits_value(d.take(i - start)) > u64::MAX,
            !overflow ==> acc == digits_value(d.take(i - start)),
        decreases v.len() - i,
    {
        let c = v[i];
        let u = c as u32;
        if u < 48 || u > 57 {
            proof {
                let k = i - start;
                assert(d[k] == c);
                assert(!is_digit(d[k]));
                assert(!is_unsigned_text(v@));
            }
            return None;
        }
        assert(d.take(i + 1 - start).drop_last() =~= d.take(i - start));
        assert(d.take(i + 1 - start).last() == c);
        if !overflow {
            let dv = (u - 48) as u64;
            if acc > (u64::MAX - dv) / 10 {
                overflow = true;
            } else {
                acc = acc * 10 + dv;
            }
        }
        i = i + 1;
    }
    assert(d.take(d.len() as int) =~= d);
    if overflow {
        None
    } else {
        Some(acc)
    }
}

// ---------------------------------------------------------------------------
// Building strings
// ---------------------------------------------------------------------------

/// Appends one character to a string (std's `String::push`).
#[verifier::external_body]
pub(crate) fn push_char(s: &mut String, c: char)
    ensures
        final(s)@ == old(s)@.push(c),
{
    s.push(c)
}

/// The characters of a string slice, in order.
pub fn chars_of(s: &str) -> (v: Vec<char>)
    ensures
        v@ == s@,
{
    let mut v: Vec<char> = Vec::new();
    for c in it: s.chars()
        invariant
            v@ == it.seq().take(it.index() as int),
    {
        v.push(c);
    }
    v
}

/// Appends `v[from..to]` to `s`.
pub fn push_chars(s: &mut String, v: &Vec<char>, from: usize, to: usize)
    requires
        from <= to <= v.len(),
    ensures
        final(s)@ == old(s)@ + v@.subrange(from as int, to as int),
{
    let mut i = from;
    while i < to
        invariant
            from <= i <= to <= v.len(),
            s@ == old(s)@ + v@.subrange(from as int, i as int),
        decreases to - i,
    {
        push_char(s, v[i]);
        assert(v@.subrange(from as int, i + 1) =~= v@.subrange(from as int, i as int).push(v@[i as int]));
        i = i + 1;
    }
}

/// A string holding `v[from..to]`.
pub fn string_of(v: &Vec<char>, from: usize, to: usize) -> (s: String)
    requires
        from <= to <= v.len(),
    ensures
        s@ == v@.subrange(from as int, to as int),
{
    let mut s = String::new();
    push_chars(&mut s, v, from, to);
    assert(s@ =~= v@.subrange(from as int, to as int));
    s
}

/// Appends a string slice to a string.
pub fn push_text(s: &mut String, t: &str)
    ensures
        final(s)@ == old(s)@ + t@,
{
    let v = chars_of(t);
    push_chars(s, &v, 0, v.len());
    assert(v@.subrange(0, v@.len() as int) =~= v@);
}

/// An owned copy of a string slice.
pub fn owned(t: &str) -> (s: String)
    ensures
        s@ == t@,
{
    t.to_owned()
}

/// `s` trimmed of white space at both ends (`str::trim`).
pub fn trimmed(s: &str) -> (r: String)
    ensures
        r@ == trim(s@),
{
    let v = chars_of(s);
    let (a, b) = trim_range(&v);
    string_of(&v, a, b)
}

/// Whether `s` holds nothing but white space.
pub fn blank(s: &str) -> (b: bool)
    ensures
        b == is_blank(s@),
{
    let v = chars_of(s);
    let (a, b) = trim_range(&v);
    a == b
}

/// Whether `v[from..]` starts with `p`.
fn seq_has_at(v: &Vec<char>, from: usize, p: &Vec<char>) -> (b: bool)
    requires
        from + p.len() <= v.len(),
    ensures
        b == (v@.subrange(from as int, from + p.len()) == p@),
{
    let mut i: usize = 0;
    while i < p.len()
        invariant
            from + p.len() <= v.len(),
            i <= p.len(),
            forall|j: int| 0 <= j < i ==> v@[from + j] == p@[j],
        decreases p.len() - i,
    {
        if v[from + i] != p[i] {
            assert(v@.subrange(from as int, from + p.len())[i as int] != p@[i as int]);
            return false;
        }
        i = i + 1;
    }
    assert(v@.subrange(from as int, from + p.len()) =~= p@);
    true
}

/// Whether two texts are equal.
pub fn same_text(a: &str, b: &str) -> (r: bool)
    ensures
        r == (a@ == b@),
{
    let x = chars_of(a);
    let y = chars_of(b);
    if x.len() != y.len() {
        return false;
    }
    assert(x@.subrange(0, x@.len() as int) =~= x@);
    seq_has_at(&x, 0, &y)
}

/// `str::starts_with` on character vectors.
pub fn vec_starts_with(v: &Vec<char>, p: &Vec<char>) -> (b: bool)
    ensures
        b == starts_with(v@, p@),
{
    if p.len() > v.len() {
        return false;
    }
    seq_has_at(v, 0, p)
}

/// `str::ends_with` on character vectors.
pub fn vec_ends_with(v: &Vec<char>, p: &Vec<char>) -> (b: bool)
    ensures
        b == ends_with(v@, p@),
{
    if p.len() > v.len() {
        return false;
    }
    seq_has_at(v, v.len() - p.len(), p)
}

/// `p` occurs in `s` at position `i`.
pub open spec fn occurs_at(s: Seq<char>, p: Seq<char>, i: int) -> bool {
    0 <= i && i + p.len() <= s.len() && s.subrange(i, i + p.len()) == p
}

/// `p` occurs somewhere in `s`.
pub open spec fn contains_text(s: Seq<char>, p: Seq<char>) -> bool {
    exists|i: int| #[trigger] occurs_at(s, p, i)
}

/// `str::contains` for a text pattern.
pub fn text_contains(s: &str, p: &str) -> (b: bool)
    ensures
        b == contains_text(s@, p@),
{
    let v = chars_of(s);
    let q = chars_of(p);
    if q.len() > v.len() {
        return false;
    }
    let last = v.len() - q.len();
    let mut i: usize = 0;
    loop
        invariant
            v@ == s@,
            q@ == p@,
            q.len() <= v.len(),
            last == v.len() - q.len(),
            i <= last,
            forall|j: int| 0 <= j < i ==> !#[trigger] occurs_at(v@, q@, j),
        decreases last - i,
    {
        if seq_has_at(&v, i, &q) {
            assert(occurs_at(v@, q@, i as int));
            return true;
        }
        if i == last {
            return false;
        }
        i = i + 1;
    }
}

} // verus!

verus! {

// ---------------------------------------------------------------------------
// Order of texts
// ---------------------------------------------------------------------------

/// `a` sorts before `b`: lexicographic order by code point, which for valid UTF-8 is the
/// byte order that `str`'s `Ord` uses.
pub open spec fn text_lt(a: Seq<char>, b: Seq<char>) -> bool
    decreases a.len(),
{
    if a.len() == 0 {
        b.len() > 0
    } else if b.len() == 0 {
        false
    } else if (a[0] as u32) < (b[0] as u32) {
        true
    } else if (a[0] as u32) > (b[0] as u32) {
        false
    } else {
        text_lt(a.drop_first(), b.drop_first())
    }
}

/// `a` sorts before `b` or together with it.
pub open spec fn text_le(a: Seq<char>, b: Seq<char>) -> bool {
    !text_lt(b, a)
}

/// The text order is asymmetric.
pub proof fn lemma_text_lt_asym(a: Seq<char>, b: Seq<char>)
    ensures
        text_lt(a, b) ==> !text_lt(b, a),
    decreases a.len(),
{
    if a.len() > 0 && b.len() > 0 && (a[0] as u32) == (b[0] as u32) {
        lemma_text_lt_asym(a.drop_first(), b.drop_first());
    }
}

/// A text at or before one that sorts before a third sorts before the third.
pub proof fn lemma_text_le_lt_trans(a: Seq<char>, b: Seq<char>, c: Seq<char>)
    ensures
        text_le(a, b) && text_lt(b, c) ==> text_lt(a, c),
    decreases a.len(),
{
    if a.len() > 0 && b.len() > 0 && c.len() > 0 {
        lemma_text_le_lt_trans(a.drop_first(), b.drop_first(), c.drop_first());
    }
}

/// Texts that neither sorts before the other are equal.
pub proof fn lemma_text_equivalent_equal(a: Seq<char>, b: Seq<char>)
    requires
        !text_lt(a, b),
        !text_lt(b, a),
    ensures
        a == b,
    decreases a.len(),
{
    if a.len() > 0 && b.len() > 0 {
        lemma_text_equivalent_equal(a.drop_first(), b.drop_first());
        let x = a[0] as u32;
        vstd::utf8::char_u32_cast(a[0], x);
        vstd::utf8::char_u32_cast(b[0], x);
        assert(a =~= seq![a[0]] + a.drop_first());
        assert(b =~= seq![b[0]] + b.drop_first());
    } else {
        assert(a.len() == 0 && b.len() == 0);
        assert(a =~= b);
    }
}

/// Whether `a` sorts strictly before `b`.
pub fn text_precedes(a: &Vec<char>, b: &Vec<char>) -> (r: bool)
    ensures
        r == text_lt(a@, b@),
{
    let mut i: usize = 0;
    assert(a@.skip(0) =~= a@);
    assert(b@.skip(0) =~= b@);
    while i < a.len() && i < b.len()
        invariant
            i <= a.len(),
            i <= b.len(),
            forall|j: int| 0 <= j < i ==> (a@[j] as u32) == (b@[j] as u32),
            text_lt(a@, b@) == text_lt(a@.skip(i as int), b@.skip(i as int)),
        decreases a.len() - i,
    {
        let x = a[i] as u32;
        let y = b[i] as u32;
        assert(a@.skip(i as int)[0] == a@[i as int]);
        assert(b@.skip(i as int)[0] == b@[i as int]);
        if x < y {
            return true;
        }
        if x > y {
            return false;
        }
        assert(a@.skip(i as int).drop_first() =~= a@.skip(i + 1));
        assert(b@.skip(i as int).drop_first() =~= b@.skip(i + 1));
        i = i + 1;
    }
    i < b.len()
}

// ---------------------------------------------------------------------------
// Realtime transcript text
// ---------------------------------------------------------------------------

/// `target` after appending `fragment`: the fragment is trimmed; nothing happens when it is
/// blank or `target` already ends with it; a space separates two ASCII letters or digits.
pub open spec fn appended(target: Seq<char>, fragment: Seq<char>) -> Seq<char> {
    let f = trim(fragment);
    if f.len() == 0 || ends_with(target, f) {
        target
    } else if target.len() > 0 && is_ascii_alnum(target.last()) && is_ascii_alnum(f[0]) {
        target.push(' ') + f
    } else {
        target + f
    }
}

/// Appends a transcript fragment to `target`.
pub fn append_text_fragment(target: &mut String, fragment: &str)
    ensures
        final(target)@ == appended(old(target)@, fragment@),
{
    let f = chars_of(fragment);
    let (a, b) = trim_range(&f);
    if a == b {
        return;
    }
    let frag = slice_vec(&f, a, b);
    let t = chars_of(target.as_str());
    if vec_ends_with(&t, &frag) {
        return;
    }
    if t.len() > 0 && is_ascii_alphanumeric(t[t.len() - 1]) && is_ascii_alphanumeric(frag[0]) {
        push_char(target, ' ');
    }
    push_chars(target, &frag, 0, frag.len());
    assert(frag@.subrange(0, frag@.len() as int) =~= frag@);
}

/// A copy of `v[from..to]`.
pub fn slice_vec(v: &Vec<char>, from: usize, to: usize) -> (r: Vec<char>)
    requires
        from <= to <= v.len(),
    ensures
        r@ == v@.subrange(from as int, to as int),
{
    let mut r: Vec<char> = Vec::new();
    let mut i = from;
    while i < to
        invariant
            from <= i <= to <= v.len(),
            r@ == v@.subrange(from as int, i as int),
        decreases to - i,
    {
        r.push(v[i]);
        assert(v@.subrange(from as int, i + 1) =~= v@.subrange(from as int, i as int).push(v@[i as int]));
        i = i + 1;
    }
    r
}

/// The preview after new recognised text arrives: the previous text is kept, replaced by the
/// incoming text when that extends it, or extended by it otherwise.
pub open spec fn merged(previous: Seq<char>, incoming: Seq<char>) -> Seq<char> {
    let p = trim(previous);
    let i = trim(incoming);
    if i.len() == 0 {
        p
    } else if p.len() == 0 || starts_with(i, p) {
        i
    } else if ends_with(p, i) {
        p
    } else {
        appended(p, i)
    }
}

/// Merges the preview text with newly recognised text.
pub fn merge_realtime_text(previous: &str, incoming: &str) -> (r: String)
    ensures
        r@ == merged(previous@, incoming@),
{
    let p = trimmed(previous);
    let i = trimmed(incoming);
    let pv = chars_of(p.as_str());
    let iv = chars_of(i.as_str());
    if iv.len() == 0 {
        return p;
    }
    if pv.len() == 0 || vec_starts_with(&iv, &pv) {
        return i;
    }
    if vec_ends_with(&pv, &iv) {
        return p;
    }
    let mut m = p;
    append_text_fragment(&mut m, i.as_str());
    m
}

/// Merging keeps what was already shown and ends with what just arrived: the trimmed previous
/// text is a prefix of the merge, and the trimmed incoming text, when not blank, is a suffix.
pub proof fn law_merge_keeps_previous_and_ends_with_incoming(previous: Seq<char>, incoming: Seq<char>)
    ensures
        starts_with(merged(previous, incoming), trim(previous)),
        trim(incoming).len() > 0 ==> ends_with(merged(previous, incoming), trim(incoming)),
{
    let p = trim(previous);
    let i = trim(incoming);
    let m = merged(previous, incoming);
    lemma_trim_idempotent(incoming);
    if i.len() == 0 {
        assert(m.subrange(0, p.len() as int) =~= p);
    } else if p.len() == 0 || starts_with(i, p) {
        assert(m.subrange(m.len() - i.len(), m.len() as int) =~= i);
        if p.len() == 0 {
            assert(m.subrange(0, 0) =~= p);
        }
    } else if ends_with(p, i) {
        assert(m.subrange(0, p.len() as int) =~= p);
    } else {
        assert(trim(i) == i);
        assert(m.subrange(0, p.len() as int) =~= p);
        assert(m.subrange(m.len() - i.len(), m.len() as int) =~= i);
    }
}

/// A text that neither starts nor ends with white space is its own trim.
pub proof fn lemma_trim_of_clean(s: Seq<char>)
    requires
        s.len() == 0 || (!is_white(s[0]) && !is_white(s.last())),
    ensures
        trim(s) == s,
{
    assert(trim_start(s) == s);
    assert(trim_end(s) == s);
}

/// A trimmed text that is not empty starts and ends with characters that are not white space.
proof fn lemma_trim_edges(s: Seq<char>)
    ensures
        trim(s).len() > 0 ==> !is_white(trim(s)[0]) && !is_white(trim(s).last()),
{
    let r = lemma_trim_bounds(s);
    if trim(s).len() > 0 {
        assert(trim(s)[0] == s[r.0]);
        assert(trim(s).last() == s[r.1 - 1]);
    }
}

/// The merged preview is trimmed, at most one character longer than the two trimmed texts
/// together, is the trimmed previous text when nothing new arrived, and merging the same
/// incoming text into it again changes nothing.
pub proof fn law_merge_is_trimmed_and_stable(previous: Seq<char>, incoming: Seq<char>)
    ensures
        trim(merged(previous, incoming)) == merged(previous, incoming),
        merged(previous, incoming).len() <= trim(previous).len() + trim(incoming).len() + 1,
        trim(incoming).len() == 0 ==> merged(previous, incoming) == trim(previous),
        merged(merged(previous, incoming), incoming) == merged(previous, incoming),
{
    let p = trim(previous);
    let i = trim(incoming);
    let m = merged(previous, incoming);
    lemma_trim_idempotent(previous);
    lemma_trim_idempotent(incoming);
    lemma_trim_edges(previous);
    lemma_trim_edges(incoming);
    if i.len() == 0 {
    } else if p.len() == 0 || starts_with(i, p) {
        assert(i.subrange(0, i.len() as int) =~= i);
    } else if ends_with(p, i) {
    } else {
        assert(trim(i) == i);
        assert(m[0] == p[0]);
        assert(m.last() == i.last());
        lemma_trim_of_clean(m);
        assert(m.subrange(m.len() - i.len(), m.len() as int) =~= i);
    }
}

/// Appending the same fragment a second time changes nothing.
pub proof fn law_append_fragment_idempotent(target: Seq<char>, fragment: Seq<char>)
    ensures
        appended(appended(target, fragment), fragment) == appended(target, fragment),
{
    let t2 = appended(target, fragment);
    let f = trim(fragment);
    if f.len() > 0 && !ends_with(target, f) {
        assert(t2.subrange(t2.len() - f.len(), t2.len() as int) =~= f);
    }
}

/// The preview lines of a realtime transcript: the last 140 characters of the trimmed text.
pub open spec fn preview_line(text: Seq<char>) -> Seq<char> {
    let t = trim(text);
    if t.len() > 140 {
        t.subrange(t.len() - 140, t.len() as int)
    } else {
        t
    }
}

/// The preview lines of a realtime transcript: none for a blank text, else one line with the
/// last 140 characters of the trimmed text.
pub fn transcript_preview_lines(text: &str) -> (r: Vec<String>)
    ensures
        is_blank(text@) ==> r.len() == 0,
        !is_blank(text@) ==> r.len() == 1 && r[0]@ == preview_line(text@),
{
    let v = chars_of(text);
    let (a, b) = trim_range(&v);
    if a == b {
        return Vec::new();
    }
    let start = if b - a > 140 {
        b - 140
    } else {
        a
    };
    let line = string_of(&v, start, b);
    proof {
        let t = trim(v@);
        if t.len() > 140 {
            assert(t.subrange(t.len() - 140, t.len() as int) =~= v@.subrange(start as int, b as int));
        }
    }
    let mut r: Vec<String> = Vec::new();
    r.push(line);
    r
}


proof fn lemma_decimal_digits(n: nat)
    ensures
        decimal(n).len() > 0,
        forall|i: int| 0 <= i < decimal(n).len() ==> is_digit(#[trigger] decimal(n)[i]),
        digits_value(decimal(n)) == n,
        decimal(n)[0] != '+',
    decreases n,
{
    if n < 10 {
        assert(((48 + n) as u32) as char as u32 == 48 + n);
        assert(decimal(n).drop_last() =~= Seq::<char>::empty());
        assert(decimal(n).last() == digit_char(n));
        assert(digits_value(decimal(n)) == digits_value(Seq::<char>::empty()) * 10 + ((decimal(n).last() as u32) - 48) as nat);
    } else {
        lemma_decimal_digits(n / 10);
        let d = n % 10;
        assert(((48 + d) as u32) as char as u32 == 48 + d);
        assert(decimal(n).drop_last() =~= decimal(n / 10));
        assert(decimal(n)[0] == decimal(n / 10)[0]);
        assert(decimal(n).last() == digit_char(d));
        assert(n == (n / 10) * 10 + d);
        assert(digits_value(decimal(n)) == digits_value(decimal(n / 10)) * 10 + ((decimal(n).last() as u32) - 48) as nat);
        assert forall|i: int| 0 <= i < decimal(n).len() implies is_digit(#[trigger] decimal(n)[i]) by {
            if i < decimal(n).len() - 1 {
                assert(decimal(n)[i] == decimal(n / 10)[i]);
            }
        }
    }
}

/// Reading back a number that `push_decimal` wrote gives the number.
pub proof fn law_decimal_round_trip(n: u64)
    ensures
        parsed_u64(decimal(n as nat)) == Some(n),
{
    lemma_decimal_digits(n as nat);
    assert(unsigned_digits(decimal(n as nat)) == decimal(n as nat));
}

} // verus!

