use vstd::prelude::*;

verus! {

/// Why the focused window could not be found.
#[derive(Debug, Clone, PartialEq, Eq)]
pub enum FocusError {
    /// The focus query exited unsuccessfully; holds what it wrote to its
    /// error stream.
    QueryFailed(Vec<u8>),
    /// The query succeeded but its output is not a window number.
    Unparseable,
}

/// A one-byte white-space character: tab, line feed, vertical tab, form
/// feed, carriage return or space.
pub open spec fn is_space1(a: u8) -> bool {
    a == 0x20 || (0x09 <= a <= 0x0d)
}

/// The UTF-8 encoding of U+0085 or U+00A0.
pub open spec fn is_space2(a: u8, b: u8) -> bool {
    a == 0xc2 && (b == 0x85 || b == 0xa0)
}

/// The UTF-8 encoding of U+1680, U+2000 to U+200A, U+2028, U+2029,
/// U+202F, U+205F or U+3000.
pub open spec fn is_space3(a: u8, b: u8, c: u8) -> bool {
    ||| (a == 0xe1 && b == 0x9a && c == 0x80)
    ||| (a == 0xe2 && b == 0x80 && ((0x80 <= c <= 0x8a) || c == 0xa8 || c == 0xa9 || c == 0xaf))
    ||| (a == 0xe2 && b == 0x81 && c == 0x9f)
    ||| (a == 0xe3 && b == 0x80 && c == 0x80)
}

/// The length in bytes of the white-space character (Unicode White_Space,
/// UTF-8 encoded) that starts `s`; 0 when none does.
pub open spec fn leading_space(s: Seq<u8>) -> int {
    if s.len() >= 1 && is_space1(s[0]) {
        1
    } else if s.len() >= 2 && is_space2(s[0], s[1]) {
        2
    } else if s.len() >= 3 && is_space3(s[0], s[1], s[2]) {
        3
    } else {
        0
    }
}

/// The length in bytes of the white-space character that ends `s`; 0 when
/// none does.
pub open spec fn trailing_space(s: Seq<u8>) -> int {
    let n = s.len() as int;
    if n >= 1 && is_space1(s[n - 1]) {
        1
    } else if n >= 2 && is_space2(s[n - 2], s[n - 1]) {
        2
    } else if n >= 3 && is_space3(s[n - 3], s[n - 2], s[n - 1]) {
        3
    } else {
        0
    }
}

pub open spec fn is_digit(b: u8) -> bool {
    0x30 <= b <= 0x39
}

pub open spec fn trim_start(s: Seq<u8>) -> Seq<u8>
    decreases s.len(),
{
    let k = leading_space(s);
    if k > 0 {
        trim_start(s.subrange(k, s.len() as int))
    } else {
        s
    }
}

pub open spec fn trim_end(s: Seq<u8>) -> Seq<u8>
    decreases s.len(),
{
    let k = trailing_space(s);
    if k > 0 {
        trim_end(s.subrange(0, s.len() - k))
    } else {
        s
    }
}

fn space1(a: u8) -> (r: bool)
    ensures
        r == is_space1(a),
{
    a == 0x20 || (0x09 <= a && a <= 0x0d)
}

fn space2(a: u8, b: u8) -> (r: bool)
    ensures
        r == is_space2(a, b),
{
    a == 0xc2 && (b == 0x85 || b == 0xa0)
}

fn space3(a: u8, b: u8, c: u8) -> (r: bool)
    ensures
        r == is_space3(a, b, c),
{
    (a == 0xe1 && b == 0x9a && c == 0x80) || (a == 0xe2 && b == 0x80 && ((0x80 <= c && c <= 0x8a)
        || c == 0xa8 || c == 0xa9 || c == 0xaf)) || (a == 0xe2 && b == 0x81 && c == 0x9f) || (a
        == 0xe3 && b == 0x80 && c == 0x80)
}

fn leading_space_in(s: &Vec<u8>, i: usize, j: usize) -> (r: usize)
    requires
        i <= j <= s@.len(),
    ensures
        r == leading_space(s@.subrange(i as int, j as int)),
        r <= j - i,
{
    if j - i >= 1 && space1(s[i]) {
        1
    } else if j - i >= 2 && space2(s[i], s[i + 1]) {
        2
    } else if j - i >= 3 && space3(s[i], s[i + 1], s[i + 2]) {
        3
    } else {
        0
    }
}

fn trailing_space_in(s: &Vec<u8>, i: usize, j: usize) -> (r: usize)
    requires
        i <= j <= s@.len(),
    ensures
        r == trailing_space(s@.subrange(i as int, j as int)),
        r <= j - i,
{
    if j - i >= 1 && space1(s[j - 1]) {
        1
    } else if j - i >= 2 && space2(s[j - 2], s[j - 1]) {
        2
    } else if j - i >= 3 && space3(s[j - 3], s[j - 2], s[j - 1]) {
        3
    } else {
        0
    }
}

/// The number that the decimal digits `s` spell.
pub open spec fn digits_value(s: Seq<u8>) -> int
    decreases s.len(),
{
    if s.len() == 0 {
        0
    } else {
        digits_value(s.drop_last()) * 10 + (s.last() - 0x30)
    }
}

/// `s` without surrounding white space and without one leading `+`.
pub open spec fn number_text(s: Seq<u8>) -> Seq<u8> {
    let t = trim_end(trim_start(s));
    if t.len() > 0 && t[0] == 0x2b {
        t.drop_first()
    } else {
        t
    }
}

/// The window number that the text `s` gives: decimal digits, optionally
/// after a `+`, surrounded by any Unicode white space, of a value that fits
/// 32 bits.
pub open spec fn window_number(s: Seq<u8>) -> Option<u32> {
    let d = number_text(s);
    if d.len() > 0 && (forall|i: int| 0 <= i < d.len() ==> is_digit(d[i])) && digits_value(d)
        <= u32::MAX {
        Some(digits_value(d) as u32)
    } else {
        None
    }
}

fn trimmed_bounds(s: &Vec<u8>) -> (r: (usize, usize))
    ensures
        r.0 <= r.1 <= s@.len(),
        s@.subrange(r.0 as int, r.1 as int) == trim_end(trim_start(s@)),
{
    let n = s.len();
    let mut i: usize = 0;
    assert(s@.subrange(0, n as int) =~= s@);
    let mut k = leading_space_in(s, i, n);
    while k > 0
        invariant
            n == s@.len(),
            i + k <= n,
            k == leading_space(s@.subrange(i as int, n as int)),
            trim_start(s@) == trim_start(s@.subrange(i as int, n as int)),
        decreases n - i,
    {
        assert(s@.subrange(i as int, n as int).subrange(k as int, n - i) =~= s@.subrange(
            i + k,
            n as int,
        ));
        i = i + k;
        k = leading_space_in(s, i, n);
    }
    let t = Ghost(s@.subrange(i as int, n as int));
    assert(trim_start(s@) == t@);
    let mut j: usize = n;
    let mut k = trailing_space_in(s, i, j);
    while k > 0
        invariant
            n == s@.len(),
            i + k <= j <= n,
            k == trailing_space(s@.subrange(i as int, j as int)),
            t@ == s@.subrange(i as int, n as int),
            trim_end(t@) == trim_end(s@.subrange(i as int, j as int)),
        decreases j,
    {
        assert(s@.subrange(i as int, j as int).subrange(0, j - i - k) =~= s@.subrange(
            i as int,
            j - k,
        ));
        j = j - k;
        k = trailing_space_in(s, i, j);
    }
    (i, j)
}

/// Reads the window number that a successful focus query printed.
pub fn parse_window_id(stdout: &Vec<u8>) -> (r: Option<u32>)
    ensures
        r == window_number(stdout@),
{
    let (start, end) = trimmed_bounds(stdout);
    let mut k: usize = start;
    if k < end && stdout[k] == 0x2b {
        k = k + 1;
    }
    let d = Ghost(stdout@.subrange(k as int, end as int));
    assert(d@ =~= number_text(stdout@));
    if k == end {
        return None;
    }
    let mut value: u32 = 0;
    let mut i: usize = k;
    while i < end
        invariant
            k <= i <= end <= stdout@.len(),
            d@ == stdout@.subrange(k as int, end as int),
            d@ == number_text(stdout@),
            forall|q: int| k <= q < i ==> is_digit(stdout@[q]),
            value as int == digits_value(stdout@.subrange(k as int, i as int)),
        decreases end - i,
    {
        let b = stdout[i];
        if b < 0x30 || b > 0x39 {
            assert(!is_digit(d@[i - k]));
            return None;
        }
        assert(stdout@.subrange(k as int, i + 1).drop_last() =~= stdout@.subrange(
            k as int,
            i as int,
        ));
        let digit = (b - 0x30) as u32;
        if value > 429496729 || (value == 429496729 && digit > 5) {
            proof {
                assert(d@.subrange(0, i + 1 - k) =~= stdout@.subrange(k as int, i + 1));
                lemma_digits_grow(d@, i + 1 - k);
            }
            return None;
        }
        value = value * 10 + digit;
        i = i + 1;
    }
    assert(stdout@.subrange(k as int, end as int) =~= d@);
    Some(value)
}

proof fn lemma_digits_grow(d: Seq<u8>, m: int)
    requires
        0 < m <= d.len(),
        forall|i: int| 0 <= i < d.len() ==> is_digit(d[i]) || i >= m,
        digits_value(d.subrange(0, m)) > u32::MAX,
    ensures
        !(d.len() > 0 && (forall|i: int| 0 <= i < d.len() ==> is_digit(d[i])) && digits_value(d)
            <= u32::MAX),
    decreases d.len() - m,
{
    if forall|i: int| 0 <= i < d.len() ==> is_digit(d[i]) {
        if m < d.len() {
            assert(d.subrange(0, m + 1).drop_last() =~= d.subrange(0, m));
            lemma_digits_grow(d, m + 1);
        } else {
            assert(d.subrange(0, m) =~= d);
        }
    }
}

/// The focused window, from the focus query's exit status and output: the
/// number it printed when it succeeded, its error text when it failed.
pub fn window_from_query(success: bool, stdout: &Vec<u8>, stderr: &Vec<u8>) -> (r: Result<
    u32,
    FocusError,
>)
    ensures
        !success ==> (r matches Err(FocusError::QueryFailed(e)) && e@ == stderr@),
        success ==> match window_number(stdout@) {
            Some(w) => r == Ok::<u32, FocusError>(w),
            None => r == Err::<u32, FocusError>(FocusError::Unparseable),
        },
{
    if !success {
        return Err(FocusError::QueryFailed(stderr.clone()));
    }
    match parse_window_id(stdout) {
        Some(w) => Ok(w),
        None => Err(FocusError::Unparseable),
    }
}

} // verus!
