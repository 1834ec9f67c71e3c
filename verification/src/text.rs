//! Character-level string helpers: comparison, decimal rendering and
//! Persian digits.
use vstd::prelude::*;

verus! {

/// Whether two strings hold the same characters.
pub fn str_eq(a: &str, b: &str) -> (r: bool)
    ensures
        r == (a@ == b@),
{
    let la = a.unicode_len();
    let lb = b.unicode_len();
    if la != lb {
        return false;
    }
    let mut i: usize = 0;
    while i < la
        invariant
            la == a@.len(),
            lb == b@.len(),
            la == lb,
            i <= la,
            forall|k: int| 0 <= k < i ==> a@[k] == b@[k],
        decreases la - i,
    {
        if a.get_char(i) != b.get_char(i) {
            return false;
        }
        i += 1;
    }
    assert(a@ =~= b@);
    true
}


/// The ASCII digit for `d` in 0..10.
pub open spec fn digit_char(d: int) -> char {
    if d == 0 { '0' }
    else if d == 1 { '1' }
    else if d == 2 { '2' }
    else if d == 3 { '3' }
    else if d == 4 { '4' }
    else if d == 5 { '5' }
    else if d == 6 { '6' }
    else if d == 7 { '7' }
    else if d == 8 { '8' }
    else { '9' }
}

/// Decimal digits of a natural number, most significant first, no leading zeros.
pub open spec fn nat_decimal(n: nat) -> Seq<char>
    decreases n,
{
    if n < 10 {
        seq![digit_char(n as int)]
    } else {
        nat_decimal(n / 10).push(digit_char((n % 10) as int))
    }
}

/// Decimal rendering of an integer, with a leading '-' when negative
/// (what `Display` prints for Rust integers).
pub open spec fn int_decimal(n: int) -> Seq<char> {
    if n < 0 {
        seq!['-'] + nat_decimal((-n) as nat)
    } else {
        nat_decimal(n as nat)
    }
}

fn digit_str(d: u64) -> (r: &'static str)
    requires
        d < 10,
    ensures
        r@ == seq![digit_char(d as int)],
{
    proof {
        reveal_strlit("0");
        reveal_strlit("1");
        reveal_strlit("2");
        reveal_strlit("3");
        reveal_strlit("4");
        reveal_strlit("5");
        reveal_strlit("6");
        reveal_strlit("7");
        reveal_strlit("8");
        reveal_strlit("9");
    }
    match d {
        0 => "0",
        1 => "1",
        2 => "2",
        3 => "3",
        4 => "4",
        5 => "5",
        6 => "6",
        7 => "7",
        8 => "8",
        _ => "9",
    }
}

/// Appends the decimal digits of `n`.
pub fn push_decimal(s: &mut String, n: u64)
    ensures
        final(s)@ == old(s)@ + nat_decimal(n as nat),
    decreases n,
{
    if n >= 10 {
        push_decimal(s, n / 10);
        s.append(digit_str(n % 10));
        assert(old(s)@ + nat_decimal(n as nat) =~= old(s)@ + nat_decimal((n / 10) as nat) + seq![
            digit_char((n % 10) as int),
        ]);
    } else {
        s.append(digit_str(n));
        assert(old(s)@ + nat_decimal(n as nat) =~= old(s)@ + seq![digit_char(n as int)]);
    }
}

/// Decimal rendering of a signed integer.
pub fn decimal(n: i64) -> (r: String)
    ensures
        r@ == int_decimal(n as int),
{
    let mut s = String::new();
    if n < 0 {
        s.append("-");
        proof { reveal_strlit("-"); }
        let magnitude: u64 = (0 - (n as i128)) as u64;
        push_decimal(&mut s, magnitude);
    } else {
        push_decimal(&mut s, n as u64);
    }
    s
}

/// The Persian (Extended Arabic-Indic) digit for an ASCII digit; any other
/// character is kept.
pub open spec fn persian_char(c: char) -> char {
    if c == '0' { '۰' }
    else if c == '1' { '۱' }
    else if c == '2' { '۲' }
    else if c == '3' { '۳' }
    else if c == '4' { '۴' }
    else if c == '5' { '۵' }
    else if c == '6' { '۶' }
    else if c == '7' { '۷' }
    else if c == '8' { '۸' }
    else if c == '9' { '۹' }
    else { c }
}

pub open spec fn to_persian_digits(s: Seq<char>) -> Seq<char> {
    s.map_values(|c: char| persian_char(c))
}

fn persian_digit_str(c: char) -> (r: Option<&'static str>)
    ensures
        match r {
            Some(t) => persian_char(c) != c && t@ == seq![persian_char(c)],
            None => persian_char(c) == c,
        },
{
    proof {
        reveal_strlit("۰");
        reveal_strlit("۱");
        reveal_strlit("۲");
        reveal_strlit("۳");
        reveal_strlit("۴");
        reveal_strlit("۵");
        reveal_strlit("۶");
        reveal_strlit("۷");
        reveal_strlit("۸");
        reveal_strlit("۹");
    }
    if c == '0' { Some("۰") }
    else if c == '1' { Some("۱") }
    else if c == '2' { Some("۲") }
    else if c == '3' { Some("۳") }
    else if c == '4' { Some("۴") }
    else if c == '5' { Some("۵") }
    else if c == '6' { Some("۶") }
    else if c == '7' { Some("۷") }
    else if c == '8' { Some("۸") }
    else if c == '9' { Some("۹") }
    else { None }
}

/// Replaces every ASCII digit with its Persian counterpart.
pub fn persian_digits(value: &str) -> (r: String)
    ensures
        r@ == to_persian_digits(value@),
{
    let n = value.unicode_len();
    let mut out = String::new();
    let mut i: usize = 0;
    while i < n
        invariant
            n == value@.len(),
            i <= n,
            out@ == to_persian_digits(value@.subrange(0, i as int)),
        decreases n - i,
    {
        let c = value.get_char(i);
        match persian_digit_str(c) {
            Some(t) => out.append(t),
            None => out.append(value.substring_char(i, i + 1)),
        }
        assert(value@.subrange(0, i + 1) =~= value@.subrange(0, i as int).push(c));
        assert(to_persian_digits(value@.subrange(0, i + 1)) =~= to_persian_digits(
            value@.subrange(0, i as int),
        ).push(persian_char(c)));
        i += 1;
    }
    assert(value@.subrange(0, n as int) =~= value@);
    out
}

/// A number written with Persian digits.
pub fn persian_number(n: i64) -> (r: String)
    ensures
        r@ == to_persian_digits(int_decimal(n as int)),
{
    let plain = decimal(n);
    persian_digits(plain.as_str())
}


// ---------------------------------------------------------------------------
// Whitespace, trimming and line splitting (as `str::trim`, `str::lines`)
// ---------------------------------------------------------------------------

/// Unicode White_Space, the set `char::is_whitespace` accepts.
pub open spec fn is_ws(c: char) -> bool {
    let u = c as u32;
    (9 <= u <= 13) || u == 32 || u == 0x85 || u == 0xa0 || u == 0x1680 || (0x2000 <= u <= 0x200a)
        || u == 0x2028 || u == 0x2029 || u == 0x202f || u == 0x205f || u == 0x3000
}

pub fn is_whitespace(c: char) -> (r: bool)
    ensures
        r == is_ws(c),
{
    let u = c as u32;
    (9 <= u && u <= 13) || u == 32 || u == 0x85 || u == 0xa0 || u == 0x1680 || (0x2000 <= u && u
        <= 0x200a) || u == 0x2028 || u == 0x2029 || u == 0x202f || u == 0x205f || u == 0x3000
}

pub open spec fn trim_start(s: Seq<char>) -> Seq<char>
    decreases s.len(),
{
    if s.len() > 0 && is_ws(s[0]) {
        trim_start(s.drop_first())
    } else {
        s
    }
}

pub open spec fn trim_end(s: Seq<char>) -> Seq<char>
    decreases s.len(),
{
    if s.len() > 0 && is_ws(s.last()) {
        trim_end(s.drop_last())
    } else {
        s
    }
}

/// Both ends stripped of whitespace.
pub open spec fn trim(s: Seq<char>) -> Seq<char> {
    trim_end(trim_start(s))
}

/// The characters of a string, one by one.
pub fn chars_of(s: &str) -> (r: Vec<char>)
    ensures
        r@ == s@,
{
    let n = s.unicode_len();
    let mut out: Vec<char> = Vec::new();
    let mut i: usize = 0;
    while i < n
        invariant
            n == s@.len(),
            i <= n,
            out@ == s@.subrange(0, i as int),
        decreases n - i,
    {
        out.push(s.get_char(i));
        assert(out@ =~= s@.subrange(0, i + 1));
        i += 1;
    }
    assert(s@.subrange(0, n as int) =~= s@);
    out
}

/// Bounds of the trimmed part of `chars[lo..hi]`.
pub fn trim_bounds(chars: &Vec<char>, lo: usize, hi: usize) -> (r: (usize, usize))
    requires
        lo <= hi <= chars@.len(),
    ensures
        lo <= r.0 <= r.1 <= hi,
        chars@.subrange(r.0 as int, r.1 as int) == trim(chars@.subrange(lo as int, hi as int)),
{
    let mut a = lo;
    while a < hi && is_whitespace(chars[a])
        invariant
            lo <= a <= hi <= chars@.len(),
            trim_start(chars@.subrange(lo as int, hi as int)) == trim_start(
                chars@.subrange(a as int, hi as int),
            ),
        decreases hi - a,
    {
        assert(chars@.subrange(a as int, hi as int).drop_first() =~= chars@.subrange(
            a + 1,
            hi as int,
        ));
        a += 1;
    }
    assert(trim_start(chars@.subrange(a as int, hi as int)) == chars@.subrange(a as int, hi as int));
    let mut b = hi;
    while b > a && is_whitespace(chars[b - 1])
        invariant
            lo <= a <= b <= hi <= chars@.len(),
            trim(chars@.subrange(lo as int, hi as int)) == trim_end(
                chars@.subrange(a as int, b as int),
            ),
        decreases b - a,
    {
        assert(chars@.subrange(a as int, b as int).drop_last() =~= chars@.subrange(
            a as int,
            b - 1,
        ));
        b -= 1;
    }
    (a, b)
}

/// Index of the first `c` at or after `p`, or the length when there is none.
pub open spec fn find_char(s: Seq<char>, p: int, c: char) -> int
    decreases s.len() - p,
{
    if p >= s.len() {
        s.len() as int
    } else if s[p] == c {
        p
    } else {
        find_char(s, p + 1, c)
    }
}

pub fn find_in(chars: &Vec<char>, lo: usize, hi: usize, c: char) -> (r: usize)
    requires
        lo <= hi <= chars@.len(),
    ensures
        lo <= r <= hi,
        r == lo + find_char(chars@.subrange(lo as int, hi as int), 0, c),
{
    let mut i = lo;
    while i < hi && chars[i] != c
        invariant
            lo <= i <= hi <= chars@.len(),
            find_char(chars@.subrange(lo as int, hi as int), 0, c) == find_char(
                chars@.subrange(lo as int, hi as int),
                i - lo,
                c,
            ),
        decreases hi - i,
    {
        i += 1;
    }
    i
}

/// Whether `chars[lo..hi]` spells `lit`.
pub fn range_is(chars: &Vec<char>, lo: usize, hi: usize, lit: &str) -> (r: bool)
    requires
        lo <= hi <= chars@.len(),
    ensures
        r == (chars@.subrange(lo as int, hi as int) == lit@),
{
    let n = lit.unicode_len();
    if hi - lo != n {
        return false;
    }
    let mut i: usize = 0;
    while i < n
        invariant
            n == lit@.len(),
            hi - lo == n,
            lo <= hi <= chars@.len(),
            i <= n,
            forall|k: int| 0 <= k < i ==> chars@[lo + k] == lit@[k],
        decreases n - i,
    {
        if chars[lo + i] != lit.get_char(i) {
            return false;
        }
        i += 1;
    }
    assert(chars@.subrange(lo as int, hi as int) =~= lit@);
    true
}

} // verus!
