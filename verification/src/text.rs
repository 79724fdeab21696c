//! Text helpers over `char` sequences: comparison, splitting, number parsing
//! and number formatting, each with the meaning that Rust's `str` methods give
//! them.
use vstd::prelude::*;

verus! {

// ---------------------------------------------------------------------------
// Comparison
// ---------------------------------------------------------------------------

/// ASCII upper-case letters map to lower case, every other char to itself.
pub open spec fn ascii_lower(c: char) -> char {
    if 'A' <= c && c <= 'Z' {
        ((c as u32) + 32) as char
    } else {
        c
    }
}

/// `str::eq_ignore_ascii_case`, stated over chars.
pub open spec fn spec_eq_ignore_ascii_case(a: Seq<char>, b: Seq<char>) -> bool {
    &&& a.len() == b.len()
    &&& forall|i: int| 0 <= i < a.len() ==> ascii_lower(#[trigger] a[i]) == ascii_lower(b[i])
}

/// The chars of a string slice, in order.
pub fn chars_of(s: &str) -> (r: Vec<char>)
    ensures
        r@ == s@,
{
    let n = s.unicode_len();
    let mut r: Vec<char> = Vec::new();
    let mut i: usize = 0;
    while i < n
        invariant
            n == s@.len(),
            i <= n,
            r@ == s@.subrange(0, i as int),
        decreases n - i,
    {
        r.push(s.get_char(i));
        i = i + 1;
    }
    r
}

/// Exact equality of two strings.
pub fn str_equals(a: &str, b: &str) -> (r: bool)
    ensures
        r == (a@ == b@),
{
    let n = a.unicode_len();
    if n != b.unicode_len() {
        return false;
    }
    let mut i: usize = 0;
    while i < n
        invariant
            n == a@.len(),
            n == b@.len(),
            i <= n,
            forall|j: int| 0 <= j < i ==> a@[j] == b@[j],
        decreases n - i,
    {
        if a.get_char(i) != b.get_char(i) {
            return false;
        }
        i = i + 1;
    }
    assert(a@ =~= b@);
    true
}

/// Whether a char vector holds exactly the text of `s`.
pub fn chars_equal_str(v: &Vec<char>, s: &str) -> (r: bool)
    ensures
        r == (v@ == s@),
{
    let n = s.unicode_len();
    if n != v.len() {
        return false;
    }
    let mut i: usize = 0;
    while i < n
        invariant
            n == s@.len(),
            n == v@.len(),
            i <= n,
            forall|j: int| 0 <= j < i ==> v@[j] == s@[j],
        decreases n - i,
    {
        if v[i] != s.get_char(i) {
            return false;
        }
        i = i + 1;
    }
    assert(v@ =~= s@);
    true
}

fn ascii_lower_char(c: char) -> (r: char)
    ensures
        r == ascii_lower(c),
{
    if 'A' <= c && c <= 'Z' {
        let v: u8 = (c as u8) + 32;
        v as char
    } else {
        c
    }
}

/// `str::eq_ignore_ascii_case`.
pub fn eq_ignore_ascii_case(a: &str, b: &str) -> (r: bool)
    ensures
        r == spec_eq_ignore_ascii_case(a@, b@),
{
    let n = a.unicode_len();
    if n != b.unicode_len() {
        return false;
    }
    let mut i: usize = 0;
    while i < n
        invariant
            n == a@.len(),
            n == b@.len(),
            i <= n,
            forall|j: int| 0 <= j < i ==> ascii_lower(#[trigger] a@[j]) == ascii_lower(b@[j]),
        decreases n - i,
    {
        if ascii_lower_char(a.get_char(i)) != ascii_lower_char(b.get_char(i)) {
            return false;
        }
        i = i + 1;
    }
    true
}

// ---------------------------------------------------------------------------
// Splitting
// ---------------------------------------------------------------------------

/// `str::split(c)`: the pieces between the occurrences of `c`; there is always
/// at least one piece.
pub open spec fn spec_split(s: Seq<char>, c: char) -> Seq<Seq<char>>
    decreases s.len(),
{
    if s.len() == 0 {
        seq![Seq::<char>::empty()]
    } else {
        let rest = spec_split(s.drop_first(), c);
        if s[0] == c {
            seq![Seq::<char>::empty()] + rest
        } else {
            rest.update(0, seq![s[0]] + rest[0])
        }
    }
}

/// Splitting gives at least one part, the empty text too.
pub proof fn lemma_split_nonempty(s: Seq<char>, c: char)
    ensures
        spec_split(s, c).len() >= 1,
    decreases s.len(),
{
    if s.len() > 0 {
        lemma_split_nonempty(s.drop_first(), c);
    }
}

/// The first index at which `c` occurs in `s`.
pub open spec fn spec_find(s: Seq<char>, c: char) -> Option<int>
    decreases s.len(),
{
    if s.len() == 0 {
        None
    } else if s[0] == c {
        Some(0)
    } else {
        match spec_find(s.drop_first(), c) {
            Some(i) => Some(i + 1),
            None => None,
        }
    }
}

/// `spec_find` gives the first index of the character, or `None` where it
/// does not occur.
pub proof fn lemma_find(s: Seq<char>, c: char)
    ensures
        match spec_find(s, c) {
            Some(i) => 0 <= i < s.len() && s[i] == c && forall|j: int| 0 <= j < i ==> s[j] != c,
            None => forall|j: int| 0 <= j < s.len() ==> s[j] != c,
        },
    decreases s.len(),
{
    if s.len() > 0 {
        lemma_find(s.drop_first(), c);
        if s[0] != c {
            match spec_find(s.drop_first(), c) {
                Some(i) => {
                    assert forall|j: int| 0 <= j < i + 1 implies s[j] != c by {
                        if j > 0 {
                            assert(s[j] == s.drop_first()[j - 1]);
                        }
                    }
                },
                None => {
                    assert forall|j: int| 0 <= j < s.len() implies s[j] != c by {
                        if j > 0 {
                            assert(s[j] == s.drop_first()[j - 1]);
                        }
                    }
                },
            }
        }
    }
}

/// `str::split_once(c)`: the text before and after the first `c`.
pub open spec fn spec_split_once(s: Seq<char>, c: char) -> Option<(Seq<char>, Seq<char>)> {
    match spec_find(s, c) {
        Some(i) => Some((s.subrange(0, i), s.subrange(i + 1, s.len() as int))),
        None => None,
    }
}

proof fn lemma_split_step(s: Seq<char>, c: char, i: int, cur: Seq<char>)
    requires
        0 <= i < s.len(),
    ensures
        ({
            let r = spec_split(s.subrange(i, s.len() as int), c);
            let r2 = spec_split(s.subrange(i + 1, s.len() as int), c);
            if s[i] == c {
                r.update(0, cur + r[0]) =~= seq![cur] + r2.update(0, Seq::<char>::empty() + r2[0])
            } else {
                r.update(0, cur + r[0]) =~= r2.update(0, cur.push(s[i]) + r2[0])
            }
        }),
{
    let t = s.subrange(i, s.len() as int);
    assert(t.drop_first() =~= s.subrange(i + 1, s.len() as int));
    lemma_split_nonempty(t.drop_first(), c);
    let r2 = spec_split(t.drop_first(), c);
    if s[i] == c {
        assert(Seq::<char>::empty() + r2[0] =~= r2[0]);
        assert(r2.update(0, r2[0]) =~= r2);
        assert(seq![cur] + r2 =~= (seq![Seq::<char>::empty()] + r2).update(0, cur + Seq::<char>::empty()));
    } else {
        assert(cur + (seq![s[i]] + r2[0]) =~= cur.push(s[i]) + r2[0]);
    }
}

/// The char sequences held by a sequence of vectors.
pub open spec fn views_of(v: Seq<Vec<char>>) -> Seq<Seq<char>> {
    Seq::new(v.len(), |i: int| v[i]@)
}

/// Splits `s` at every occurrence of `c`, as `str::split` does.
pub fn split_chars(s: &Vec<char>, c: char) -> (r: Vec<Vec<char>>)
    ensures
        views_of(r@) == spec_split(s@, c),
{
    let mut done: Vec<Vec<char>> = Vec::new();
    let mut cur: Vec<char> = Vec::new();
    let mut i: usize = 0;
    let n = s.len();
    proof {
        assert(s@.subrange(0, n as int) =~= s@);
        let r = spec_split(s@, c);
        lemma_split_nonempty(s@, c);
        assert(Seq::<char>::empty() + r[0] =~= r[0]);
        assert(r.update(0, r[0]) =~= r);
        assert(views_of(done@) =~= Seq::<Seq<char>>::empty());
        assert(cur@ =~= Seq::<char>::empty());
    }
    while i < n
        invariant
            n == s@.len(),
            i <= n,
            spec_split(s@, c) =~= views_of(done@) + {
                let r = spec_split(s@.subrange(i as int, n as int), c);
                r.update(0, cur@ + r[0])
            },
        decreases n - i,
    {
        proof {
            lemma_split_step(s@, c, i as int, cur@);
        }
        let ch = s[i];
        if ch == c {
            let ghost old_done = views_of(done@);
            let piece = cur;
            cur = Vec::new();
            done.push(piece);
            proof {
                assert(views_of(done@) =~= old_done.push(piece@));
                let r2 = spec_split(s@.subrange(i + 1, n as int), c);
                assert(Seq::<char>::empty() + r2[0] =~= r2[0]);
                assert(cur@ =~= Seq::<char>::empty());
            }
        } else {
            cur.push(ch);
        }
        i = i + 1;
    }
    proof {
        let r = spec_split(s@.subrange(n as int, n as int), c);
        assert(s@.subrange(n as int, n as int) =~= Seq::<char>::empty());
        assert(r =~= seq![Seq::<char>::empty()]);
        assert(cur@ + Seq::<char>::empty() =~= cur@);
    }
    let ghost old_done = views_of(done@);
    done.push(cur);
    assert(views_of(done@) =~= old_done.push(cur@));
    done
}

/// Splits `s` at its first `c`, as `str::split_once` does.
pub fn split_once_chars(s: &Vec<char>, c: char) -> (r: Option<(Vec<char>, Vec<char>)>)
    ensures
        match (r, spec_split_once(s@, c)) {
            (Some((a, b)), Some((sa, sb))) => a@ == sa && b@ == sb,
            (None, None) => true,
            _ => false,
        },
{
    proof {
        lemma_find(s@, c);
    }
    let n = s.len();
    let mut i: usize = 0;
    while i < n
        invariant
            n == s@.len(),
            i <= n,
            forall|j: int| 0 <= j < i ==> s@[j] != c,
        decreases n - i,
    {
        if s[i] == c {
            proof {
                lemma_find(s@, c);
                match spec_find(s@, c) {
                    Some(k) => {
                        if k < i {
                            assert(s@[k] != c);
                        }
                        if k > i {
                            assert(s@[i as int] != c);
                        }
                        assert(k == i);
                    },
                    None => {
                        assert(s@[i as int] != c);
                    },
                }
            }
            let mut a: Vec<char> = Vec::new();
            let mut j: usize = 0;
            while j < i
                invariant
                    i < n == s@.len(),
                    j <= i,
                    a@ =~= s@.subrange(0, j as int),
                decreases i - j,
            {
                a.push(s[j]);
                j = j + 1;
            }
            let mut b: Vec<char> = Vec::new();
            let mut k: usize = i + 1;
            while k < n
                invariant
                    i < n == s@.len(),
                    i + 1 <= k <= n,
                    b@ =~= s@.subrange(i + 1, k as int),
                decreases n - k,
            {
                b.push(s[k]);
                k = k + 1;
            }
            return Some((a, b));
        }
        i = i + 1;
    }
    None
}

// ---------------------------------------------------------------------------
// Decimal numbers
// ---------------------------------------------------------------------------

pub open spec fn is_digit(c: char) -> bool {
    '0' <= c && c <= '9'
}

pub open spec fn digit_value(c: char) -> nat {
    ((c as u32) - ('0' as u32)) as nat
}

pub open spec fn all_digits(s: Seq<char>) -> bool {
    forall|i: int| 0 <= i < s.len() ==> is_digit(#[trigger] s[i])
}

/// The value of a run of decimal digits, most significant first.
pub open spec fn digits_value(s: Seq<char>) -> nat
    decreases s.len(),
{
    if s.len() == 0 {
        0
    } else {
        digits_value(s.drop_last()) * 10 + digit_value(s.last())
    }
}

/// `<u32 as FromStr>::from_str`: an optional `+`, then at least one decimal
/// digit, with a value that fits in 32 bits.
pub open spec fn spec_parse_u32(s: Seq<char>) -> Option<u32> {
    let d = if s.len() > 0 && s[0] == '+' {
        s.drop_first()
    } else {
        s
    };
    if d.len() > 0 && all_digits(d) && digits_value(d) <= u32::MAX {
        Some(digits_value(d) as u32)
    } else {
        None
    }
}

proof fn lemma_digits_value_grows(s: Seq<char>, c: char)
    requires
        is_digit(c),
    ensures
        digits_value(s.push(c)) == digits_value(s) * 10 + digit_value(c),
        digits_value(s.push(c)) >= digits_value(s),
{
    assert(s.push(c).drop_last() =~= s);
}

/// Parses a `u32` as `str::parse::<u32>` does.
pub fn parse_u32(s: &Vec<char>) -> (r: Option<u32>)
    ensures
        r == spec_parse_u32(s@),
{
    let n = s.len();
    let mut start: usize = 0;
    if n > 0 && s[0] == '+' {
        start = 1;
    }
    let ghost d = if s@.len() > 0 && s@[0] == '+' {
        s@.drop_first()
    } else {
        s@
    };
    assert(d =~= s@.subrange(start as int, n as int));
    if start == n {
        return None;
    }
    let mut value: u64 = 0;
    let mut over = false;
    let mut i: usize = start;
    while i < n
        invariant
            n == s@.len(),
            start <= i <= n,
            d =~= s@.subrange(start as int, n as int),
            d == (if s@.len() > 0 && s@[0] == '+' {
                s@.drop_first()
            } else {
                s@
            }),
            all_digits(s@.subrange(start as int, i as int)),
            over ==> digits_value(s@.subrange(start as int, i as int)) > u32::MAX,
            !over ==> value == digits_value(s@.subrange(start as int, i as int)),
            !over ==> value <= u32::MAX,
        decreases n - i,
    {
        let c = s[i];
        if !('0' <= c && c <= '9') {
            proof {
                assert(d[i - start] == c);
                assert(!is_digit(d[i - start]));
                assert(!all_digits(d));
            }
            return None;
        }
        proof {
            assert(s@.subrange(start as int, i + 1) =~= s@.subrange(start as int, i as int).push(c));
            lemma_digits_value_grows(s@.subrange(start as int, i as int), c);
        }
        if !over {
            let dv: u64 = ((c as u32) - ('0' as u32)) as u64;
            let next: u64 = value * 10 + dv;
            if next > 0xffff_ffff {
                over = true;
            } else {
                value = next;
            }
        }
        i = i + 1;
    }
    assert(s@.subrange(start as int, n as int) =~= d);
    if over {
        None
    } else {
        Some(value as u32)
    }
}

pub open spec fn digit_char(d: nat) -> char {
    ((d + 48) as u32) as char
}

/// Decimal rendering of a natural number, without leading zeros.
pub open spec fn decimal(n: nat) -> Seq<char>
    decreases n,
{
    if n < 10 {
        seq![digit_char(n)]
    } else {
        decimal(n / 10).push(digit_char(n % 10))
    }
}

/// Decimal rendering of a signed number, as `{}` formats it.
pub open spec fn decimal_signed(x: int) -> Seq<char> {
    if x < 0 {
        seq!['-'] + decimal((-x) as nat)
    } else {
        decimal(x as nat)
    }
}

fn digit_str(d: u64) -> (r: &'static str)
    requires
        d < 10,
    ensures
        r@ == seq![digit_char(d as nat)],
{
    proof {
        reveal_strlit("0");
        reveal_strlit("1");
        reveal_strlit("2");
        reveal_strlit("3");
        reveal_strlit("4");
        reveal_strlit("5");
        reveal_strlit("6");
        reveal_strlit("7");
        reveal_strlit("8");
        reveal_strlit("9");
    }
    if d == 0 {
        "0"
    } else if d == 1 {
        "1"
    } else if d == 2 {
        "2"
    } else if d == 3 {
        "3"
    } else if d == 4 {
        "4"
    } else if d == 5 {
        "5"
    } else if d == 6 {
        "6"
    } else if d == 7 {
        "7"
    } else if d == 8 {
        "8"
    } else {
        "9"
    }
}

/// Appends the decimal rendering of `n`.
pub fn push_decimal(out: &mut String, n: u64)
    ensures
        final(out)@ == old(out)@ + decimal(n as nat),
    decreases n,
{
    if n < 10 {
        out.append(digit_str(n));
    } else {
        push_decimal(out, n / 10);
        out.append(digit_str(n % 10));
        assert(decimal(n as nat) =~= decimal((n / 10) as nat).push(digit_char((n % 10) as nat)));
    }
}

/// Appends the decimal rendering of a signed `n`, as `{}` formats it.
pub fn push_decimal_signed(out: &mut String, n: i64)
    requires
        n > i64::MIN,
    ensures
        final(out)@ == old(out)@ + decimal_signed(n as int),
{
    if n < 0 {
        proof {
            reveal_strlit("-");
        }
        out.append("-");
        let m: u64 = (-n) as u64;
        push_decimal(out, m);
    } else {
        push_decimal(out, n as u64);
    }
}

/// Appends the text of `s`.
pub fn push_str(out: &mut String, s: &str)
    ensures
        final(out)@ == old(out)@ + s@,
{
    out.append(s);
}

// ---------------------------------------------------------------------------
// Hexadecimal numbers
// ---------------------------------------------------------------------------

pub open spec fn hex_char(d: nat) -> char {
    if d < 10 {
        ((d + 48) as u32) as char
    } else {
        ((d + 55) as u32) as char
    }
}

/// Upper-case hexadecimal rendering, without leading zeros.
pub open spec fn hex(n: nat) -> Seq<char>
    decreases n,
{
    if n < 16 {
        seq![hex_char(n)]
    } else {
        hex(n / 16).push(hex_char(n % 16))
    }
}

/// `{:02X}` of a 32-bit signed number: two's complement hex digits, padded
/// with a zero to at least two digits.
pub open spec fn hex2_i32(x: int) -> Seq<char> {
    let v = if x < 0 {
        (x + 0x1_0000_0000) as nat
    } else {
        x as nat
    };
    if v < 16 {
        seq!['0'] + hex(v)
    } else {
        hex(v)
    }
}

fn hex_digit_str(d: u64) -> (r: &'static str)
    requires
        d < 16,
    ensures
        r@ == seq![hex_char(d as nat)],
{
    if d < 10 {
        digit_str(d)
    } else {
        proof {
            reveal_strlit("A");
            reveal_strlit("B");
            reveal_strlit("C");
            reveal_strlit("D");
            reveal_strlit("E");
            reveal_strlit("F");
        }
        if d == 10 {
            "A"
        } else if d == 11 {
            "B"
        } else if d == 12 {
            "C"
        } else if d == 13 {
            "D"
        } else if d == 14 {
            "E"
        } else {
            "F"
        }
    }
}

fn push_hex(out: &mut String, n: u64)
    ensures
        final(out)@ == old(out)@ + hex(n as nat),
    decreases n,
{
    if n < 16 {
        out.append(hex_digit_str(n));
    } else {
        push_hex(out, n / 16);
        out.append(hex_digit_str(n % 16));
        assert(hex(n as nat) =~= hex((n / 16) as nat).push(hex_char((n % 16) as nat)));
    }
}

/// Appends `x` formatted as `{:02X}` formats an `i32`.
pub fn push_hex2_i32(out: &mut String, x: i32)
    ensures
        final(out)@ == old(out)@ + hex2_i32(x as int),
{
    let v: u64 = if x < 0 {
        (x as i64 + 0x1_0000_0000i64) as u64
    } else {
        x as u64
    };
    if v < 16 {
        proof {
            reveal_strlit("0");
        }
        out.append("0");
        push_hex(out, v);
        assert(old(out)@ + seq!['0'] + hex(v as nat) =~= old(out)@ + (seq!['0'] + hex(v as nat)));
    } else {
        push_hex(out, v);
    }
}

} // verus!
