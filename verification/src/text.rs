//! Character-level helpers on strings, each proved against a spec over `Seq<char>`.

use vstd::prelude::*;

verus! {

broadcast use vstd::string::group_string_axioms;

/// Rust's `char::is_whitespace`: the Unicode `White_Space` property.
pub open spec fn is_ws(c: char) -> bool {
    let u = c as u32;
    (0x9 <= u && u <= 0xd) || u == 0x20 || u == 0x85 || u == 0xa0 || u == 0x1680 || (0x2000
        <= u && u <= 0x200a) || u == 0x2028 || u == 0x2029 || u == 0x202f || u == 0x205f || u
        == 0x3000
}

/// `s` without its leading whitespace.
pub open spec fn trim_start(s: Seq<char>) -> Seq<char>
    decreases s.len(),
{
    if s.len() > 0 && is_ws(s[0]) {
        trim_start(s.drop_first())
    } else {
        s
    }
}

/// `s` without its trailing whitespace.
pub open spec fn trim_end(s: Seq<char>) -> Seq<char>
    decreases s.len(),
{
    if s.len() > 0 && is_ws(s.last()) {
        trim_end(s.drop_last())
    } else {
        s
    }
}

/// Rust's `str::trim`.
pub open spec fn trim(s: Seq<char>) -> Seq<char> {
    trim_end(trim_start(s))
}

/// ASCII lower-casing of one character (`char::to_ascii_lowercase`).
pub open spec fn lower(c: char) -> char {
    if 'A' <= c && c <= 'Z' {
        ((c as u32) + 32) as char
    } else {
        c
    }
}

/// `str::to_ascii_lowercase`.
pub open spec fn lower_seq(s: Seq<char>) -> Seq<char> {
    s.map_values(|c: char| lower(c))
}

/// `str::eq_ignore_ascii_case`.
pub open spec fn eq_ignore_case(a: Seq<char>, b: Seq<char>) -> bool {
    lower_seq(a) == lower_seq(b)
}

/// `str::split(d)`: the pieces between occurrences of `d` (always at least one).
pub open spec fn split(s: Seq<char>, d: char) -> Seq<Seq<char>>
    decreases s.len(),
{
    if s.len() == 0 {
        seq![Seq::<char>::empty()]
    } else {
        let rest = split(s.drop_first(), d);
        if s[0] == d {
            seq![Seq::<char>::empty()] + rest
        } else {
            rest.update(0, seq![s[0]] + rest[0])
        }
    }
}

/// `split` always yields at least one piece.
pub proof fn lemma_split_len(s: Seq<char>, d: char)
    ensures
        split(s, d).len() >= 1,
    decreases s.len(),
{
    if s.len() > 0 {
        lemma_split_len(s.drop_first(), d);
    }
}

/// Position of the first `d` in `s`, if any.
pub open spec fn find(s: Seq<char>, d: char) -> Option<int>
    decreases s.len(),
{
    if s.len() == 0 {
        None
    } else if s[0] == d {
        Some(0)
    } else {
        match find(s.drop_first(), d) {
            Some(i) => Some(i + 1),
            None => None,
        }
    }
}

/// `str::split_once(d)`.
pub open spec fn split_once(s: Seq<char>, d: char) -> Option<(Seq<char>, Seq<char>)> {
    match find(s, d) {
        Some(i) => Some((s.take(i), s.skip(i + 1))),
        None => None,
    }
}

/// Whether `c` is one of `0`..=`9`.
pub open spec fn is_digit(c: char) -> bool {
    '0' <= c && c <= '9'
}

/// Numeric value of a decimal digit.
pub open spec fn digit_val(c: char) -> nat {
    ((c as u32) - ('0' as u32)) as nat
}

/// The value of a non-empty run of decimal digits.
pub open spec fn digits_val(s: Seq<char>) -> nat
    decreases s.len(),
{
    if s.len() == 0 {
        0
    } else {
        digits_val(s.drop_last()) * 10 + digit_val(s.last())
    }
}

/// Every character of `s` is a decimal digit.
pub open spec fn all_digits(s: Seq<char>) -> bool {
    forall|i: int| 0 <= i < s.len() ==> is_digit(#[trigger] s[i])
}

/// The unsigned number `str::parse` reads from `s` (optional `+`, then digits),
/// before any range check.
pub open spec fn unsigned_text(s: Seq<char>) -> Option<nat> {
    let body = if s.len() > 0 && s[0] == '+' { s.drop_first() } else { s };
    if body.len() > 0 && all_digits(body) {
        Some(digits_val(body))
    } else {
        None
    }
}

/// The signed number `str::parse` reads from `s` (optional `+` or `-`, then digits).
pub open spec fn signed_text(s: Seq<char>) -> Option<int> {
    if s.len() > 0 && s[0] == '-' {
        let body = s.drop_first();
        if body.len() > 0 && all_digits(body) {
            Some(-(digits_val(body) as int))
        } else {
            None
        }
    } else {
        match unsigned_text(s) {
            Some(n) => Some(n as int),
            None => None,
        }
    }
}

/// `u16::from_str`.
pub open spec fn parse_u16_spec(s: Seq<char>) -> Option<u16> {
    match unsigned_text(s) {
        Some(n) => if n <= u16::MAX {
            Some(n as u16)
        } else {
            None
        },
        None => None,
    }
}

/// `u64::from_str`.
pub open spec fn parse_u64_spec(s: Seq<char>) -> Option<u64> {
    match unsigned_text(s) {
        Some(n) => if n <= u64::MAX {
            Some(n as u64)
        } else {
            None
        },
        None => None,
    }
}

/// `i64::from_str`.
pub open spec fn parse_i64_spec(s: Seq<char>) -> Option<i64> {
    match signed_text(s) {
        Some(n) => if i64::MIN <= n && n <= i64::MAX {
            Some(n as i64)
        } else {
            None
        },
        None => None,
    }
}

/// The decimal digits of `n` (no sign, no leading zeros; `0` is `"0"`).
pub open spec fn dec(n: nat) -> Seq<char>
    decreases n,
{
    if n < 10 {
        seq![(('0' as u32) + n) as char]
    } else {
        dec(n / 10).push((('0' as u32) + (n % 10)) as char)
    }
}

/// `i64::to_string`.
pub open spec fn dec_i64(n: i64) -> Seq<char> {
    if n < 0 {
        seq!['-'] + dec((-(n as int)) as nat)
    } else {
        dec(n as nat)
    }
}

/// Appends one character (`String::push`).
#[verifier::external_body]
pub(crate) fn push_char(s: &mut String, c: char)
    ensures
        final(s)@ == old(s)@.push(c),
{
    s.push(c);
}

/// The characters of `s`, in order.
pub fn chars_of(s: &str) -> (v: Vec<char>)
    ensures
        v@ == s@,
{
    let mut v: Vec<char> = Vec::new();
    for c in it: s.chars()
        invariant
            v@ == it.seq().take(it.index() as int),
    {
        v.push(c);
    }
    v
}

/// A `String` holding `v[lo..hi]`.
pub fn string_of(v: &[char], lo: usize, hi: usize) -> (s: String)
    requires
        lo <= hi <= v@.len(),
    ensures
        s@ == v@.subrange(lo as int, hi as int),
{
    let mut s = String::new();
    let mut i = lo;
    while i < hi
        invariant
            lo <= i <= hi <= v@.len(),
            s@ == v@.subrange(lo as int, i as int),
        decreases hi - i,
    {
        push_char(&mut s, v[i]);
        i = i + 1;
        assert(s@ =~= v@.subrange(lo as int, i as int));
    }
    s
}

/// `String` copy of `s`.
pub fn to_owned(s: &str) -> (r: String)
    ensures
        r@ == s@,
{
    s.to_owned()
}


proof fn lemma_trim_start_skip(s: Seq<char>, i: int)
    requires
        0 <= i <= s.len(),
        forall|j: int| 0 <= j < i ==> is_ws(#[trigger] s[j]),
    ensures
        trim_start(s) == trim_start(s.skip(i)),
    decreases i,
{
    if i > 0 {
        assert(s.drop_first().skip(i - 1) =~= s.skip(i));
        assert forall|j: int| 0 <= j < i - 1 implies is_ws(#[trigger] s.drop_first()[j]) by {
            assert(s.drop_first()[j] == s[j + 1]);
        }
        lemma_trim_start_skip(s.drop_first(), i - 1);
    } else {
        assert(s.skip(0) =~= s);
    }
}

proof fn lemma_trim_end_take(s: Seq<char>, i: int)
    requires
        0 <= i <= s.len(),
        forall|j: int| i <= j < s.len() ==> is_ws(#[trigger] s[j]),
    ensures
        trim_end(s) == trim_end(s.take(i)),
    decreases s.len() - i,
{
    if i < s.len() {
        assert(s.drop_last().take(i) =~= s.take(i));
        lemma_trim_end_take(s.drop_last(), i);
    } else {
        assert(s.take(i) =~= s);
    }
}

/// Bounds `(lo, hi)` with `v[lo..hi]` equal to the trimmed `v`.
pub fn trim_bounds(v: &[char]) -> (r: (usize, usize))
    ensures
        r.0 <= r.1 <= v@.len(),
        v@.subrange(r.0 as int, r.1 as int) == trim(v@),
{
    let n = v.len();
    let mut lo: usize = 0;
    while lo < n && is_ws_exec(v[lo])
        invariant
            lo <= n == v@.len(),
            forall|j: int| 0 <= j < lo ==> is_ws(#[trigger] v@[j]),
        decreases n - lo,
    {
        lo = lo + 1;
    }
    proof {
        lemma_trim_start_skip(v@, lo as int);
        assert(trim_start(v@.skip(lo as int)) == v@.skip(lo as int));
    }
    let mut hi: usize = n;
    while hi > lo && is_ws_exec(v[hi - 1])
        invariant
            lo <= hi <= n == v@.len(),
            forall|j: int| hi <= j < n ==> is_ws(#[trigger] v@[j]),
        decreases hi - lo,
    {
        hi = hi - 1;
    }
    proof {
        let t = v@.skip(lo as int);
        assert forall|j: int| (hi - lo) <= j < t.len() implies is_ws(#[trigger] t[j]) by {
            assert(t[j] == v@[j + lo]);
        }
        lemma_trim_end_take(t, hi - lo);
        assert(t.take(hi - lo) =~= v@.subrange(lo as int, hi as int));
        let u = t.take(hi - lo);
        if u.len() > 0 {
            assert(u.last() == v@[hi - 1]);
        }
    }
    (lo, hi)
}

/// `char::is_whitespace`.
pub fn is_ws_exec(c: char) -> (b: bool)
    ensures
        b == is_ws(c),
{
    let u = c as u32;
    (0x9 <= u && u <= 0xd) || u == 0x20 || u == 0x85 || u == 0xa0 || u == 0x1680 || (0x2000
        <= u && u <= 0x200a) || u == 0x2028 || u == 0x2029 || u == 0x202f || u == 0x205f || u
        == 0x3000
}

/// `str::trim`, as an owned string.
pub fn trim_str(s: &str) -> (r: String)
    ensures
        r@ == trim(s@),
{
    let v = chars_of(s);
    let (lo, hi) = trim_bounds(v.as_slice());
    string_of(v.as_slice(), lo, hi)
}

/// Whether `s` is empty once trimmed.
pub fn is_blank(s: &str) -> (b: bool)
    ensures
        b == (trim(s@).len() == 0),
{
    let v = chars_of(s);
    let (lo, hi) = trim_bounds(v.as_slice());
    lo == hi
}

/// `char::to_ascii_lowercase`.
pub fn lower_exec(c: char) -> (r: char)
    ensures
        r == lower(c),
{
    if 'A' <= c && c <= 'Z' {
        let u: u8 = (c as u8) + 32;
        u as char
    } else {
        c
    }
}

/// `str::to_ascii_lowercase`.
pub fn lower_str(s: &str) -> (r: String)
    ensures
        r@ == lower_seq(s@),
{
    let v = chars_of(s);
    let mut r = String::new();
    let mut i: usize = 0;
    while i < v.len()
        invariant
            i <= v@.len(),
            v@ == s@,
            r@ == lower_seq(v@.take(i as int)),
        decreases v@.len() - i,
    {
        push_char(&mut r, lower_exec(v[i]));
        i = i + 1;
        assert(lower_seq(v@.take(i as int)) =~= lower_seq(v@.take(i - 1)).push(lower(v@[i - 1])));
    }
    assert(v@.take(v@.len() as int) =~= v@);
    r
}

/// `str::eq_ignore_ascii_case`.
pub fn eq_ignore_case_exec(a: &str, b: &str) -> (r: bool)
    ensures
        r == eq_ignore_case(a@, b@),
{
    let x = chars_of(a);
    let y = chars_of(b);
    if x.len() != y.len() {
        assert(lower_seq(a@).len() != lower_seq(b@).len());
        return false;
    }
    let mut i: usize = 0;
    while i < x.len()
        invariant
            i <= x@.len() == y@.len(),
            x@ == a@,
            y@ == b@,
            forall|j: int| 0 <= j < i ==> lower(x@[j]) == lower(y@[j]),
        decreases x@.len() - i,
    {
        if lower_exec(x[i]) != lower_exec(y[i]) {
            assert(lower_seq(a@)[i as int] != lower_seq(b@)[i as int]);
            return false;
        }
        i = i + 1;
    }
    assert(lower_seq(a@) =~= lower_seq(b@));
    true
}

/// Whether two strings hold the same characters.
pub fn str_eq(a: &str, b: &str) -> (r: bool)
    ensures
        r == (a@ == b@),
{
    let x = chars_of(a);
    let y = chars_of(b);
    if x.len() != y.len() {
        return false;
    }
    let mut i: usize = 0;
    while i < x.len()
        invariant
            i <= x@.len() == y@.len(),
            x@ == a@,
            y@ == b@,
            forall|j: int| 0 <= j < i ==> x@[j] == y@[j],
        decreases x@.len() - i,
    {
        if x[i] != y[i] {
            return false;
        }
        i = i + 1;
    }
    assert(x@ =~= y@);
    true
}

/// Pieces of `v` between occurrences of `d` (`str::split`).
pub fn split_chars(v: &[char], d: char) -> (r: Vec<Vec<char>>)
    ensures
        r@.map_values(|x: Vec<char>| x@) == split(v@, d),
        r@.len() >= 1,
{
    proof {
        lemma_split_len(v@, d);
    }
    let mut acc: Vec<Vec<char>> = Vec::new();
    acc.push(Vec::new());
    let mut i: usize = v.len();
    assert(v@.skip(i as int) =~= Seq::<char>::empty());
    assert(acc@.map_values(|x: Vec<char>| x@) =~= split(v@.skip(i as int), d));
    while i > 0
        invariant
            i <= v@.len(),
            acc@.len() > 0,
            acc@.map_values(|x: Vec<char>| x@) == split(v@.skip(i as int), d),
        decreases i,
    {
        let c = v[i - 1];
        let ghost old_acc = acc@.map_values(|x: Vec<char>| x@);
        proof {
            let t = v@.skip(i - 1);
            assert(t.drop_first() =~= v@.skip(i as int));
            assert(t[0] == c);
        }
        if c == d {
            acc.insert(0, Vec::new());
            assert(acc@.map_values(|x: Vec<char>| x@) =~= seq![Seq::<char>::empty()] + old_acc);
        } else {
            let mut first = acc.remove(0);
            first.insert(0, c);
            acc.insert(0, first);
            assert(first@ =~= seq![c] + old_acc[0]);
            assert(acc@.map_values(|x: Vec<char>| x@) =~= old_acc.update(0, seq![c] + old_acc[0]));
        }
        i = i - 1;
    }
    assert(v@.skip(0) =~= v@);
    acc
}

/// `str::split(d)`, as owned strings.
pub fn split_str(s: &str, d: char) -> (r: Vec<String>)
    ensures
        r@.map_values(|x: String| x@) == split(s@, d),
        r@.len() >= 1,
{
    let v = chars_of(s);
    let parts = split_chars(v.as_slice(), d);
    let mut out: Vec<String> = Vec::new();
    let mut i: usize = 0;
    while i < parts.len()
        invariant
            i <= parts@.len(),
            parts@.map_values(|x: Vec<char>| x@) == split(s@, d),
            out@.len() == i,
            forall|j: int| 0 <= j < i ==> #[trigger] out@[j]@ == parts@[j]@,
        decreases parts@.len() - i,
    {
        let p = string_of(parts[i].as_slice(), 0, parts[i].len());
        assert(parts[i as int]@.subrange(0, parts[i as int]@.len() as int) =~= parts[i as int]@);
        out.push(p);
        i = i + 1;
    }
    assert(out@.map_values(|x: String| x@) =~= parts@.map_values(|x: Vec<char>| x@));
    out
}

proof fn lemma_find_first(s: Seq<char>, d: char, i: int)
    requires
        0 <= i <= s.len(),
        forall|j: int| 0 <= j < i ==> s[j] != d,
    ensures
        i < s.len() && s[i] == d ==> find(s, d) == Some(i),
        i == s.len() ==> find(s, d) is None,
    decreases i,
{
    if i > 0 {
        assert forall|j: int| 0 <= j < i - 1 implies s.drop_first()[j] != d by {
            assert(s.drop_first()[j] == s[j + 1]);
        }
        lemma_find_first(s.drop_first(), d, i - 1);
    } else if s.len() > 0 {
    }
}

/// Index of the first `d` in `v`, if any.
pub fn find_char(v: &[char], d: char) -> (r: Option<usize>)
    ensures
        match r {
            Some(i) => find(v@, d) == Some(i as int) && i < v@.len() && v@[i as int] == d,
            None => find(v@, d) is None,
        },
{
    let mut i: usize = 0;
    while i < v.len()
        invariant
            i <= v@.len(),
            forall|j: int| 0 <= j < i ==> v@[j] != d,
        decreases v@.len() - i,
    {
        if v[i] == d {
            proof {
                lemma_find_first(v@, d, i as int);
            }
            return Some(i);
        }
        i = i + 1;
    }
    proof {
        lemma_find_first(v@, d, i as int);
    }
    None
}

/// `str::split_once(d)`, as owned strings.
pub fn split_once_str(s: &str, d: char) -> (r: Option<(String, String)>)
    ensures
        match r {
            Some(p) => split_once(s@, d) == Some((p.0@, p.1@)),
            None => split_once(s@, d) is None,
        },
{
    let v = chars_of(s);
    match find_char(v.as_slice(), d) {
        Some(i) => {
            let a = string_of(v.as_slice(), 0, i);
            let b = string_of(v.as_slice(), i + 1, v.len());
            assert(a@ =~= s@.take(i as int));
            assert(b@ =~= s@.skip(i + 1));
            Some((a, b))
        },
        None => None,
    }
}

proof fn lemma_digits_take_le(s: Seq<char>, k: int)
    requires
        0 <= k <= s.len(),
        all_digits(s),
    ensures
        digits_val(s.take(k)) <= digits_val(s),
    decreases s.len() - k,
{
    if k < s.len() {
        lemma_digits_take_le(s, k + 1);
        assert(s.take(k + 1).drop_last() =~= s.take(k));
    } else {
        assert(s.take(k) =~= s);
    }
}

/// The value of the decimal digits `v[lo..hi]` when they are all digits, there is
/// at least one, and the value fits in `u64`.
pub fn digits_in(v: &[char], lo: usize, hi: usize) -> (r: Option<u64>)
    requires
        lo <= hi <= v@.len(),
    ensures
        ({
            let b = v@.subrange(lo as int, hi as int);
            match r {
                Some(n) => b.len() > 0 && all_digits(b) && digits_val(b) == n,
                None => !(b.len() > 0 && all_digits(b) && digits_val(b) <= u64::MAX),
            }
        }),
{
    let ghost b = v@.subrange(lo as int, hi as int);
    if lo == hi {
        return None;
    }
    let mut acc: u64 = 0;
    let mut i = lo;
    while i < hi
        invariant
            lo <= i <= hi <= v@.len(),
            b == v@.subrange(lo as int, hi as int),
            all_digits(b.take(i - lo)),
            digits_val(b.take(i - lo)) == acc,
        decreases hi - i,
    {
        let c = v[i];
        if !('0' <= c && c <= '9') {
            assert(!is_digit(b[i - lo]));
            return None;
        }
        let dv: u64 = ((c as u32) - ('0' as u32)) as u64;
        proof {
            assert(b.take(i - lo + 1).drop_last() =~= b.take(i - lo));
            assert(b.take(i - lo + 1).last() == c);
        }
        match acc.checked_mul(10) {
            Some(m) => match m.checked_add(dv) {
                Some(n) => {
                    acc = n;
                },
                None => {
                    proof {
                        if all_digits(b) {
                            lemma_digits_take_le(b, i - lo + 1);
                        }
                    }
                    return None;
                },
            },
            None => {
                proof {
                    if all_digits(b) {
                        lemma_digits_take_le(b, i - lo + 1);
                    }
                }
                return None;
            },
        }
        i = i + 1;
        assert(all_digits(b.take(i - lo)));
    }
    assert(b.take(hi - lo) =~= b);
    Some(acc)
}

/// `u64::from_str`.
pub fn parse_u64(s: &str) -> (r: Option<u64>)
    ensures
        r == parse_u64_spec(s@),
{
    let v = chars_of(s);
    let lo: usize = if v.len() > 0 && v[0] == '+' { 1 } else { 0 };
    let r = digits_in(v.as_slice(), lo, v.len());
    proof {
        let body = if s@.len() > 0 && s@[0] == '+' { s@.drop_first() } else { s@ };
        assert(body =~= v@.subrange(lo as int, v@.len() as int));
    }
    r
}

/// `u16::from_str`.
pub fn parse_u16(s: &str) -> (r: Option<u16>)
    ensures
        r == parse_u16_spec(s@),
{
    match parse_u64(s) {
        Some(n) => if n <= 65535 {
            Some(n as u16)
        } else {
            None
        },
        None => {
            proof {
                let body = if s@.len() > 0 && s@[0] == '+' { s@.drop_first() } else { s@ };
            }
            None
        },
    }
}

/// `i64::from_str`.
pub fn parse_i64(s: &str) -> (r: Option<i64>)
    ensures
        r == parse_i64_spec(s@),
{
    let v = chars_of(s);
    if v.len() > 0 && v[0] == '-' {
        let r = digits_in(v.as_slice(), 1, v.len());
        assert(s@.drop_first() =~= v@.subrange(1, v@.len() as int));
        match r {
            Some(n) => if n <= 9223372036854775808u64 {
                if n == 9223372036854775808u64 {
                    Some(i64::MIN)
                } else {
                    Some(-(n as i64))
                }
            } else {
                None
            },
            None => None,
        }
    } else {
        let lo: usize = if v.len() > 0 && v[0] == '+' { 1 } else { 0 };
        let r = digits_in(v.as_slice(), lo, v.len());
        proof {
            let body = if s@.len() > 0 && s@[0] == '+' { s@.drop_first() } else { s@ };
            assert(body =~= v@.subrange(lo as int, v@.len() as int));
        }
        match r {
            Some(n) => if n <= 9223372036854775807u64 {
                Some(n as i64)
            } else {
                None
            },
            None => None,
        }
    }
}

/// Appends the decimal digits of `n`.
pub fn push_dec(out: &mut String, n: u64)
    ensures
        final(out)@ == old(out)@ + dec(n as nat),
    decreases n,
{
    if n < 10 {
        let c = (('0' as u8) + (n as u8)) as char;
        push_char(out, c);
        assert(dec(n as nat) =~= seq![c]);
    } else {
        push_dec(out, n / 10);
        let c = (('0' as u8) + ((n % 10) as u8)) as char;
        push_char(out, c);
        assert(dec(n as nat) =~= dec((n / 10) as nat).push(c));
    }
}

/// `u64::to_string`.
pub fn u64_to_string(n: u64) -> (r: String)
    ensures
        r@ == dec(n as nat),
{
    let mut s = String::new();
    push_dec(&mut s, n);
    assert(s@ =~= dec(n as nat));
    s
}

/// `i64::to_string`.
pub fn i64_to_string(n: i64) -> (r: String)
    ensures
        r@ == dec_i64(n),
{
    let mut s = String::new();
    if n < 0 {
        push_char(&mut s, '-');
        let m: u64 = if n == i64::MIN { 9223372036854775808u64 } else { (-n) as u64 };
        push_dec(&mut s, m);
    } else {
        push_dec(&mut s, n as u64);
    }
    s
}

proof fn lemma_dec_digits(n: nat)
    ensures
        dec(n).len() > 0,
        all_digits(dec(n)),
        digits_val(dec(n)) == n,
        dec(n)[0] != '+' && dec(n)[0] != '-',
    decreases n,
{
    if n < 10 {
        let c = (('0' as u32) + n) as char;
        assert(c as u32 == ('0' as u32) + n);
        assert(dec(n).drop_last() =~= Seq::<char>::empty());
        assert(digits_val(Seq::<char>::empty()) == 0);
        assert(dec(n).last() == c);
        assert(digit_val(c) == n);
        assert(digits_val(dec(n)) == digits_val(dec(n).drop_last()) * 10 + digit_val(dec(n).last()));
    } else {
        lemma_dec_digits(n / 10);
        let c = (('0' as u32) + (n % 10)) as char;
        let d = dec(n / 10).push(c);
        assert(d.drop_last() =~= dec(n / 10));
        assert(c as u32 == ('0' as u32) + (n % 10));
        assert(digit_val(d.last()) == n % 10);
        assert(digits_val(d) == digits_val(dec(n / 10)) * 10 + n % 10);
        assert((n / 10) * 10 + n % 10 == n);
        assert forall|i: int| 0 <= i < d.len() implies is_digit(#[trigger] d[i]) by {
            if i < d.len() - 1 {
                assert(d[i] == dec(n / 10)[i]);
            }
        }
    }
}

/// Reading back a written `u64` gives the number.
pub proof fn lemma_parse_u64_dec(n: u64)
    ensures
        parse_u64_spec(dec(n as nat)) == Some(n),
{
    lemma_dec_digits(n as nat);
}

/// Reading back a written `i64` gives the number.
pub proof fn lemma_parse_i64_dec(n: i64)
    ensures
        parse_i64_spec(dec_i64(n)) == Some(n),
{
    if n < 0 {
        let m = (-(n as int)) as nat;
        lemma_dec_digits(m);
        assert((seq!['-'] + dec(m)).drop_first() =~= dec(m));
    } else {
        lemma_dec_digits(n as nat);
    }
}


/// The characters of each string.
pub open spec fn strs_view(v: Seq<String>) -> Seq<Seq<char>> {
    v.map_values(|s: String| s@)
}

/// The trimmed, non-empty pieces of `parts`, in order.
pub open spec fn trimmed_nonempty(parts: Seq<Seq<char>>) -> Seq<Seq<char>>
    decreases parts.len(),
{
    if parts.len() == 0 {
        Seq::empty()
    } else {
        let r = trimmed_nonempty(parts.drop_last());
        if trim(parts.last()).len() > 0 {
            r.push(trim(parts.last()))
        } else {
            r
        }
    }
}

/// `parts` joined with `d` between consecutive pieces (`[..].join(d)`).
pub open spec fn join(parts: Seq<Seq<char>>, d: char) -> Seq<char>
    decreases parts.len(),
{
    if parts.len() == 0 {
        Seq::empty()
    } else if parts.len() == 1 {
        parts[0]
    } else {
        parts[0] + seq![d] + join(parts.drop_first(), d)
    }
}

/// The trimmed, non-empty `d`-separated pieces of `s`
/// (`s.split(d).map(str::trim).filter(|p| !p.is_empty())`).
pub fn split_trim_nonempty(s: &str, d: char) -> (r: Vec<String>)
    ensures
        r@.map_values(|x: String| x@) == trimmed_nonempty(split(s@, d)),
{
    let parts = split_str(s, d);
    let ghost ps = parts@.map_values(|x: String| x@);
    let mut out: Vec<String> = Vec::new();
    let mut i: usize = 0;
    while i < parts.len()
        invariant
            i <= parts@.len(),
            ps == parts@.map_values(|x: String| x@),
            ps == split(s@, d),
            out@.map_values(|x: String| x@) == trimmed_nonempty(ps.take(i as int)),
        decreases parts@.len() - i,
    {
        let t = trim_str(parts[i].as_str());
        proof {
            assert(ps.take(i + 1).drop_last() =~= ps.take(i as int));
            assert(ps.take(i + 1).last() == parts@[i as int]@);
        }
        if !t.as_str().is_empty() {
            let ghost before = out@.map_values(|x: String| x@);
            out.push(t);
            assert(out@.map_values(|x: String| x@) =~= before.push(t@));
        }
        i = i + 1;
    }
    assert(ps.take(i as int) =~= ps);
    out
}

/// The strings of `parts` joined with `d`.
pub fn join_strs(parts: &[String], d: char) -> (r: String)
    ensures
        r@ == join(parts@.map_values(|x: String| x@), d),
{
    let ghost ps = parts@.map_values(|x: String| x@);
    let mut r = String::new();
    if parts.len() == 0 {
        return r;
    }
    let mut i: usize = parts.len() - 1;
    r.append(parts[i].as_str());
    proof {
        assert(ps.skip(i as int).len() == 1);
        assert(ps.skip(i as int)[0] == ps[i as int]);
    }
    while i > 0
        invariant
            i < parts@.len(),
            ps == parts@.map_values(|x: String| x@),
            r@ == join(ps.skip(i as int), d),
        decreases i,
    {
        let mut t = to_owned(parts[i - 1].as_str());
        push_char(&mut t, d);
        t.append(r.as_str());
        proof {
            let q = ps.skip(i - 1);
            assert(q.drop_first() =~= ps.skip(i as int));
            assert(q[0] == ps[i - 1]);
            assert(q.len() > 1);
            assert(t@ =~= q[0] + seq![d] + join(q.drop_first(), d));
        }
        r = t;
        i = i - 1;
    }
    assert(ps.skip(0) =~= ps);
    r
}

/// A piece with no `d` splits into itself.
pub proof fn lemma_split_no_delim(s: Seq<char>, d: char)
    requires
        !s.contains(d),
    ensures
        split(s, d) == seq![s],
    decreases s.len(),
{
    if s.len() > 0 {
        let t = s.drop_first();
        assert(!t.contains(d)) by {
            if t.contains(d) {
                let i = choose|i: int| 0 <= i < t.len() && t[i] == d;
                assert(s[i + 1] == d);
            }
        }
        lemma_split_no_delim(t, d);
        assert(s[0] != d) by {
            assert(s[0] == s[0]);
            if s[0] == d {
                assert(s.contains(d));
            }
        }
        assert(seq![s[0]] + t =~= s);
    } else {
        assert(s =~= Seq::<char>::empty());
    }
}

/// Splitting `x`, a `d`, then `y`, where `x` has no `d`, gives `x` and then the pieces of `y`.
pub proof fn lemma_split_prefix(x: Seq<char>, y: Seq<char>, d: char)
    requires
        !x.contains(d),
    ensures
        split(x + seq![d] + y, d) == seq![x] + split(y, d),
    decreases x.len(),
{
    let s = x + seq![d] + y;
    lemma_split_len(y, d);
    if x.len() == 0 {
        assert(s[0] == d);
        assert(s.drop_first() =~= y);
        assert(x =~= Seq::<char>::empty());
    } else {
        let xt = x.drop_first();
        assert(!xt.contains(d)) by {
            if xt.contains(d) {
                let i = choose|i: int| 0 <= i < xt.len() && xt[i] == d;
                assert(x[i + 1] == d);
            }
        }
        lemma_split_prefix(xt, y, d);
        assert(s.drop_first() =~= xt + seq![d] + y);
        assert(s[0] == x[0]);
        assert(x[0] != d) by {
            if x[0] == d {
                assert(x.contains(d));
            }
        }
        assert(seq![x[0]] + xt =~= x);
        assert((seq![xt] + split(y, d)).update(0, seq![x[0]] + xt) =~= seq![x] + split(y, d));
    }
}

/// Joining pieces that hold no `d` and splitting again gives the pieces back.
pub proof fn lemma_split_join(ts: Seq<Seq<char>>, d: char)
    requires
        ts.len() > 0,
        forall|i: int| 0 <= i < ts.len() ==> !(#[trigger] ts[i]).contains(d),
    ensures
        split(join(ts, d), d) == ts,
    decreases ts.len(),
{
    if ts.len() == 1 {
        lemma_split_no_delim(ts[0], d);
        assert(seq![ts[0]] =~= ts);
    } else {
        let rest = ts.drop_first();
        assert forall|i: int| 0 <= i < rest.len() implies !(#[trigger] rest[i]).contains(d) by {
            assert(rest[i] == ts[i + 1]);
        }
        lemma_split_join(rest, d);
        assert(!ts[0].contains(d));
        lemma_split_prefix(ts[0], join(rest, d), d);
        assert(seq![ts[0]] + rest =~= ts);
    }
}

/// Trimming and dropping empty pieces changes nothing when every piece is
/// already trimmed and non-empty.
pub proof fn lemma_trimmed_nonempty_id(ts: Seq<Seq<char>>)
    requires
        forall|i: int| 0 <= i < ts.len() ==> (#[trigger] ts[i]).len() > 0 && trim(ts[i]) == ts[i],
    ensures
        trimmed_nonempty(ts) == ts,
    decreases ts.len(),
{
    if ts.len() > 0 {
        let t = ts.drop_last();
        assert forall|i: int| 0 <= i < t.len() implies (#[trigger] t[i]).len() > 0 && trim(t[i]) == t[i] by {
            assert(t[i] == ts[i]);
        }
        lemma_trimmed_nonempty_id(t);
        assert(ts[ts.len() - 1] == ts.last());
        assert(t.push(ts.last()) =~= ts);
    }
}

/// An owned copy of a list of strings.
pub fn copy_strings(v: &Vec<String>) -> (r: Vec<String>)
    ensures
        r@ == v@,
{
    let mut r: Vec<String> = Vec::new();
    let mut i: usize = 0;
    while i < v.len()
        invariant
            i <= v@.len(),
            r@ == v@.take(i as int),
        decreases v@.len() - i,
    {
        r.push(v[i].clone());
        assert(r@ =~= v@.take(i + 1));
        i = i + 1;
    }
    assert(v@.take(i as int) =~= v@);
    r
}

} // verus!
