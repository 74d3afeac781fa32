//! Character-level helpers shared by the formatting and parsing code:
//! appending to strings, fixed-width hexadecimal and decimal rendering,
//! and radix parsing of unsigned numbers.
use vstd::prelude::*;

verus! {

/// Appends one character to a string (`String::push`).
#[verifier::external_body]
pub(crate) fn string_push(s: &mut String, c: char)
    ensures
        final(s)@ == old(s)@.push(c),
{
    s.push(c);
}

/// The lower-case hexadecimal digit for a value below 16.
pub open spec fn hex_digit(d: nat) -> char {
    if d == 0 { '0' } else if d == 1 { '1' } else if d == 2 { '2' } else if d == 3 { '3' }
    else if d == 4 { '4' } else if d == 5 { '5' } else if d == 6 { '6' } else if d == 7 { '7' }
    else if d == 8 { '8' } else if d == 9 { '9' } else if d == 10 { 'a' } else if d == 11 { 'b' }
    else if d == 12 { 'c' } else if d == 13 { 'd' } else if d == 14 { 'e' } else { 'f' }
}

/// A 16-bit value as exactly four lower-case hexadecimal digits (`{:04x}`).
pub open spec fn hex4(v: u16) -> Seq<char> {
    seq![hex_digit((v / 4096) as nat), hex_digit(((v / 256) % 16) as nat),
         hex_digit(((v / 16) % 16) as nat), hex_digit((v % 16) as nat)]
}

/// The decimal representation of a natural number, without sign or padding.
pub open spec fn decimal(n: nat) -> Seq<char>
    decreases n,
{
    if n < 10 {
        seq![hex_digit(n)]
    } else {
        decimal(n / 10).push(hex_digit(n % 10))
    }
}

pub fn hex_digit_exec(d: u64) -> (c: char)
    requires
        d < 16,
    ensures
        c == hex_digit(d as nat),
{
    if d == 0 { '0' } else if d == 1 { '1' } else if d == 2 { '2' } else if d == 3 { '3' }
    else if d == 4 { '4' } else if d == 5 { '5' } else if d == 6 { '6' } else if d == 7 { '7' }
    else if d == 8 { '8' } else if d == 9 { '9' } else if d == 10 { 'a' } else if d == 11 { 'b' }
    else if d == 12 { 'c' } else if d == 13 { 'd' } else if d == 14 { 'e' } else { 'f' }
}

/// Appends `v` as four lower-case hexadecimal digits.
pub fn push_hex4(s: &mut String, v: u16)
    ensures
        final(s)@ == old(s)@ + hex4(v),
{
    string_push(s, hex_digit_exec((v / 4096) as u64));
    string_push(s, hex_digit_exec(((v / 256) % 16) as u64));
    string_push(s, hex_digit_exec(((v / 16) % 16) as u64));
    string_push(s, hex_digit_exec((v % 16) as u64));
    assert(final(s)@ =~= old(s)@ + hex4(v));
}

/// Appends the decimal representation of `n`.
pub fn push_decimal(s: &mut String, n: u64)
    ensures
        final(s)@ == old(s)@ + decimal(n as nat),
    decreases n,
{
    if n >= 10 {
        push_decimal(s, n / 10);
    }
    string_push(s, hex_digit_exec(n % 10));
    assert(final(s)@ =~= old(s)@ + decimal(n as nat));
}

/// Appends all characters of `t`.
pub fn push_str(s: &mut String, t: &str)
    ensures
        final(s)@ == old(s)@ + t@,
{
    let n = t.unicode_len();
    let mut i: usize = 0;
    while i < n
        invariant
            n == t@.len(),
            i <= n,
            s@ == old(s)@ + t@.subrange(0, i as int),
        decreases n - i,
    {
        let c = t.get_char(i);
        string_push(s, c);
        i = i + 1;
        assert(s@ =~= old(s)@ + t@.subrange(0, i as int));
    }
    assert(t@.subrange(0, n as int) =~= t@);
}

/// Copies the characters of a string into a vector.
pub fn chars_of(t: &str) -> (v: Vec<char>)
    ensures
        v@ == t@,
{
    let n = t.unicode_len();
    let mut v: Vec<char> = Vec::new();
    let mut i: usize = 0;
    while i < n
        invariant
            n == t@.len(),
            i <= n,
            v@ == t@.subrange(0, i as int),
        decreases n - i,
    {
        v.push(t.get_char(i));
        i = i + 1;
        assert(v@ =~= t@.subrange(0, i as int));
    }
    assert(t@.subrange(0, n as int) =~= t@);
    v
}

/// Builds a string from the characters of a slice of a vector.
pub fn string_from_chars(v: &Vec<char>, lo: usize, hi: usize) -> (s: String)
    requires
        lo <= hi <= v@.len(),
    ensures
        s@ == v@.subrange(lo as int, hi as int),
{
    let mut s = String::new();
    let mut i = lo;
    while i < hi
        invariant
            lo <= i <= hi,
            hi <= v@.len(),
            s@ == v@.subrange(lo as int, i as int),
        decreases hi - i,
    {
        string_push(&mut s, v[i]);
        i = i + 1;
        assert(s@ =~= v@.subrange(lo as int, i as int));
    }
    s
}

/// The value of a digit character in the given radix (10 or 16), if it is one.
pub open spec fn digit_value(c: char, radix: nat) -> Option<nat> {
    if '0' <= c && c <= '9' && (c as nat) - ('0' as nat) < radix {
        Some(((c as nat) - ('0' as nat)) as nat)
    } else if radix == 16 && 'a' <= c && c <= 'f' {
        Some(((c as nat) - ('a' as nat) + 10) as nat)
    } else if radix == 16 && 'A' <= c && c <= 'F' {
        Some(((c as nat) - ('A' as nat) + 10) as nat)
    } else {
        None
    }
}

pub open spec fn all_digits(s: Seq<char>, radix: nat) -> bool {
    forall|i: int| 0 <= i < s.len() ==> (#[trigger] digit_value(s[i], radix)) is Some
}

/// The number that a run of digits denotes.
pub open spec fn digits_value(s: Seq<char>, radix: nat) -> nat
    decreases s.len(),
{
    if s.len() == 0 {
        0
    } else {
        digits_value(s.drop_last(), radix) * radix + digit_value(s.last(), radix).unwrap()
    }
}

/// What `from_str_radix` gives for an unsigned type whose largest value is `max`:
/// an optional leading `+`, then at least one digit, and a value that fits.
pub open spec fn parse_unsigned(s: Seq<char>, radix: nat, max: nat) -> Option<nat> {
    let d = if s.len() > 0 && s[0] == '+' { s.drop_first() } else { s };
    if d.len() > 0 && all_digits(d, radix) && digits_value(d, radix) <= max {
        Some(digits_value(d, radix))
    } else {
        None
    }
}

pub fn digit_value_exec(c: char, radix: u32) -> (r: Option<u32>)
    requires
        radix == 10 || radix == 16,
    ensures
        r is Some <==> digit_value(c, radix as nat) is Some,
        r is Some ==> r->0 as nat == digit_value(c, radix as nat)->0 && r->0 < radix,
{
    if '0' <= c && c <= '9' && (c as u32) - ('0' as u32) < radix {
        Some((c as u32) - ('0' as u32))
    } else if radix == 16 && 'a' <= c && c <= 'f' {
        Some((c as u32) - ('a' as u32) + 10)
    } else if radix == 16 && 'A' <= c && c <= 'F' {
        Some((c as u32) - ('A' as u32) + 10)
    } else {
        None
    }
}

proof fn lemma_digits_value_prefix(s: Seq<char>, radix: nat, i: int)
    requires
        0 <= i < s.len(),
    ensures
        digits_value(s.subrange(0, i + 1), radix) == digits_value(s.subrange(0, i), radix) * radix
            + digit_value(s[i], radix).unwrap(),
{
    assert(s.subrange(0, i + 1).drop_last() =~= s.subrange(0, i));
}

proof fn lemma_digits_value_mono(s: Seq<char>, radix: nat, i: int)
    requires
        0 <= i <= s.len(),
        radix >= 1,
        all_digits(s, radix),
    ensures
        digits_value(s.subrange(0, i), radix) <= digits_value(s, radix),
    decreases s.len() - i,
{
    if i < s.len() {
        lemma_digits_value_mono(s, radix, i + 1);
        lemma_digits_value_prefix(s, radix, i);
        let v = digits_value(s.subrange(0, i), radix);
        assert(v * radix >= v) by (nonlinear_arith)
            requires radix >= 1;
    } else {
        assert(s.subrange(0, i) =~= s);
    }
}

/// Parses an unsigned number the way `from_str_radix` does for a type whose
/// largest value is `max`.
pub fn parse_unsigned_exec(s: &str, radix: u32, max: u64) -> (r: Option<u64>)
    requires
        radix == 10 || radix == 16,
    ensures
        r is Some <==> parse_unsigned(s@, radix as nat, max as nat) is Some,
        r is Some ==> r->0 as nat == parse_unsigned(s@, radix as nat, max as nat)->0,
{
    let v = chars_of(s);
    let n = v.len();
    let start: usize = if n > 0 && v[0] == '+' { 1 } else { 0 };
    let ghost d = if s@.len() > 0 && s@[0] == '+' { s@.drop_first() } else { s@ };
    assert(d =~= v@.subrange(start as int, n as int));
    if start >= n {
        return None;
    }
    let mut acc: u128 = 0;
    let mut i = start;
    while i < n
        invariant
            start <= i <= n,
            n == v@.len(),
            d == v@.subrange(start as int, n as int),
            d == (if s@.len() > 0 && s@[0] == '+' { s@.drop_first() } else { s@ }),
            radix == 10 || radix == 16,
            acc as nat == digits_value(d.subrange(0, i - start), radix as nat),
            all_digits(d.subrange(0, i - start), radix as nat),
            acc <= max,
        decreases n - i,
    {
        let dv = digit_value_exec(v[i], radix);
        proof {
            assert(d[i - start] == v@[i as int]);
        }
        match dv {
            None => {
                proof {
                    assert(digit_value(d[i - start], radix as nat) is None);
                    assert(!all_digits(d, radix as nat));
                }
                return None;
            }
            Some(x) => {
                proof {
                    lemma_digits_value_prefix(d, radix as nat, i - start);
                    assert(acc * (radix as u128) <= (max as u128) * 16) by (nonlinear_arith)
                        requires acc <= max, radix <= 16;
                }
                let next = acc * (radix as u128) + (x as u128);
                if next > max as u128 {
                    proof {
                        assert(all_digits(d.subrange(0, i + 1 - start), radix as nat)) by {
                            assert forall|j: int| 0 <= j < i + 1 - start implies
                                (#[trigger] digit_value(d.subrange(0, i + 1 - start)[j], radix as nat)) is Some by {
                                if j < i - start {
                                    assert(d.subrange(0, i + 1 - start)[j] == d.subrange(0, i - start)[j]);
                                }
                            }
                        }
                        if all_digits(d, radix as nat) {
                            lemma_digits_value_mono(d, radix as nat, i + 1 - start);
                        }
                    }
                    return None;
                }
                acc = next;
                i = i + 1;
                proof {
                    assert forall|j: int| 0 <= j < i - start implies
                        (#[trigger] digit_value(d.subrange(0, i - start)[j], radix as nat)) is Some by {
                        if j < i - 1 - start {
                            assert(d.subrange(0, i - start)[j] == d.subrange(0, i - 1 - start)[j]);
                        }
                    }
                }
            }
        }
    }
    assert(d.subrange(0, n - start) =~= d);
    Some(acc as u64)
}

} // verus!

verus! {

/// Whether `s` begins with `p`.
pub open spec fn has_prefix(s: Seq<char>, p: Seq<char>) -> bool {
    p.len() <= s.len() && s.subrange(0, p.len() as int) == p
}

/// Whether `t` occurs in `s` starting at position `i`.
pub open spec fn occurs_at(s: Seq<char>, t: Seq<char>, i: int) -> bool {
    0 <= i && i + t.len() <= s.len() && s.subrange(i, i + t.len()) == t
}

/// Whether `t` occurs somewhere in `s`.
pub open spec fn contains_str(s: Seq<char>, t: Seq<char>) -> bool {
    exists|i: int| occurs_at(s, t, i)
}

fn matches_at(s: &Vec<char>, t: &Vec<char>, i: usize) -> (r: bool)
    requires
        i + t.len() <= s.len(),
    ensures
        r == occurs_at(s@, t@, i as int),
{
    let mut j: usize = 0;
    while j < t.len()
        invariant
            j <= t@.len(),
            i + t.len() <= s.len(),
            forall|k: int| 0 <= k < j ==> s@[i + k] == t@[k],
        decreases t@.len() - j,
    {
        if s[i + j] != t[j] {
            assert(s@.subrange(i as int, i + t@.len())[j as int] != t@[j as int]);
            return false;
        }
        j = j + 1;
    }
    assert(s@.subrange(i as int, i + t@.len()) =~= t@);
    true
}

/// Whether `s` begins with `p` (`str::starts_with`).
pub fn starts_with(s: &str, p: &str) -> (r: bool)
    ensures
        r == has_prefix(s@, p@),
{
    let sv = chars_of(s);
    let pv = chars_of(p);
    if pv.len() > sv.len() {
        return false;
    }
    matches_at(&sv, &pv, 0)
}

/// Whether `t` occurs in `s` (`str::contains`).
pub fn contains(s: &str, t: &str) -> (r: bool)
    ensures
        r == contains_str(s@, t@),
{
    let sv = chars_of(s);
    let tv = chars_of(t);
    if tv.len() > sv.len() {
        assert forall|i: int| !occurs_at(s@, t@, i) by {}
        return false;
    }
    let last = sv.len() - tv.len();
    let mut i: usize = 0;
    while i < last
        invariant
            last == sv@.len() - tv@.len(),
            i <= last,
            tv@.len() <= sv@.len(),
            sv@ == s@,
            tv@ == t@,
            forall|k: int| 0 <= k < i ==> !occurs_at(s@, t@, k),
        decreases last - i,
    {
        if matches_at(&sv, &tv, i) {
            return true;
        }
        i = i + 1;
    }
    if matches_at(&sv, &tv, last) {
        return true;
    }
    assert forall|k: int| !occurs_at(s@, t@, k) by {
        if 0 <= k && k + t@.len() <= s@.len() {
            assert(k <= last);
        }
    }
    false
}

} // verus!

verus! {

/// Whether two strings are equal (`==` on `str`).
pub fn str_eq(a: &str, b: &str) -> (r: bool)
    ensures
        r == (a@ == b@),
{
    let av = chars_of(a);
    let bv = chars_of(b);
    if av.len() != bv.len() {
        return false;
    }
    let mut i: usize = 0;
    while i < av.len()
        invariant
            av@ == a@,
            bv@ == b@,
            av@.len() == bv@.len(),
            i <= av@.len(),
            forall|k: int| 0 <= k < i ==> av@[k] == bv@[k],
        decreases av@.len() - i,
    {
        if av[i] != bv[i] {
            return false;
        }
        i = i + 1;
    }
    assert(av@ =~= bv@);
    true
}

} // verus!

verus! {

/// Whether a character is white space in Unicode's sense (`char::is_whitespace`).
pub open spec fn is_ws(c: char) -> bool {
    ('\u{9}' <= c && c <= '\u{d}') || c == ' ' || c == '\u{85}' || c == '\u{a0}' || c == '\u{1680}'
        || ('\u{2000}' <= c && c <= '\u{200a}') || c == '\u{2028}' || c == '\u{2029}' || c == '\u{202f}'
        || c == '\u{205f}' || c == '\u{3000}'
}

pub fn is_ws_exec(c: char) -> (r: bool)
    ensures
        r == is_ws(c),
{
    ('\u{9}' <= c && c <= '\u{d}') || c == ' ' || c == '\u{85}' || c == '\u{a0}' || c == '\u{1680}'
        || ('\u{2000}' <= c && c <= '\u{200a}') || c == '\u{2028}' || c == '\u{2029}' || c == '\u{202f}'
        || c == '\u{205f}' || c == '\u{3000}'
}

/// The first position at or after `i` that does not hold white space.
pub open spec fn trim_start_from(s: Seq<char>, i: int) -> int
    decreases s.len() - i,
{
    if 0 <= i < s.len() && is_ws(s[i]) {
        trim_start_from(s, i + 1)
    } else {
        i
    }
}

/// The end of `s[lo..j]` without its trailing white space.
pub open spec fn trim_end_to(s: Seq<char>, lo: int, j: int) -> int
    decreases j - lo,
{
    if lo < j && j <= s.len() && is_ws(s[j - 1]) {
        trim_end_to(s, lo, j - 1)
    } else {
        j
    }
}

/// `s` without leading and trailing white space (`str::trim`).
pub open spec fn spec_trim(s: Seq<char>) -> Seq<char> {
    let a = trim_start_from(s, 0);
    s.subrange(a, trim_end_to(s, a, s.len() as int))
}

/// The text without leading and trailing white space.
pub fn trim(t: &str) -> (r: String)
    ensures
        r@ == spec_trim(t@),
{
    let n = t.unicode_len();
    let mut a: usize = 0;
    while a < n && is_ws_exec(t.get_char(a))
        invariant
            n == t@.len(),
            a <= n,
            trim_start_from(t@, a as int) == trim_start_from(t@, 0),
        decreases n - a,
    {
        a = a + 1;
    }
    let mut b: usize = n;
    while b > a && is_ws_exec(t.get_char(b - 1))
        invariant
            n == t@.len(),
            a <= b <= n,
            a as int == trim_start_from(t@, 0),
            trim_end_to(t@, a as int, b as int) == trim_end_to(t@, a as int, n as int),
        decreases b - a,
    {
        b = b - 1;
    }
    let r = String::from_str(t.substring_char(a, b));
    r
}

} // verus!

verus! {

/// `s` with every occurrence of the non-empty `pat` replaced by `rep`,
/// matches taken from the left without overlapping (`str::replace`).
pub open spec fn replace_all(s: Seq<char>, pat: Seq<char>, rep: Seq<char>) -> Seq<char>
    decreases s.len(),
{
    if s.len() == 0 {
        seq![]
    } else if pat.len() > 0 && has_prefix(s, pat) {
        rep + replace_all(s.subrange(pat.len() as int, s.len() as int), pat, rep)
    } else {
        seq![s[0]] + replace_all(s.drop_first(), pat, rep)
    }
}

pub fn replace(s: &str, pat: &str, rep: &str) -> (r: String)
    requires
        pat@.len() > 0,
    ensures
        r@ == replace_all(s@, pat@, rep@),
{
    let sv = chars_of(s);
    let pv = chars_of(pat);
    let n = sv.len();
    let m = pv.len();
    let mut out = String::new();
    let mut i: usize = 0;
    assert(s@.subrange(0, n as int) =~= s@);
    assert(out@ + replace_all(s@, pat@, rep@) =~= replace_all(s@, pat@, rep@));
    while i < n
        invariant
            sv@ == s@,
            pv@ == pat@,
            n == s@.len(),
            m == pat@.len(),
            m > 0,
            i <= n,
            out@ + replace_all(s@.subrange(i as int, n as int), pat@, rep@) == replace_all(s@, pat@, rep@),
        decreases n - i,
    {
        let ghost rest = s@.subrange(i as int, n as int);
        if m <= n - i && matches_at(&sv, &pv, i) {
            assert(rest.subrange(0, m as int) =~= s@.subrange(i as int, i + m));
            assert(rest.subrange(m as int, rest.len() as int) =~= s@.subrange(i + m, n as int));
            let ghost before = out@;
            push_str(&mut out, rep);
            assert(has_prefix(rest, pat@));
            assert(out@ + replace_all(s@.subrange(i + m, n as int), pat@, rep@)
                =~= before + (rep@ + replace_all(rest.subrange(m as int, rest.len() as int), pat@, rep@)));
            i = i + m;
        } else {
            proof {
                if m <= n - i {
                    assert(rest.subrange(0, m as int) =~= s@.subrange(i as int, i + m));
                }
                assert(!has_prefix(rest, pat@));
                assert(rest.drop_first() =~= s@.subrange(i + 1, n as int));
            }
            let ghost before = out@;
            string_push(&mut out, sv[i]);
            assert(out@ + replace_all(s@.subrange(i + 1, n as int), pat@, rep@)
                =~= before + (seq![s@[i as int]] + replace_all(rest.drop_first(), pat@, rep@)));
            i = i + 1;
        }
    }
    assert(s@.subrange(n as int, n as int) =~= Seq::<char>::empty());
    out
}


proof fn lemma_trim_start(s: Seq<char>, i: int)
    requires
        0 <= i <= s.len(),
        forall|k: int| 0 <= k < i ==> is_ws(#[trigger] s[k]),
    ensures
        i <= trim_start_from(s, i) <= s.len(),
        forall|k: int| 0 <= k < trim_start_from(s, i) ==> is_ws(#[trigger] s[k]),
        trim_start_from(s, i) < s.len() ==> !is_ws(s[trim_start_from(s, i)]),
    decreases s.len() - i,
{
    if i < s.len() && is_ws(s[i]) {
        lemma_trim_start(s, i + 1);
    }
}

proof fn lemma_trim_end(s: Seq<char>, lo: int, j: int)
    requires
        0 <= lo <= j <= s.len(),
        forall|k: int| j <= k < s.len() ==> is_ws(#[trigger] s[k]),
    ensures
        lo <= trim_end_to(s, lo, j) <= j,
        forall|k: int| trim_end_to(s, lo, j) <= k < s.len() ==> is_ws(#[trigger] s[k]),
        lo < trim_end_to(s, lo, j) ==> !is_ws(s[trim_end_to(s, lo, j) - 1]),
    decreases j - lo,
{
    if lo < j && is_ws(s[j - 1]) {
        lemma_trim_end(s, lo, j - 1);
    }
}

/// Trimming cuts white space, and only white space, off both ends: the
/// result is a stretch of the text with nothing but white space before and
/// after it, and unless it is empty it neither starts nor ends with white
/// space.
pub proof fn law_trim_cuts_only_white_space(s: Seq<char>)
    ensures
        exists|a: int, b: int| #![trigger s.subrange(a, b)]
            0 <= a <= b <= s.len() && spec_trim(s) == s.subrange(a, b)
            && (forall|k: int| 0 <= k < a ==> is_ws(#[trigger] s[k]))
            && (forall|k: int| b <= k < s.len() ==> is_ws(#[trigger] s[k])),
        spec_trim(s).len() > 0 ==> !is_ws(spec_trim(s)[0]) && !is_ws(spec_trim(s).last()),
{
    lemma_trim_start(s, 0);
    let a = trim_start_from(s, 0);
    lemma_trim_end(s, a, s.len() as int);
    let b = trim_end_to(s, a, s.len() as int);
    assert(spec_trim(s) == s.subrange(a, b));
    if b > a {
        assert(spec_trim(s)[0] == s[a]);
        assert(spec_trim(s).last() == s[b - 1]);
    }
}

/// Replacing a pattern that does not occur leaves the text as it is.
pub proof fn law_replace_without_occurrence(s: Seq<char>, pat: Seq<char>, rep: Seq<char>)
    requires
        pat.len() > 0,
        !contains_str(s, pat),
    ensures
        replace_all(s, pat, rep) == s,
    decreases s.len(),
{
    if s.len() > 0 {
        assert(!occurs_at(s, pat, 0));
        let t = s.drop_first();
        assert forall|i: int| !occurs_at(t, pat, i) by {
            if occurs_at(t, pat, i) {
                assert(s.subrange(i + 1, i + 1 + pat.len()) =~= t.subrange(i, i + pat.len()));
                assert(occurs_at(s, pat, i + 1));
            }
        }
        law_replace_without_occurrence(t, pat, rep);
        assert(seq![s[0]] + t =~= s);
    }
}

/// Replacing a pattern by itself leaves the text as it is.
pub proof fn law_replace_by_itself(s: Seq<char>, pat: Seq<char>)
    requires
        pat.len() > 0,
    ensures
        replace_all(s, pat, pat) == s,
    decreases s.len(),
{
    if s.len() > 0 {
        if has_prefix(s, pat) {
            law_replace_by_itself(s.subrange(pat.len() as int, s.len() as int), pat);
            assert(pat + s.subrange(pat.len() as int, s.len() as int) =~= s);
        } else {
            law_replace_by_itself(s.drop_first(), pat);
            assert(seq![s[0]] + s.drop_first() =~= s);
        }
    }
}

} // verus!

