//! Lexical ground floor of the settings parser: character classes, scanning,
//! trimming, and the value forms (quoted string, integer, boolean).
//!
//! Everything here works on ASCII text; the parser rejects other input
//! before these run.

use vstd::prelude::*;
use crate::settings::SettingsError;

verus! {

/// Horizontal whitespace; a carriage return counts so that CRLF line ends
/// need no special case.
pub open spec fn is_ws(c: char) -> bool {
    c == ' ' || c == '\t' || c == '\r'
}

/// How many characters stand before the first `c`, or the whole length when
/// `c` does not occur.
pub open spec fn upto(s: Seq<char>, c: char) -> nat
    decreases s.len(),
{
    if s.len() == 0 {
        0
    } else if s[0] == c {
        0
    } else {
        1 + upto(s.drop_first(), c)
    }
}

pub proof fn lemma_upto(s: Seq<char>, c: char)
    ensures
        upto(s, c) <= s.len(),
        forall|k: int| 0 <= k < upto(s, c) ==> s[k] != c,
        upto(s, c) < s.len() ==> s[upto(s, c) as int] == c,
    decreases s.len(),
{
    if s.len() > 0 && s[0] != c {
        lemma_upto(s.drop_first(), c);
        assert forall|k: int| 0 <= k < upto(s, c) implies s[k] != c by {
            if k > 0 {
                assert(s.drop_first()[k - 1] == s[k]);
            }
        }
        if upto(s, c) < s.len() {
            assert(s.drop_first()[upto(s, c) - 1] == s[upto(s, c) as int]);
        }
    }
}

/// The length of the run of whitespace that opens `s`.
pub open spec fn ws_len(s: Seq<char>) -> nat
    decreases s.len(),
{
    if s.len() > 0 && is_ws(s[0]) {
        1 + ws_len(s.drop_first())
    } else {
        0
    }
}

/// The length of the run of whitespace that closes `s`.
pub open spec fn trailing_ws_len(s: Seq<char>) -> nat
    decreases s.len(),
{
    if s.len() > 0 && is_ws(s.last()) {
        1 + trailing_ws_len(s.drop_last())
    } else {
        0
    }
}

/// `s` without its leading and trailing whitespace.
pub open spec fn trim(s: Seq<char>) -> Seq<char> {
    if ws_len(s) == s.len() {
        Seq::empty()
    } else {
        s.subrange(ws_len(s) as int, s.len() - trailing_ws_len(s))
    }
}

pub proof fn lemma_ws_len(s: Seq<char>)
    ensures
        ws_len(s) <= s.len(),
        forall|k: int| 0 <= k < ws_len(s) ==> is_ws(s[k]),
        ws_len(s) < s.len() ==> !is_ws(s[ws_len(s) as int]),
    decreases s.len(),
{
    if s.len() > 0 && is_ws(s[0]) {
        lemma_ws_len(s.drop_first());
        assert forall|k: int| 0 <= k < ws_len(s) implies is_ws(s[k]) by {
            if k > 0 {
                assert(s.drop_first()[k - 1] == s[k]);
            }
        }
        if ws_len(s) < s.len() {
            assert(s.drop_first()[ws_len(s) - 1] == s[ws_len(s) as int]);
        }
    }
}

pub proof fn lemma_trailing_ws_len(s: Seq<char>)
    ensures
        trailing_ws_len(s) <= s.len(),
        forall|k: int| s.len() - trailing_ws_len(s) <= k < s.len() ==> is_ws(s[k]),
        trailing_ws_len(s) < s.len() ==> !is_ws(s[s.len() - trailing_ws_len(s) - 1]),
    decreases s.len(),
{
    if s.len() > 0 && is_ws(s.last()) {
        lemma_trailing_ws_len(s.drop_last());
        assert forall|k: int| s.len() - trailing_ws_len(s) <= k < s.len() implies is_ws(s[k]) by {
            if k < s.len() - 1 {
                assert(s.drop_last()[k] == s[k]);
            }
        }
        if trailing_ws_len(s) < s.len() {
            assert(s.drop_last()[s.len() - trailing_ws_len(s) - 1] == s[s.len() - trailing_ws_len(
                s,
            ) - 1]);
        }
    }
}

/// When `s` is not all whitespace, the trim window is well formed: the first
/// non-whitespace character stands strictly before the trailing run.
pub proof fn lemma_trim_bounds(s: Seq<char>)
    requires
        ws_len(s) < s.len(),
    ensures
        ws_len(s) + trailing_ws_len(s) < s.len(),
        trim(s).len() > 0,
        !is_ws(trim(s)[0]),
        !is_ws(trim(s).last()),
{
    lemma_ws_len(s);
    lemma_trailing_ws_len(s);
    if ws_len(s) + trailing_ws_len(s) >= s.len() {
        assert(is_ws(s[ws_len(s) as int]));
    }
    assert(trim(s)[0] == s[ws_len(s) as int]);
    assert(trim(s).last() == s[s.len() - trailing_ws_len(s) - 1]);
}

/// The character length of a string.
pub fn ascii_len(s: &str) -> (n: usize)
    requires
        s.is_ascii(),
    ensures
        n == s@.len(),
{
    s.unicode_len()
}

/// The byte at character position `i` of an ASCII string.
pub fn byte_at(s: &str, i: usize) -> (b: u8)
    requires
        s.is_ascii(),
        i < s@.len(),
    ensures
        b == s@[i as int] as u8,
        '\0' <= s@[i as int] <= '\u{7f}',
        b < 128,
{
    let b = s.get_ascii(i);
    proof {
        assert('\0' <= s@[i as int] <= '\u{7f}');
    }
    b
}

/// Whether the character at position `i` is whitespace.
pub fn is_ws_at(s: &str, i: usize) -> (r: bool)
    requires
        s.is_ascii(),
        i < s@.len(),
    ensures
        r == is_ws(s@[i as int]),
{
    let b = byte_at(s, i);
    proof {
        assert(' ' as u8 == 32 && '\t' as u8 == 9 && '\r' as u8 == 13);
    }
    b == 32 || b == 9 || b == 13
}

/// The position of the first `target` at or after `from`, or the length when
/// there is none.
pub fn find_char(s: &str, from: usize, target: u8) -> (j: usize)
    requires
        s.is_ascii(),
        from <= s@.len(),
        target < 128,
    ensures
        from <= j <= s@.len(),
        j - from == upto(s@.skip(from as int), target as char),
        forall|k: int| from <= k < j ==> s@[k] != target as char,
        j < s@.len() ==> s@[j as int] == target as char,
{
    let n = ascii_len(s);
    let mut j: usize = from;
    let mut found: bool = false;
    while j < n && !found
        invariant
            s.is_ascii(),
            n == s@.len(),
            from <= j <= n,
            target < 128,
            forall|k: int| from <= k < j ==> s@[k] != target as char,
            found ==> j < n && s@[j as int] == target as char,
        decreases n - j + (if found { 0int } else { 1int }),
    {
        let b = byte_at(s, j);
        if b == target {
            proof {
                assert((target as char) as u8 == target);
                assert(s@[j as int] == target as char);
            }
            found = true;
        } else {
            proof {
                assert((target as char) as u8 == target);
                assert(s@[j as int] != target as char);
            }
            j = j + 1;
        }
    }
    proof {
        let tc = target as char;
        let rest = s@.skip(from as int);
        lemma_upto(rest, tc);
        let u = upto(rest, tc) as int;
        assert(forall|m: int| 0 <= m < rest.len() ==> rest[m] == s@[from + m]);
        if u < j - from {
            assert(s@[from + u] == tc);
            assert(false);
        }
        if u > j - from {
            assert(j < n);
            assert(rest[j - from] == tc);
            assert(false);
        }
    }
    j
}

/// `s` with leading and trailing whitespace removed.
pub fn trim_str<'a>(s: &'a str) -> (t: &'a str)
    requires
        s.is_ascii(),
    ensures
        t@ == trim(s@),
        t.is_ascii(),
{
    let n = ascii_len(s);
    let mut lo: usize = 0;
    while lo < n && is_ws_at(s, lo)
        invariant
            s.is_ascii(),
            n == s@.len(),
            lo <= n,
            forall|k: int| 0 <= k < lo ==> is_ws(s@[k]),
        decreases n - lo,
    {
        lo = lo + 1;
    }
    proof {
        lemma_ws_len(s@);
        if (ws_len(s@) as int) < lo {
            assert(is_ws(s@[ws_len(s@) as int]));
            assert(false);
        }
        if (ws_len(s@) as int) > lo {
            assert(lo < n);
            assert(!is_ws(s@[lo as int]));
            assert(false);
        }
    }
    if lo == n {
        let t = s.substring_ascii(n, n);
        proof {
            assert(t@ =~= trim(s@));
        }
        return t;
    }
    let mut hi: usize = n;
    while hi > lo && is_ws_at(s, hi - 1)
        invariant
            s.is_ascii(),
            n == s@.len(),
            lo <= hi <= n,
            forall|k: int| hi <= k < n ==> is_ws(s@[k]),
        decreases hi,
    {
        hi = hi - 1;
    }
    proof {
        lemma_ws_len(s@);
        lemma_trailing_ws_len(s@);
        lemma_trim_bounds(s@);
        let te = s@.len() - trailing_ws_len(s@);
        if te < hi {
            assert(is_ws(s@[hi - 1]));
            assert(false);
        }
        if te > hi {
            assert(hi > lo);
            assert(!is_ws(s@[te - 1]));
            assert(hi <= te - 1);
            assert(is_ws(s@[te - 1]));
            assert(false);
        }
    }
    s.substring_ascii(lo, hi)
}

/// Whether two strings hold the same characters.
pub fn streq(a: &str, b: &str) -> (r: bool)
    ensures
        r == (a@ == b@),
{
    let x = a.to_owned();
    let y = b.to_owned();
    x == y
}

/// The position of the first `c` at or after `i`, capped at the length.
pub open spec fn scan_to(s: Seq<char>, i: int, c: char) -> int {
    vstd::math::min(i + upto(s.skip(i), c) as int, s.len() as int)
}

/// A quoted string value: the text between the quotes, which must hold no
/// quote and no backslash (this format has no escape sequences).
pub open spec fn string_value(v: Seq<char>) -> Result<Seq<char>, SettingsError> {
    if v.len() < 2 || v[0] != '"' || v.last() != '"' {
        Err(SettingsError::BadValue)
    } else if exists|k: int| 1 <= k < v.len() - 1 && (v[k] == '"' || v[k] == '\\') {
        Err(SettingsError::BadValue)
    } else {
        Ok(v.subrange(1, v.len() - 1))
    }
}

/// Reads a quoted string value.
pub fn parse_string(v: &str) -> (r: Result<String, SettingsError>)
    requires
        v.is_ascii(),
    ensures
        match r {
            Ok(s) => string_value(v@) == Ok::<Seq<char>, SettingsError>(s@),
            Err(e) => string_value(v@) == Err::<Seq<char>, SettingsError>(e),
        },
{
    let n = ascii_len(v);
    proof {
        assert('"' as u8 == 34 && '\\' as u8 == 92);
    }
    if n < 2 {
        return Err(SettingsError::BadValue);
    }
    let first = byte_at(v, 0);
    let last = byte_at(v, n - 1);
    if first != 34 || last != 34 {
        return Err(SettingsError::BadValue);
    }
    let mut k: usize = 1;
    while k < n - 1
        invariant
            v.is_ascii(),
            n == v@.len(),
            n >= 2,
            1 <= k <= n - 1,
            forall|m: int| 1 <= m < k ==> v@[m] != '"' && v@[m] != '\\',
        decreases n - k,
    {
        let b = byte_at(v, k);
        proof {
            assert('"' as u8 == 34 && '\\' as u8 == 92);
        }
        if b == 34 || b == 92 {
            return Err(SettingsError::BadValue);
        }
        k = k + 1;
    }
    let inner = v.substring_ascii(1, n - 1);
    Ok(inner.to_owned())
}

/// Whether every character is a decimal digit.
pub open spec fn all_digits(s: Seq<char>) -> bool {
    forall|k: int| 0 <= k < s.len() ==> '0' <= #[trigger] s[k] <= '9'
}

/// The number that a digit sequence denotes.
pub open spec fn digits_val(s: Seq<char>) -> int
    decreases s.len(),
{
    if s.len() == 0 {
        0
    } else {
        digits_val(s.drop_last()) * 10 + (s.last() as int - '0' as int)
    }
}

pub open spec fn spec_pow10(n: nat) -> int
    decreases n,
{
    if n == 0 {
        1
    } else {
        10 * spec_pow10((n - 1) as nat)
    }
}

pub proof fn lemma_pow10_mono(a: nat, b: nat)
    requires
        a <= b,
    ensures
        1 <= spec_pow10(a) <= spec_pow10(b),
    decreases b,
{
    if a < b {
        lemma_pow10_mono(a, (b - 1) as nat);
    } else {
        if a > 0 {
            lemma_pow10_mono((a - 1) as nat, (a - 1) as nat);
        }
    }
}

/// An unsigned decimal integer value: at most five digits, at most `max`.
pub open spec fn int_value(v: Seq<char>, max: int) -> Result<int, SettingsError> {
    if v.len() == 0 || v.len() > 5 || !all_digits(v) {
        Err(SettingsError::BadValue)
    } else if digits_val(v) > max {
        Err(SettingsError::BadValue)
    } else {
        Ok(digits_val(v))
    }
}

/// Reads an unsigned decimal integer value of at most `max`.
pub fn parse_int(v: &str, max: u32) -> (r: Result<u32, SettingsError>)
    requires
        v.is_ascii(),
        max <= 65535,
    ensures
        match r {
            Ok(x) => int_value(v@, max as int) == Ok::<int, SettingsError>(x as int) && x
                <= max,
            Err(e) => int_value(v@, max as int) == Err::<int, SettingsError>(e),
        },
{
    let n = ascii_len(v);
    if n == 0 || n > 5 {
        return Err(SettingsError::BadValue);
    }
    let mut acc: u32 = 0;
    let mut i: usize = 0;
    while i < n
        invariant
            v.is_ascii(),
            n == v@.len(),
            1 <= n <= 5,
            i <= n,
            all_digits(v@.take(i as int)),
            acc as int == digits_val(v@.take(i as int)),
            (acc as int) < spec_pow10(i as nat),
        decreases n - i,
    {
        let b = byte_at(v, i);
        proof {
            assert('0' as u8 == 48 && '9' as u8 == 57);
        }
        if b < 48 || b > 57 {
            proof {
                assert(!('0' <= v@[i as int] <= '9'));
            }
            return Err(SettingsError::BadValue);
        }
        proof {
            assert('0' <= v@[i as int] <= '9');
            assert(v@[i as int] as int == b as int);
            assert(v@.take(i + 1).drop_last() =~= v@.take(i as int));
            assert(v@.take(i + 1).last() == v@[i as int]);
            assert(all_digits(v@.take(i + 1)));
            lemma_pow10_mono(i as nat, 4);
            assert(spec_pow10(0) == 1);
            assert(spec_pow10(1) == 10);
            assert(spec_pow10(2) == 100);
            assert(spec_pow10(3) == 1000);
            assert(spec_pow10(4) == 10000);
            assert(spec_pow10((i + 1) as nat) == 10 * spec_pow10(i as nat));
        }
        acc = acc * 10 + ((b - 48) as u32);
        i = i + 1;
    }
    proof {
        assert(v@.take(n as int) =~= v@);
    }
    if acc > max {
        return Err(SettingsError::BadValue);
    }
    Ok(acc)
}

/// A boolean value: the word `true` or the word `false`.
pub open spec fn bool_value(v: Seq<char>) -> Result<bool, SettingsError> {
    if v == "true"@ {
        Ok(true)
    } else if v == "false"@ {
        Ok(false)
    } else {
        Err(SettingsError::BadValue)
    }
}

/// Reads a boolean value.
pub fn parse_bool(v: &str) -> (r: Result<bool, SettingsError>)
    ensures
        match r {
            Ok(x) => bool_value(v@) == Ok::<bool, SettingsError>(x),
            Err(e) => bool_value(v@) == Err::<bool, SettingsError>(e),
        },
{
    if streq(v, "true") {
        Ok(true)
    } else if streq(v, "false") {
        Ok(false)
    } else {
        Err(SettingsError::BadValue)
    }
}

/// The comma-separated items from position `i` on: each piece, trimmed, must
/// be a quoted string (so an item can hold no comma).
pub open spec fn items_from(s: Seq<char>, i: int) -> Result<Seq<Seq<char>>, SettingsError>
    decreases s.len() - i
        when 0 <= i <= s.len()
{
    let j = scan_to(s, i, ',');
    match string_value(trim(s.subrange(i, j))) {
        Err(e) => Err(e),
        Ok(item) => {
            if j >= s.len() {
                Ok(seq![item])
            } else {
                match items_from(s, j + 1) {
                    Ok(rest) => Ok(seq![item].add(rest)),
                    Err(e) => Err(e),
                }
            }
        },
    }
}

/// A list value: quoted strings between square brackets, separated by
/// commas; an empty pair of brackets is the empty list.
pub open spec fn list_value(v: Seq<char>) -> Result<Seq<Seq<char>>, SettingsError> {
    if v.len() < 2 || v[0] != '[' || v.last() != ']' {
        Err(SettingsError::BadValue)
    } else {
        let inner = v.subrange(1, v.len() - 1);
        if trim(inner).len() == 0 {
            Ok(Seq::empty())
        } else {
            items_from(inner, 0)
        }
    }
}

/// Reads a list value.
#[verifier::loop_isolation(false)]
pub fn parse_string_list(v: &str) -> (r: Result<Vec<String>, SettingsError>)
    requires
        v.is_ascii(),
    ensures
        match r {
            Ok(items) => list_value(v@) == Ok::<Seq<Seq<char>>, SettingsError>(
                items@.map_values(|s: String| s@),
            ),
            Err(e) => list_value(v@) == Err::<Seq<Seq<char>>, SettingsError>(e),
        },
{
    let n = ascii_len(v);
    proof {
        assert('[' as u8 == 91 && ']' as u8 == 93);
    }
    if n < 2 {
        return Err(SettingsError::BadValue);
    }
    let first = byte_at(v, 0);
    let last = byte_at(v, n - 1);
    if first != 91 || last != 93 {
        return Err(SettingsError::BadValue);
    }
    let inner = v.substring_ascii(1, n - 1);
    let inner_trimmed = trim_str(inner);
    if ascii_len(inner_trimmed) == 0 {
        let items: Vec<String> = Vec::new();
        proof {
            assert(items@.map_values(|s: String| s@) =~= Seq::<Seq<char>>::empty());
        }
        return Ok(items);
    }
    let m = ascii_len(inner);
    let mut items: Vec<String> = Vec::new();
    let mut i: usize = 0;
    proof {
        assert(items@.map_values(|s: String| s@) =~= Seq::<Seq<char>>::empty());
        if items_from(inner@, 0) is Ok {
            let rest = items_from(inner@, 0)->Ok_0;
            assert(Seq::<Seq<char>>::empty().add(rest) =~= rest);
        }
    }
    loop
        invariant
            inner.is_ascii(),
            m == inner@.len(),
            0 <= i <= m,
            items_from(inner@, 0) == match items_from(inner@, i as int) {
                Ok(rest) => Ok::<Seq<Seq<char>>, SettingsError>(items@.map_values(
                    |s: String| s@,
                ).add(rest)),
                Err(e) => Err::<Seq<Seq<char>>, SettingsError>(e),
            },
        decreases m - i,
    {
        let j = find_char(inner, i, 44);
        proof {
            assert(',' as u8 == 44);
            lemma_upto(inner@.skip(i as int), ',');
            assert(j as int == scan_to(inner@, i as int, ','));
        }
        let piece = inner.substring_ascii(i, j);
        let piece_trimmed = trim_str(piece);
        let item = match parse_string(piece_trimmed) {
            Ok(item) => item,
            Err(e) => {
                proof {
                    assert(items_from(inner@, i as int) == Err::<Seq<Seq<char>>, SettingsError>(
                        e,
                    ));
                }
                return Err(e);
            },
        };
        let ghost items_before = items@.map_values(|s: String| s@);
        items.push(item);
        proof {
            assert(items@.map_values(|s: String| s@) =~= items_before.push(item@));
        }
        if j >= m {
            proof {
                assert(items_from(inner@, i as int) == Ok::<Seq<Seq<char>>, SettingsError>(
                    seq![item@],
                ));
                assert(items_before.add(seq![item@]) =~= items@.map_values(|s: String| s@));
            }
            return Ok(items);
        }
        proof {
            let tail = items_from(inner@, j + 1);
            if tail is Ok {
                let rest = tail->Ok_0;
                assert(items_from(inner@, i as int) == Ok::<Seq<Seq<char>>, SettingsError>(
                    seq![item@].add(rest),
                ));
                assert(items_before.add(seq![item@].add(rest)) =~= items@.map_values(
                    |s: String| s@,
                ).add(rest));
            } else {
                assert(items_from(inner@, i as int) == tail);
            }
        }
        i = j + 1;
    }
}

} // verus!
