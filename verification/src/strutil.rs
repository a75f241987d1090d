//! Verified string helpers: equality, search, trimming, splitting, and
//! decimal rendering/parsing. Everything is specified over `Seq<char>`.

use vstd::prelude::*;

verus! {

/// The views of a sequence of owned strings.
pub open spec fn names_view(v: Seq<String>) -> Seq<Seq<char>> {
    Seq::new(v.len(), |i: int| v[i]@)
}

/// Character-for-character string equality.
pub fn str_eq(a: &str, b: &str) -> (r: bool)
    ensures
        r == (a@ == b@),
{
    let alen = a.unicode_len();
    let blen = b.unicode_len();
    if alen != blen {
        return false;
    }
    let mut i: usize = 0;
    while i < alen
        invariant
            i <= alen,
            alen == a@.len(),
            alen == b@.len(),
            forall|j: int| 0 <= j < i ==> a@[j] == b@[j],
        decreases alen - i,
    {
        if a.get_char(i) != b.get_char(i) {
            return false;
        }
        i = i + 1;
    }
    proof {
        assert(a@ =~= b@);
    }
    true
}

/// Whether one of the names equals `m`.
pub open spec fn seq_has_name(names: Seq<Seq<char>>, m: Seq<char>) -> bool {
    exists|i: int| 0 <= i < names.len() && names[i] == m
}

/// Whether the vector holds a string equal to `m`.
pub fn contains_name(names: &Vec<String>, m: &str) -> (r: bool)
    ensures
        r == seq_has_name(names_view(names@), m@),
{
    let n = names.len();
    let mut i: usize = 0;
    while i < n
        invariant
            i <= n,
            n == names@.len(),
            forall|j: int| 0 <= j < i ==> names_view(names@)[j] != m@,
        decreases n - i,
    {
        if str_eq(names[i].as_str(), m) {
            assert(names_view(names@)[i as int] == m@);
            return true;
        }
        i = i + 1;
    }
    false
}

/// Whether the string holds the character.
pub open spec fn contains_char(s: Seq<char>, c: char) -> bool {
    exists|i: int| 0 <= i < s.len() && s[i] == c
}

/// Whether the string holds the character, executably.
pub fn has_char(s: &str, c: char) -> (r: bool)
    ensures
        r == contains_char(s@, c),
{
    let len = s.unicode_len();
    let mut i: usize = 0;
    while i < len
        invariant
            i <= len,
            len == s@.len(),
            forall|j: int| 0 <= j < i ==> s@[j] != c,
        decreases len - i,
    {
        if s.get_char(i) == c {
            return true;
        }
        i = i + 1;
    }
    false
}

/// Whether every character is a decimal digit or a dot.
pub open spec fn all_digit_or_dot(s: Seq<char>) -> bool {
    forall|i: int| 0 <= i < s.len() ==> is_digit(#[trigger] s[i]) || s[i] == '.'
}

/// Whether every character is a decimal digit or a dot, executably.
pub fn check_all_digit_or_dot(s: &str) -> (r: bool)
    ensures
        r == all_digit_or_dot(s@),
{
    let len = s.unicode_len();
    let mut i: usize = 0;
    while i < len
        invariant
            i <= len,
            len == s@.len(),
            forall|j: int| 0 <= j < i ==> is_digit(#[trigger] s@[j]) || s@[j] == '.',
        decreases len - i,
    {
        let c = s.get_char(i);
        let v = c as u32;
        let ok = (48 <= v && v <= 57) || c == '.';
        if !ok {
            return false;
        }
        i = i + 1;
    }
    true
}

/// Whether the character is a decimal digit.
pub open spec fn is_digit(c: char) -> bool {
    48 <= (c as u32) <= 57
}

/// The numeric value of a digit character.
pub open spec fn digit_val(c: char) -> nat {
    ((c as u32) - 48) as nat
}

/// The digit character of a value below ten.
pub open spec fn digit_char(d: nat) -> char {
    if d == 0 {
        '0'
    } else if d == 1 {
        '1'
    } else if d == 2 {
        '2'
    } else if d == 3 {
        '3'
    } else if d == 4 {
        '4'
    } else if d == 5 {
        '5'
    } else if d == 6 {
        '6'
    } else if d == 7 {
        '7'
    } else if d == 8 {
        '8'
    } else {
        '9'
    }
}

/// The canonical decimal rendering of a number: no sign, no leading zero
/// except for zero itself.
pub open spec fn dec_digits(n: nat) -> Seq<char>
    decreases n,
{
    if n < 10 {
        seq![digit_char(n)]
    } else {
        dec_digits(n / 10).push(digit_char(n % 10))
    }
}

/// The value of a digit string.
pub open spec fn digits_val(s: Seq<char>) -> nat
    decreases s.len(),
{
    if s.len() == 0 {
        0
    } else {
        digits_val(s.drop_last()) * 10 + digit_val(s.last())
    }
}

/// Whether every character of the string is a decimal digit.
pub open spec fn all_digits(s: Seq<char>) -> bool {
    forall|i: int| 0 <= i < s.len() ==> is_digit(#[trigger] s[i])
}

/// Reading back a canonical rendering gives the number itself.
pub proof fn lemma_dec_digits_val(n: nat)
    ensures
        dec_digits(n).len() > 0,
        all_digits(dec_digits(n)),
        digits_val(dec_digits(n)) == n,
    decreases n,
{
    assert(forall|d: nat| d < 10 ==> digit_val(#[trigger] digit_char(d)) == d) by {
        assert forall|d: nat| d < 10 implies digit_val(#[trigger] digit_char(d)) == d by {
            if d == 0 {
                assert(digit_val('0') == 0);
            } else if d == 1 {
                assert(digit_val('1') == 1);
            } else if d == 2 {
                assert(digit_val('2') == 2);
            } else if d == 3 {
                assert(digit_val('3') == 3);
            } else if d == 4 {
                assert(digit_val('4') == 4);
            } else if d == 5 {
                assert(digit_val('5') == 5);
            } else if d == 6 {
                assert(digit_val('6') == 6);
            } else if d == 7 {
                assert(digit_val('7') == 7);
            } else if d == 8 {
                assert(digit_val('8') == 8);
            } else {
                assert(digit_val('9') == 9);
            }
        }
    }
    if n < 10 {
        assert(dec_digits(n) =~= seq![digit_char(n)]);
        assert(dec_digits(n).drop_last() =~= Seq::<char>::empty());
        assert(digits_val(Seq::<char>::empty()) == 0);
        assert(dec_digits(n).last() == digit_char(n));
        assert(digits_val(dec_digits(n)) == digit_val(digit_char(n)));
    } else {
        lemma_dec_digits_val(n / 10);
        assert(dec_digits(n).drop_last() =~= dec_digits(n / 10));
        assert(dec_digits(n).last() == digit_char(n % 10));
        assert(digits_val(dec_digits(n)) == n / 10 * 10 + digit_val(digit_char(n % 10)));
        assert(n / 10 * 10 + n % 10 == n);
    }
}

/// One digit as a string.
fn digit_str(d: u64) -> (r: String)
    requires
        d < 10,
    ensures
        r@ =~= seq![digit_char(d as nat)],
{
    let r = if d == 0 {
        String::from_str("0")
    } else if d == 1 {
        String::from_str("1")
    } else if d == 2 {
        String::from_str("2")
    } else if d == 3 {
        String::from_str("3")
    } else if d == 4 {
        String::from_str("4")
    } else if d == 5 {
        String::from_str("5")
    } else if d == 6 {
        String::from_str("6")
    } else if d == 7 {
        String::from_str("7")
    } else if d == 8 {
        String::from_str("8")
    } else {
        String::from_str("9")
    };
    proof {
        reveal_strlit("0");
        reveal_strlit("1");
        reveal_strlit("2");
        reveal_strlit("3");
        reveal_strlit("4");
        reveal_strlit("5");
        reveal_strlit("6");
        reveal_strlit("7");
        reveal_strlit("8");
        reveal_strlit("9");
    }
    r
}

/// The canonical decimal rendering, executably.
pub fn u64_to_string(n: u64) -> (r: String)
    ensures
        r@ == dec_digits(n as nat),
    decreases n,
{
    if n < 10 {
        digit_str(n)
    } else {
        let mut s = u64_to_string(n / 10);
        let d = digit_str(n % 10);
        s.append(d.as_str());
        proof {
            assert(s@ =~= dec_digits(n as nat));
        }
        s
    }
}

/// Parse a nonempty all-digit string as a number; `None` when a character
/// is no digit, the string is empty, or the value does not fit.
pub fn parse_u64(s: &str) -> (r: Option<u64>)
    ensures
        match r {
            Option::Some(n) => s@.len() > 0 && all_digits(s@) && digits_val(s@) == n,
            Option::None => s@.len() == 0 || !all_digits(s@) || digits_val(s@) > u64::MAX,
        },
{
    let len = s.unicode_len();
    if len == 0 {
        return Option::None;
    }
    let mut acc: u64 = 0;
    let mut i: usize = 0;
    while i < len
        invariant
            i <= len,
            len == s@.len(),
            all_digits(s@.take(i as int)),
            digits_val(s@.take(i as int)) == acc,
        decreases len - i,
    {
        let c = s.get_char(i);
        let v = c as u32;
        if v < 48 || v > 57 {
            proof {
                assert(!is_digit(s@[i as int]));
            }
            return Option::None;
        }
        let d = (v - 48) as u64;
        if acc > (u64::MAX - d) / 10 {
            proof {
                assert(s@.take(i as int + 1).drop_last() =~= s@.take(i as int));
                assert(s@.take(i as int + 1).last() == s@[i as int]);
                assert(digits_val(s@.take(i as int + 1)) == acc * 10 + d);
                assert(acc * 10 + d > u64::MAX) by {
                    assert(acc >= (u64::MAX - d) / 10 + 1);
                    assert(((u64::MAX - d) / 10 + 1) * 10 >= u64::MAX - d + 1) by (nonlinear_arith)
                        requires d <= 9;
                    assert(acc * 10 >= ((u64::MAX - d) / 10 + 1) * 10) by (nonlinear_arith)
                        requires acc >= (u64::MAX - d) / 10 + 1;
                }
                lemma_digits_val_monotone(s@, i as int);
            }
            return Option::None;
        }
        acc = acc * 10 + d;
        proof {
            assert(s@.take(i as int + 1).drop_last() =~= s@.take(i as int));
            assert(s@.take(i as int + 1).last() == s@[i as int]);
        }
        i = i + 1;
    }
    proof {
        assert(s@.take(len as int) =~= s@);
    }
    Option::Some(acc)
}

/// A longer digit prefix never has a smaller value.
proof fn lemma_digits_val_monotone(s: Seq<char>, i: int)
    requires
        0 <= i < s.len(),
    ensures
        digits_val(s) >= digits_val(s.take(i + 1)),
    decreases s.len() - i,
{
    if i + 1 < s.len() {
        lemma_digits_val_monotone(s, i + 1);
        assert(s.take(i + 2).drop_last() =~= s.take(i + 1));
        assert(digits_val(s.take(i + 2)) == digits_val(s.take(i + 1)) * 10 + digit_val(
            s.take(i + 2).last(),
        ));
    } else {
        assert(s.take(i + 1) =~= s);
    }
}

/// The names joined by the separator.
pub open spec fn spec_join(v: Seq<Seq<char>>, sep: Seq<char>) -> Seq<char>
    decreases v.len(),
{
    if v.len() == 0 {
        Seq::empty()
    } else if v.len() == 1 {
        v[0]
    } else {
        spec_join(v.drop_last(), sep) + sep + v.last()
    }
}

/// Join the strings with the separator.
pub fn join_names(v: &Vec<String>, sep: &str) -> (r: String)
    ensures
        r@ == spec_join(names_view(v@), sep@),
{
    let n = v.len();
    let mut out = String::new();
    let mut i: usize = 0;
    while i < n
        invariant
            i <= n,
            n == v@.len(),
            out@ == spec_join(names_view(v@).take(i as int), sep@),
        decreases n - i,
    {
        if i > 0 {
            out.append(sep);
        }
        out.append(v[i].as_str());
        proof {
            let nv = names_view(v@);
            assert(nv.take(i as int + 1).drop_last() =~= nv.take(i as int));
            assert(nv.take(i as int + 1).last() == nv[i as int]);
            if i == 0 {
                assert(out@ =~= spec_join(nv.take(i as int + 1), sep@));
            } else {
                assert(out@ =~= spec_join(nv.take(i as int + 1), sep@));
            }
        }
        i = i + 1;
    }
    proof {
        assert(names_view(v@).take(n as int) =~= names_view(v@));
    }
    out
}

/// Whether `p` occurs in `s` at position `i`.
pub open spec fn first_at(s: Seq<char>, p: Seq<char>, i: int) -> bool {
    0 <= i && i + p.len() <= s.len() && s.subrange(i, i + p.len()) == p
}

/// Whether `s` begins with `p`.
pub open spec fn spec_starts_with(s: Seq<char>, p: Seq<char>) -> bool {
    first_at(s, p, 0)
}

/// The first occurrence of `p` in `s` at or after `i`.
pub open spec fn find_from(s: Seq<char>, p: Seq<char>, i: int) -> Option<int>
    recommends
        0 <= i,
    decreases s.len() - i,
{
    if i < 0 || i + p.len() > s.len() {
        Option::None
    } else if p.len() == 0 {
        Option::Some(i)
    } else if first_at(s, p, i) {
        Option::Some(i)
    } else {
        find_from(s, p, i + 1)
    }
}

/// The first occurrence of `p` in `s`.
pub open spec fn spec_find(s: Seq<char>, p: Seq<char>) -> Option<int> {
    find_from(s, p, 0)
}

/// Whether `p` occurs in `s`.
pub open spec fn spec_contains(s: Seq<char>, p: Seq<char>) -> bool {
    spec_find(s, p) is Some
}

/// Whether `p` occurs in `s` at position `i`, executably.
pub fn match_at(s: &str, p: &str, i: usize) -> (r: bool)
    ensures
        r == first_at(s@, p@, i as int),
{
    let slen = s.unicode_len();
    let plen = p.unicode_len();
    if i > slen || plen > slen - i {
        return false;
    }
    let mut j: usize = 0;
    while j < plen
        invariant
            j <= plen,
            plen == p@.len(),
            slen == s@.len(),
            i + plen <= slen,
            forall|k: int| 0 <= k < j ==> s@[i + k] == p@[k],
        decreases plen - j,
    {
        if s.get_char(i + j) != p.get_char(j) {
            proof {
                assert(s@.subrange(i as int, i as int + p@.len())[j as int] != p@[j as int]);
            }
            return false;
        }
        j = j + 1;
    }
    proof {
        assert(s@.subrange(i as int, i as int + p@.len()) =~= p@);
    }
    true
}

/// Whether `s` begins with `p`, executably.
pub fn starts_with_str(s: &str, p: &str) -> (r: bool)
    ensures
        r == spec_starts_with(s@, p@),
{
    match_at(s, p, 0)
}

/// Stepping past a position without a match leaves the search result.
proof fn lemma_find_from_step(s: Seq<char>, p: Seq<char>, i: int)
    requires
        0 <= i,
        p.len() > 0,
        !first_at(s, p, i),
    ensures
        find_from(s, p, i) == find_from(s, p, i + 1),
{
}

/// A found position lies in range and carries the pattern.
pub proof fn lemma_find_some(s: Seq<char>, p: Seq<char>, i: int)
    requires
        0 <= i,
    ensures
        find_from(s, p, i) matches Some(j) ==> i <= j && j + p.len() <= s.len() && (p.len() > 0
            ==> first_at(s, p, j)),
    decreases s.len() - i,
{
    if !(i + p.len() > s.len()) && p.len() != 0 && !first_at(s, p, i) {
        lemma_find_some(s, p, i + 1);
    }
}

/// The first occurrence of `p` in `s`, executably.
pub fn find_sub(s: &str, p: &str) -> (r: Option<usize>)
    ensures
        match r {
            Option::Some(i) => spec_find(s@, p@) == Option::Some(i as int),
            Option::None => spec_find(s@, p@) is None,
        },
{
    let slen = s.unicode_len();
    let plen = p.unicode_len();
    if plen == 0 {
        return Option::Some(0);
    }
    let mut i: usize = 0;
    while i <= slen && plen <= slen - i
        invariant
            0 <= i,
            slen == s@.len(),
            plen == p@.len(),
            plen > 0,
            spec_find(s@, p@) == find_from(s@, p@, i as int),
        decreases slen - i,
    {
        if match_at(s, p, i) {
            return Option::Some(i);
        }
        proof {
            lemma_find_from_step(s@, p@, i as int);
        }
        i = i + 1;
    }
    Option::None
}

/// Whether `p` occurs in `s`, executably.
pub fn contains_sub(s: &str, p: &str) -> (r: bool)
    ensures
        r == spec_contains(s@, p@),
{
    match find_sub(s, p) {
        Option::Some(_) => true,
        Option::None => false,
    }
}

/// The pieces of `s` between the non-overlapping leftmost occurrences of
/// the separator `p`. With an empty separator or input, the one piece is
/// `s` itself.
pub open spec fn spec_split(s: Seq<char>, p: Seq<char>) -> Seq<Seq<char>>
    decreases s.len(),
{
    if p.len() == 0 || s.len() == 0 {
        seq![s]
    } else if spec_starts_with(s, p) {
        seq![Seq::<char>::empty()] + spec_split(s.skip(p.len() as int), p)
    } else {
        let rest = spec_split(s.skip(1), p);
        seq![seq![s[0]] + rest[0]] + rest.skip(1)
    }
}

/// A split always yields at least one piece.
pub proof fn lemma_spec_split_nonempty(s: Seq<char>, p: Seq<char>)
    ensures
        spec_split(s, p).len() >= 1,
    decreases s.len(),
{
    if p.len() != 0 && s.len() != 0 && !spec_starts_with(s, p) {
        lemma_spec_split_nonempty(s.skip(1), p);
    }
}

/// Split `s` at each occurrence of the separator, executably.
pub fn split_str(s: &str, p: &str) -> (r: Vec<String>)
    ensures
        names_view(r@) == spec_split(s@, p@),
        r@.len() >= 1,
    decreases s@.len(),
{
    let slen = s.unicode_len();
    let plen = p.unicode_len();
    if plen == 0 || slen == 0 {
        let mut out: Vec<String> = Vec::new();
        out.push(s.to_owned());
        proof {
            assert(names_view(out@) =~= spec_split(s@, p@));
        }
        out
    } else if match_at(s, p, 0) {
        let tail = s.substring_char(plen, slen);
        let mut rest = split_str(tail, p);
        let mut out: Vec<String> = Vec::new();
        out.push(String::new());
        out.append(&mut rest);
        proof {
            assert(names_view(out@) =~= spec_split(s@, p@));
        }
        out
    } else {
        let tail = s.substring_char(1, slen);
        proof {
            assert(tail@ =~= s@.skip(1));
        }
        let mut rest = split_str(tail, p);
        proof {
            lemma_spec_split_nonempty(tail@, p@);
        }
        let ghost rest_pre = rest@;
        let head = rest.remove(0);
        let mut first = s.substring_char(0, 1).to_owned();
        first.append(head.as_str());
        let mut out: Vec<String> = Vec::new();
        out.push(first);
        out.append(&mut rest);
        proof {
            let spec_rest = spec_split(s@.skip(1), p@);
            assert(seq![s@[0]] =~= s@.subrange(0, 1));
            assert(head@ == names_view(rest_pre)[0]);
            assert(first@ == seq![s@[0]] + spec_rest[0]);
            assert forall|k: int| 1 <= k < out@.len() implies out@[k]@ == spec_rest[k] by {
                assert(out@[k] == rest_pre[k]);
                assert(names_view(rest_pre)[k] == spec_rest[k]);
            }
            assert(names_view(out@) =~= seq![seq![s@[0]] + spec_rest[0]] + spec_rest.skip(1));
        }
        out
    }
}

/// The whitespace the trimming functions drop.
pub open spec fn is_space(c: char) -> bool {
    c == ' ' || c == '\t' || c == '\n' || c == '\r' || c == '\u{b}' || c == '\u{c}'
}

/// `s` without its leading whitespace.
pub open spec fn spec_trim_start(s: Seq<char>) -> Seq<char>
    decreases s.len(),
{
    if s.len() > 0 && is_space(s[0]) {
        spec_trim_start(s.skip(1))
    } else {
        s
    }
}

/// `s` without its trailing whitespace.
pub open spec fn spec_trim_end(s: Seq<char>) -> Seq<char>
    decreases s.len(),
{
    if s.len() > 0 && is_space(s.last()) {
        spec_trim_end(s.drop_last())
    } else {
        s
    }
}

/// `s` without leading and trailing whitespace.
pub open spec fn spec_trim(s: Seq<char>) -> Seq<char> {
    spec_trim_end(spec_trim_start(s))
}

/// Trim whitespace from both ends, executably.
pub fn trim_str(s: &str) -> (r: String)
    ensures
        r@ == spec_trim(s@),
    decreases s@.len(),
{
    let slen = s.unicode_len();
    if slen == 0 {
        return String::new();
    }
    let c0 = s.get_char(0);
    if c0 == ' ' || c0 == '\t' || c0 == '\n' || c0 == '\r' || c0 == '\u{b}' || c0 == '\u{c}' {
        let tail = s.substring_char(1, slen);
        return trim_str(tail);
    }
    let cl = s.get_char(slen - 1);
    if cl == ' ' || cl == '\t' || cl == '\n' || cl == '\r' || cl == '\u{b}' || cl == '\u{c}' {
        proof {
            lemma_trim_end_of_unstarted(s@);
            assert(s@.drop_last() =~= s@.subrange(0, s@.len() - 1));
        }
        let head = s.substring_char(0, slen - 1);
        let r = trim_str(head);
        proof {
            lemma_trim_end_of_unstarted(head@);
        }
        return r;
    }
    proof {
        lemma_trim_end_of_unstarted(s@);
    }
    s.to_owned()
}

/// A string that does not begin with whitespace keeps its start under
/// trimming: its trim is just its end-trim, and conversely.
proof fn lemma_trim_end_of_unstarted(s: Seq<char>)
    ensures
        s.len() > 0 && !is_space(s[0]) ==> spec_trim(s) == spec_trim_end(s),
        s.len() > 0 && !is_space(s[0]) && is_space(s.last()) && s.len() > 1 ==> spec_trim_end(s)
            == spec_trim_end(s.drop_last()),
        s.len() == 1 && !is_space(s[0]) ==> spec_trim(s) == s,
    decreases s.len(),
{
    if s.len() > 0 && !is_space(s[0]) {
        assert(spec_trim_start(s) == s);
    }
}

/// `s` without every leading occurrence of the character `c`.
pub open spec fn spec_trim_start_char(s: Seq<char>, c: char) -> Seq<char>
    decreases s.len(),
{
    if s.len() > 0 && s[0] == c {
        spec_trim_start_char(s.skip(1), c)
    } else {
        s
    }
}

/// Drop every leading occurrence of the character, executably.
pub fn trim_start_char(s: &str, c: char) -> (r: String)
    ensures
        r@ == spec_trim_start_char(s@, c),
    decreases s@.len(),
{
    let slen = s.unicode_len();
    if slen > 0 && s.get_char(0) == c {
        let tail = s.substring_char(1, slen);
        trim_start_char(tail, c)
    } else {
        s.to_owned()
    }
}

/// `s` without every leading occurrence of the prefix `p`.
pub open spec fn spec_trim_start_seq(s: Seq<char>, p: Seq<char>) -> Seq<char>
    decreases s.len(),
{
    if p.len() > 0 && spec_starts_with(s, p) {
        spec_trim_start_seq(s.skip(p.len() as int), p)
    } else {
        s
    }
}

/// Drop every leading occurrence of the prefix, executably.
pub fn trim_start_matches_str(s: &str, p: &str) -> (r: String)
    ensures
        r@ == spec_trim_start_seq(s@, p@),
    decreases s@.len(),
{
    let slen = s.unicode_len();
    let plen = p.unicode_len();
    if plen > 0 && match_at(s, p, 0) {
        let tail = s.substring_char(plen, slen);
        trim_start_matches_str(tail, p)
    } else {
        s.to_owned()
    }
}

/// The whitespace-separated tokens of `s`, in order.
pub open spec fn spec_tokens(s: Seq<char>) -> Seq<Seq<char>>
    decreases s.len(),
{
    if s.len() == 0 {
        Seq::empty()
    } else if is_space(s[0]) {
        spec_tokens(s.skip(1))
    } else if s.len() > 1 && !is_space(s[1]) {
        let rest = spec_tokens(s.skip(1));
        seq![seq![s[0]] + rest[0]] + rest.skip(1)
    } else {
        seq![seq![s[0]]] + spec_tokens(s.skip(1))
    }
}

/// When a token is begun, the token list is nonempty.
pub proof fn lemma_spec_tokens_nonempty(s: Seq<char>)
    requires
        s.len() > 0,
        !is_space(s[0]),
    ensures
        spec_tokens(s).len() >= 1,
{
}

/// The whitespace-separated tokens of `s`, executably.
pub fn tokens_str(s: &str) -> (r: Vec<String>)
    ensures
        names_view(r@) == spec_tokens(s@),
    decreases s@.len(),
{
    let slen = s.unicode_len();
    if slen == 0 {
        let out: Vec<String> = Vec::new();
        proof {
            assert(names_view(out@) =~= spec_tokens(s@));
        }
        return out;
    }
    let c0 = s.get_char(0);
    let sp = c0 == ' ' || c0 == '\t' || c0 == '\n' || c0 == '\r' || c0 == '\u{b}' || c0 == '\u{c}';
    let tail = s.substring_char(1, slen);
    if sp {
        let r = tokens_str(tail);
        proof {
            assert(names_view(r@) =~= spec_tokens(s@));
        }
        return r;
    }
    let next_nonspace = if slen > 1 {
        let c1 = s.get_char(1);
        !(c1 == ' ' || c1 == '\t' || c1 == '\n' || c1 == '\r' || c1 == '\u{b}' || c1 == '\u{c}')
    } else {
        false
    };
    let mut rest = tokens_str(tail);
    if next_nonspace {
        proof {
            assert(tail@ =~= s@.skip(1));
            assert(tail@[0] == s@[1]);
            lemma_spec_tokens_nonempty(tail@);
        }
        let ghost rest_pre = rest@;
        let head = rest.remove(0);
        let mut first = s.substring_char(0, 1).to_owned();
        first.append(head.as_str());
        let mut out: Vec<String> = Vec::new();
        out.push(first);
        out.append(&mut rest);
        proof {
            let spec_rest = spec_tokens(s@.skip(1));
            assert(seq![s@[0]] =~= s@.subrange(0, 1));
            assert(head@ == names_view(rest_pre)[0]);
            assert(first@ == seq![s@[0]] + spec_rest[0]);
            assert forall|k: int| 1 <= k < out@.len() implies out@[k]@ == spec_rest[k] by {
                assert(out@[k] == rest_pre[k]);
                assert(names_view(rest_pre)[k] == spec_rest[k]);
            }
            assert(names_view(out@) =~= seq![seq![s@[0]] + spec_rest[0]] + spec_rest.skip(1));
        }
        out
    } else {
        let first = s.substring_char(0, 1).to_owned();
        let mut out: Vec<String> = Vec::new();
        out.push(first);
        out.append(&mut rest);
        proof {
            assert(seq![s@[0]] =~= s@.subrange(0, 1));
            assert(names_view(out@) =~= seq![seq![s@[0]]] + spec_tokens(s@.skip(1)));
        }
        out
    }
}

/// An element-for-element copy of a vector of strings.
pub fn dup_strings(v: &Vec<String>) -> (r: Vec<String>)
    ensures
        r@ == v@,
{
    let n = v.len();
    let mut out: Vec<String> = Vec::new();
    let mut i: usize = 0;
    while i < n
        invariant
            i <= n,
            n == v@.len(),
            out@ =~= v@.take(i as int),
        decreases n - i,
    {
        out.push(v[i].clone());
        proof {
            assert(out@ =~= v@.take(i as int + 1));
        }
        i = i + 1;
    }
    proof {
        assert(v@.take(n as int) =~= v@);
    }
    out
}

} // verus!
