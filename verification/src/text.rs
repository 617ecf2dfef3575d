//! Character-level text helpers shared by the protocol, command and session
//! modules: decimal rendering and parsing of integers, whitespace splitting,
//! prefix stripping and substring search, each against a direct
//! specification over character sequences.
use vstd::prelude::*;
use vstd::string::StrSliceExecFns;

verus! {

/// The character for a single decimal digit value.
pub open spec fn digit_char(d: int) -> char {
    if d == 0 {
        '0'
    } else if d == 1 {
        '1'
    } else if d == 2 {
        '2'
    } else if d == 3 {
        '3'
    } else if d == 4 {
        '4'
    } else if d == 5 {
        '5'
    } else if d == 6 {
        '6'
    } else if d == 7 {
        '7'
    } else if d == 8 {
        '8'
    } else {
        '9'
    }
}

/// The digit value of a character, or -1 when it is not a decimal digit.
pub open spec fn char_digit(c: char) -> int {
    if c == '0' {
        0
    } else if c == '1' {
        1
    } else if c == '2' {
        2
    } else if c == '3' {
        3
    } else if c == '4' {
        4
    } else if c == '5' {
        5
    } else if c == '6' {
        6
    } else if c == '7' {
        7
    } else if c == '8' {
        8
    } else if c == '9' {
        9
    } else {
        -1
    }
}

pub open spec fn is_digit(c: char) -> bool {
    char_digit(c) >= 0
}

/// Decimal rendering of a non-negative integer, most significant digit first.
pub open spec fn dec_digits(n: int) -> Seq<char>
    decreases n,
{
    if n < 10 {
        seq![digit_char(n)]
    } else {
        dec_digits(n / 10).push(digit_char(n % 10))
    }
}

/// The numeric value of a digit string (0 for the empty string).
pub open spec fn dec_val(s: Seq<char>) -> int
    decreases s.len(),
{
    if s.len() == 0 {
        0
    } else {
        dec_val(s.drop_last()) * 10 + char_digit(s.last())
    }
}

pub open spec fn all_digits(s: Seq<char>) -> bool {
    forall|i: int| 0 <= i < s.len() ==> is_digit(#[trigger] s[i])
}

pub proof fn lemma_dec_digits_val(n: int)
    requires
        n >= 0,
    ensures
        all_digits(dec_digits(n)),
        dec_val(dec_digits(n)) == n,
        dec_digits(n).len() >= 1,
    decreases n,
{
    if n < 10 {
        assert(dec_digits(n) =~= seq![digit_char(n)]);
        assert(dec_val(seq![digit_char(n)].drop_last()) == 0);
    } else {
        lemma_dec_digits_val(n / 10);
        let s = dec_digits(n);
        assert(s =~= dec_digits(n / 10).push(digit_char(n % 10)));
        assert(s.drop_last() =~= dec_digits(n / 10));
        assert(dec_val(s) == n / 10 * 10 + n % 10);
    }
}

fn digit_to_char(d: u64) -> (c: char)
    requires
        d < 10,
    ensures
        c == digit_char(d as int),
{
    match d {
        0 => '0',
        1 => '1',
        2 => '2',
        3 => '3',
        4 => '4',
        5 => '5',
        6 => '6',
        7 => '7',
        8 => '8',
        _ => '9',
    }
}

fn char_to_digit(c: char) -> (d: Option<u64>)
    ensures
        d matches Some(v) ==> v == char_digit(c) && v < 10,
        d is None <==> !is_digit(c),
{
    match c {
        '0' => Some(0),
        '1' => Some(1),
        '2' => Some(2),
        '3' => Some(3),
        '4' => Some(4),
        '5' => Some(5),
        '6' => Some(6),
        '7' => Some(7),
        '8' => Some(8),
        '9' => Some(9),
        _ => None,
    }
}

/// Renders an unsigned integer as its decimal character sequence.
pub fn u64_to_chars(n: u64) -> (v: Vec<char>)
    ensures
        v@ == dec_digits(n as int),
        all_digits(v@),
        v@.len() >= 1,
{
    let mut rest = n;
    let mut rev: Vec<char> = Vec::new();
    // collect the digits least significant first
    loop
        invariant_except_break
            dec_digits(n as int) =~= dec_digits(rest as int) + rev@.reverse(),
        ensures
            dec_digits(n as int) =~= rev@.reverse(),
        decreases rest,
    {
        let d = rest % 10;
        let c = digit_to_char(d);
        proof {
            if rest >= 10 {
                assert(dec_digits(rest as int) =~= dec_digits(rest as int / 10).push(
                    digit_char(rest as int % 10),
                ));
                assert(dec_digits(rest as int / 10) + (rev@.push(c)).reverse() =~= dec_digits(
                    rest as int / 10,
                ).push(digit_char(rest as int % 10)) + rev@.reverse());
            } else {
                assert(dec_digits(rest as int) =~= seq![c]);
                assert(seq![c] + rev@.reverse() =~= (rev@.push(c)).reverse());
            }
        }
        rev.push(c);
        if rest < 10 {
            break;
        }
        rest = rest / 10;
    }
    let ghost digits = dec_digits(n as int);
    let mut v: Vec<char> = Vec::new();
    let mut i = rev.len();
    while i > 0
        invariant
            i <= rev.len(),
            digits =~= rev@.reverse(),
            v@ =~= digits.take(rev@.len() - i),
        decreases i,
    {
        i = i - 1;
        v.push(rev[i]);
        proof {
            assert(digits.take(rev@.len() - i) =~= digits.take(rev@.len() - (i + 1)).push(
                rev@[i as int],
            ));
        }
    }
    proof {
        assert(v@ =~= digits);
        lemma_dec_digits_val(n as int);
    }
    v
}

/// What a decimal string is worth as a `u64`: an optional leading `+`, then
/// one or more digits, and a value that fits.
pub open spec fn spec_parse_u64(s: Seq<char>) -> Option<u64> {
    let body = if s.len() >= 1 && s[0] == '+' {
        s.drop_first()
    } else {
        s
    };
    if body.len() > 0 && all_digits(body) && dec_val(body) <= u64::MAX {
        Some(dec_val(body) as u64)
    } else {
        None
    }
}

proof fn lemma_dec_val_take_grows(s: Seq<char>, i: int)
    requires
        0 <= i < s.len(),
        all_digits(s),
        dec_val(s.take(i)) >= 0,
    ensures
        dec_val(s.take(i + 1)) >= dec_val(s.take(i)),
        dec_val(s.take(i + 1)) >= 0,
{
    assert(s.take(i + 1).drop_last() =~= s.take(i));
    assert(s.take(i + 1).last() == s[i]);
    let a = dec_val(s.take(i));
    let d = char_digit(s[i]);
    assert(0 <= d <= 9);
    assert(a * 10 + d >= a) by (nonlinear_arith)
        requires
            a >= 0,
            d >= 0,
    ;
}

proof fn lemma_dec_val_nonneg(s: Seq<char>)
    requires
        all_digits(s),
    ensures
        dec_val(s) >= 0,
    decreases s.len(),
{
    if s.len() > 0 {
        assert(all_digits(s.drop_last())) by {
            assert(forall|i: int|
                0 <= i < s.len() - 1 ==> is_digit(#[trigger] s.drop_last()[i]) == is_digit(s[i]));
        }
        lemma_dec_val_nonneg(s.drop_last());
        let a = dec_val(s.drop_last());
        let d = char_digit(s.last());
        assert(a * 10 + d >= 0) by (nonlinear_arith)
            requires
                a >= 0,
            d >= 0,
        ;
    }
}

proof fn lemma_dec_val_overflow(s: Seq<char>, i: int)
    requires
        0 <= i <= s.len(),
        all_digits(s),
        dec_val(s.take(i)) > u64::MAX,
    ensures
        dec_val(s) > u64::MAX,
    decreases s.len() - i,
{
    if i < s.len() {
        assert(all_digits(s.take(i))) by {
            assert(forall|j: int| 0 <= j < i ==> #[trigger] s.take(i)[j] == s[j]);
        }
        lemma_dec_val_nonneg(s.take(i));
        lemma_dec_val_take_grows(s, i);
        lemma_dec_val_overflow(s, i + 1);
    } else {
        assert(s.take(i) =~= s);
    }
}

/// Parses a decimal `u64` the way the standard library does: an optional
/// leading `+`, then one or more digits, rejecting overflow.
pub fn parse_u64_chars(v: &Vec<char>) -> (r: Option<u64>)
    ensures
        r == spec_parse_u64(v@),
{
    let start: usize = if v.len() >= 1 && v[0] == '+' {
        1
    } else {
        0
    };
    let ghost body = if v@.len() >= 1 && v@[0] == '+' {
        v@.drop_first()
    } else {
        v@
    };
    proof {
        assert(body =~= v@.skip(start as int));
    }
    if v.len() == start {
        return None;
    }
    let mut acc: u64 = 0;
    let mut i: usize = start;
    while i < v.len()
        invariant
            start <= i <= v@.len(),
            body =~= v@.skip(start as int),
            body == (if v@.len() >= 1 && v@[0] == '+' {
                v@.drop_first()
            } else {
                v@
            }),
            all_digits(body.take(i - start)),
            acc == dec_val(body.take(i - start)),
        decreases v@.len() - i,
    {
        let ghost k = i - start;
        proof {
            assert(body.take(k + 1).drop_last() =~= body.take(k));
            assert(body.take(k + 1).last() == body[k]);
        }
        proof {
            assert(body[k as int] == v@[i as int]);
        }
        match char_to_digit(v[i]) {
            None => {
                proof {
                    assert(!is_digit(body[k as int]));
                    assert(!all_digits(body));
                }
                return None;
            },
            Some(d) => {
                if acc > (u64::MAX - d) / 10 {
                    proof {
                        lemma_dec_val_nonneg(body.take(k));
                        assert(dec_val(body.take(k + 1)) == acc * 10 + d);
                        assert(acc * 10 + d > u64::MAX) by (nonlinear_arith)
                            requires
                                acc > (u64::MAX - d) / 10,
                                d < 10,
                        ;
                        assert(all_digits(body.take(k + 1))) by {
                            assert(forall|j: int|
                                0 <= j < k + 1 ==> #[trigger] body.take(k + 1)[j] == body[j]);
                        }
                        if all_digits(body) {
                            lemma_dec_val_overflow(body, k + 1);
                        }
                    }
                    return None;
                }
                proof {
                    assert(acc * 10 + d <= u64::MAX) by (nonlinear_arith)
                        requires
                            acc <= (u64::MAX - d) / 10,
                            d < 10,
                    ;
                }
                acc = acc * 10 + d;
            },
        }
        i = i + 1;
    }
    proof {
        assert(body.take(i - start) =~= body);
    }
    Some(acc)
}

} // verus!

verus! {

/// Relies on String's FromIterator over char: collecting yields exactly the
/// characters of the iterator in order.
#[verifier::external_body]
pub fn chars_to_string(v: &Vec<char>) -> (s: String)
    ensures
        s@ == v@,
{
    v.iter().collect()
}

/// Copies the characters of a string slice into a vector.
pub fn str_to_chars(s: &str) -> (v: Vec<char>)
    ensures
        v@ == s@,
{
    let n = s.unicode_len();
    let mut v: Vec<char> = Vec::new();
    let mut i: usize = 0;
    while i < n
        invariant
            i <= n,
            n == s@.len(),
            v@ =~= s@.take(i as int),
        decreases n - i,
    {
        v.push(s.get_char(i));
        proof {
            assert(s@.take(i + 1) =~= s@.take(i as int).push(s@[i as int]));
        }
        i = i + 1;
    }
    proof {
        assert(v@ =~= s@);
    }
    v
}

/// Compares two string slices character by character.
pub fn str_eq(a: &str, b: &str) -> (r: bool)
    ensures
        r == (a@ == b@),
{
    let na = a.unicode_len();
    let nb = b.unicode_len();
    if na != nb {
        proof {
            assert(a@ != b@);
        }
        return false;
    }
    let mut i: usize = 0;
    while i < na
        invariant
            i <= na,
            na == a@.len(),
            na == b@.len(),
            forall|j: int| 0 <= j < i ==> a@[j] == b@[j],
        decreases na - i,
    {
        if a.get_char(i) != b.get_char(i) {
            return false;
        }
        i = i + 1;
    }
    proof {
        assert(a@ =~= b@);
    }
    true
}

/// Compares an owned string with a string slice.
pub fn string_eq(a: &String, b: &str) -> (r: bool)
    ensures
        r == (a@ == b@),
{
    str_eq(a.as_str(), b)
}

/// Whether `p` is an initial segment of `s`.
pub open spec fn has_prefix(s: Seq<char>, p: Seq<char>) -> bool {
    p.len() <= s.len() && s.take(p.len() as int) == p
}

pub fn chars_have_prefix(v: &Vec<char>, p: &Vec<char>) -> (r: bool)
    ensures
        r == has_prefix(v@, p@),
{
    if p.len() > v.len() {
        return false;
    }
    let mut i: usize = 0;
    while i < p.len()
        invariant
            i <= p@.len() <= v@.len(),
            forall|j: int| 0 <= j < i ==> v@[j] == p@[j],
        decreases p@.len() - i,
    {
        if v[i] != p[i] {
            proof {
                assert(v@.take(p@.len() as int)[i as int] != p@[i as int]);
            }
            return false;
        }
        i = i + 1;
    }
    proof {
        assert(v@.take(p@.len() as int) =~= p@);
    }
    true
}

/// Copies `v[from..to]` into a fresh vector.
pub fn chars_sub(v: &Vec<char>, from: usize, to: usize) -> (r: Vec<char>)
    requires
        from <= to <= v@.len(),
    ensures
        r@ == v@.subrange(from as int, to as int),
{
    let mut r: Vec<char> = Vec::new();
    let mut i = from;
    while i < to
        invariant
            from <= i <= to <= v@.len(),
            r@ =~= v@.subrange(from as int, i as int),
        decreases to - i,
    {
        r.push(v[i]);
        proof {
            assert(v@.subrange(from as int, i + 1) =~= v@.subrange(from as int, i as int).push(
                v@[i as int],
            ));
        }
        i = i + 1;
    }
    r
}

/// Appends the characters of `src` to `dst`.
pub fn chars_extend(dst: &mut Vec<char>, src: &Vec<char>)
    ensures
        final(dst)@ == old(dst)@ + src@,
{
    let mut i: usize = 0;
    while i < src.len()
        invariant
            i <= src@.len(),
            dst@ =~= old(dst)@ + src@.take(i as int),
        decreases src@.len() - i,
    {
        dst.push(src[i]);
        proof {
            assert(old(dst)@ + src@.take(i + 1) =~= (old(dst)@ + src@.take(i as int)).push(
                src@[i as int],
            ));
        }
        i = i + 1;
    }
    proof {
        assert(src@.take(src@.len() as int) =~= src@);
    }
}

/// Whether `needle` occurs in `hay` starting at position `i`.
pub open spec fn matches_at(hay: Seq<char>, needle: Seq<char>, i: int) -> bool {
    0 <= i && i + needle.len() <= hay.len() && hay.subrange(i, i + needle.len()) == needle
}

/// Whether `needle` occurs anywhere in `hay`.
pub open spec fn contains_sub(hay: Seq<char>, needle: Seq<char>) -> bool {
    exists|i: int| matches_at(hay, needle, i)
}

pub fn chars_contain_sub(hay: &Vec<char>, needle: &Vec<char>) -> (r: bool)
    ensures
        r == contains_sub(hay@, needle@),
{
    let hn = hay.len();
    let nn = needle.len();
    if nn == 0 {
        proof {
            assert(hay@.subrange(0, 0) =~= needle@);
            assert(matches_at(hay@, needle@, 0));
        }
        return true;
    }
    if nn > hn {
        proof {
            assert(forall|i: int| !matches_at(hay@, needle@, i));
        }
        return false;
    }
    let last = hn - nn;
    let mut i: usize = 0;
    while i <= last
        invariant
            i <= last + 1,
            last == hay@.len() - needle@.len(),
            1 <= needle@.len() <= hay@.len(),
            hn == hay@.len(),
            nn == needle@.len(),
            forall|k: int| 0 <= k < i ==> !matches_at(hay@, needle@, k),
        decreases last - i + 1,
    {
        let mut all_eq = true;
        let mut j: usize = 0;
        loop
            invariant_except_break
                all_eq,
                j <= nn,
                i <= last,
                last == hay@.len() - needle@.len(),
                hn == hay@.len(),
                nn == needle@.len(),
                forall|m: int| 0 <= m < j ==> hay@[i + m] == needle@[m],
            ensures
                all_eq ==> matches_at(hay@, needle@, i as int),
                !all_eq ==> !matches_at(hay@, needle@, i as int),
            decreases nn - j,
        {
            if j == nn {
                proof {
                    assert forall|m: int| 0 <= m < needle@.len() implies hay@.subrange(
                        i as int,
                        i + needle@.len(),
                    )[m] == needle@[m] by {
                        assert(hay@.subrange(i as int, i + needle@.len())[m] == hay@[i + m]);
                    }
                    assert(hay@.subrange(i as int, i + needle@.len()) =~= needle@);
                }
                break;
            }
            if hay[i + j] != needle[j] {
                all_eq = false;
                proof {
                    if matches_at(hay@, needle@, i as int) {
                        assert(hay@.subrange(i as int, i + needle@.len())[j as int] == hay@[i + j]);
                    }
                }
                break;
            }
            j = j + 1;
        }
        if all_eq {
            return true;
        }
        i = i + 1;
    }
    proof {
        assert(forall|k: int| k > last ==> !matches_at(hay@, needle@, k));
    }
    false
}

/// Whether `needle` occurs anywhere in `hay`, for string slices.
pub fn str_contains_sub(hay: &str, needle: &str) -> (r: bool)
    ensures
        r == contains_sub(hay@, needle@),
{
    let h = str_to_chars(hay);
    let n = str_to_chars(needle);
    chars_contain_sub(&h, &n)
}

} // verus!

verus! {

/// The whitespace characters that separate command tokens.
pub open spec fn is_ws(c: char) -> bool {
    c == ' ' || c == '\t' || c == '\n' || c == '\r'
}

pub fn is_ws_char(c: char) -> (r: bool)
    ensures
        r == is_ws(c),
{
    c == ' ' || c == '\t' || c == '\n' || c == '\r'
}

/// The longest whitespace-free prefix of `s`, paired with the remainder.
pub open spec fn take_tok(s: Seq<char>) -> (Seq<char>, Seq<char>)
    decreases s.len(),
{
    if s.len() == 0 || is_ws(s[0]) {
        (Seq::empty(), s)
    } else {
        let (t, r) = take_tok(s.drop_first());
        (seq![s[0]] + t, r)
    }
}

proof fn lemma_take_tok_len(s: Seq<char>)
    ensures
        take_tok(s).0.len() + take_tok(s).1.len() == s.len(),
        s.len() > 0 && !is_ws(s[0]) ==> take_tok(s).0.len() >= 1,
    decreases s.len(),
{
    if s.len() > 0 && !is_ws(s[0]) {
        lemma_take_tok_len(s.drop_first());
    }
}

/// Where the first token of `s` ends: `take_tok(s)` splits `s` at the first
/// whitespace character.
proof fn lemma_take_tok_at(s: Seq<char>, j: int)
    requires
        0 <= j <= s.len(),
        forall|m: int| 0 <= m < j ==> !is_ws(#[trigger] s[m]),
        j == s.len() || is_ws(s[j]),
    ensures
        take_tok(s).0 == s.take(j),
        take_tok(s).1 == s.skip(j),
    decreases j,
{
    if j == 0 {
        assert(s.take(0) =~= Seq::<char>::empty());
        assert(s.skip(0) =~= s);
    } else {
        let d = s.drop_first();
        assert(forall|m: int| 0 <= m < j - 1 ==> #[trigger] d[m] == s[m + 1]);
        lemma_take_tok_at(d, j - 1);
        assert(seq![s[0]] + d.take(j - 1) =~= s.take(j));
        assert(d.skip(j - 1) =~= s.skip(j));
    }
}

/// The whitespace-separated tokens of `s`, in order, each non-empty.
pub open spec fn split_ws(s: Seq<char>) -> Seq<Seq<char>>
    decreases s.len(),
    via split_ws_dec
{
    if s.len() == 0 {
        Seq::empty()
    } else if is_ws(s[0]) {
        split_ws(s.drop_first())
    } else {
        seq![take_tok(s).0] + split_ws(take_tok(s).1)
    }
}

#[via_fn]
proof fn split_ws_dec(s: Seq<char>) {
    lemma_take_tok_len(s);
}

/// The view of each token vector, in order.
pub open spec fn toks_model(toks: Seq<Vec<char>>) -> Seq<Seq<char>> {
    toks.map_values(|t: Vec<char>| t@)
}

/// Splits a character vector into its whitespace-separated tokens.
pub fn split_ws_chars(v: &Vec<char>) -> (toks: Vec<Vec<char>>)
    ensures
        toks_model(toks@) == split_ws(v@),
{
    let n = v.len();
    let mut toks: Vec<Vec<char>> = Vec::new();
    let mut i: usize = 0;
    proof {
        assert(toks_model(toks@) =~= Seq::<Seq<char>>::empty());
        assert(v@.skip(0) =~= v@);
    }
    while i < n
        invariant
            i <= n,
            n == v@.len(),
            split_ws(v@) =~= toks_model(toks@) + split_ws(v@.skip(i as int)),
        decreases n - i,
    {
        if is_ws_char(v[i]) {
            proof {
                let s = v@.skip(i as int);
                assert(s[0] == v@[i as int]);
                assert(s.drop_first() =~= v@.skip(i + 1));
            }
            i = i + 1;
        } else {
            let start = i;
            let mut j = i + 1;
            while j < n
                invariant_except_break
                    start < j <= n,
                    n == v@.len(),
                    forall|m: int| start <= m < j ==> !is_ws(#[trigger] v@[m]),
                ensures
                    start < j <= n,
                    n == v@.len(),
                    forall|m: int| start <= m < j ==> !is_ws(#[trigger] v@[m]),
                    j == n || is_ws(v@[j as int]),
                decreases n - j,
            {
                if is_ws_char(v[j]) {
                    break;
                }
                j = j + 1;
            }
            let tok = chars_sub(v, start, j);
            proof {
                let s = v@.skip(start as int);
                assert(forall|m: int| 0 <= m < j - start ==> #[trigger] s[m] == v@[m + start]);
                lemma_take_tok_at(s, j - start);
                assert(s.take(j - start) =~= v@.subrange(start as int, j as int));
                assert(s.skip(j - start) =~= v@.skip(j as int));
                assert(toks_model(toks@.push(tok)) =~= toks_model(toks@).push(tok@));
                assert(toks_model(toks@) + seq![tok@] + split_ws(v@.skip(j as int))
                    =~= toks_model(toks@.push(tok)) + split_ws(v@.skip(j as int)));
            }
            toks.push(tok);
            i = j;
        }
    }
    proof {
        assert(v@.skip(n as int) =~= Seq::<char>::empty());
        assert(toks_model(toks@) + Seq::<Seq<char>>::empty() =~= toks_model(toks@));
    }
    toks
}

/// The tokens joined by single spaces.
pub open spec fn join_sp(parts: Seq<Seq<char>>) -> Seq<char>
    decreases parts.len(),
{
    if parts.len() == 0 {
        Seq::empty()
    } else if parts.len() == 1 {
        parts[0]
    } else {
        parts[0] + seq![' '] + join_sp(parts.drop_first())
    }
}

proof fn lemma_join_sp_push(parts: Seq<Seq<char>>, x: Seq<char>)
    ensures
        parts.len() == 0 ==> join_sp(parts.push(x)) == x,
        parts.len() > 0 ==> join_sp(parts.push(x)) == join_sp(parts) + seq![' '] + x,
    decreases parts.len(),
{
    if parts.len() == 0 {
        assert(parts.push(x)[0] =~= x);
    } else if parts.len() == 1 {
        let p = parts.push(x);
        assert(p.drop_first() =~= seq![x]);
        assert(p[0] == parts[0]);
        assert(join_sp(seq![x]) == x) by {
            assert(seq![x].len() == 1);
            assert(seq![x][0] == x);
        }
    } else {
        let p = parts.push(x);
        assert(p.drop_first() =~= parts.drop_first().push(x));
        lemma_join_sp_push(parts.drop_first(), x);
        assert((parts[0] + seq![' '] + join_sp(parts.drop_first())) + seq![' '] + x =~= parts[0]
            + seq![' '] + (join_sp(parts.drop_first()) + seq![' '] + x));
    }
}

/// Joins the tokens from index `from` on with single spaces.
pub fn join_tokens_from(toks: &Vec<Vec<char>>, from: usize) -> (r: Vec<char>)
    requires
        from <= toks@.len(),
    ensures
        r@ == join_sp(toks_model(toks@).skip(from as int)),
{
    let ghost model = toks_model(toks@).skip(from as int);
    let mut r: Vec<char> = Vec::new();
    let mut i = from;
    proof {
        assert(model.take(0) =~= Seq::<Seq<char>>::empty());
    }
    while i < toks.len()
        invariant
            from <= i <= toks@.len(),
            model == toks_model(toks@).skip(from as int),
            r@ == join_sp(model.take(i - from)),
        decreases toks@.len() - i,
    {
        proof {
            assert(model.take(i - from + 1) =~= model.take(i - from).push(model[i - from]));
            assert(model[i - from] == toks@[i as int]@);
            lemma_join_sp_push(model.take(i - from), model[i - from]);
        }
        if i > from {
            r.push(' ');
            proof {
                assert(join_sp(model.take(i - from)).push(' ') =~= join_sp(model.take(i - from))
                    + seq![' ']);
                assert(model.take(i - from).len() > 0);
            }
        }
        chars_extend(&mut r, &toks[i]);
        i = i + 1;
    }
    proof {
        assert(model.take(toks@.len() - from) =~= model);
    }
    r
}

} // verus!

verus! {

/// The string without its leading whitespace.
pub open spec fn trim_start(s: Seq<char>) -> Seq<char>
    decreases s.len(),
{
    if s.len() > 0 && is_ws(s[0]) {
        trim_start(s.drop_first())
    } else {
        s
    }
}

/// The string without its trailing whitespace.
pub open spec fn trim_end(s: Seq<char>) -> Seq<char>
    decreases s.len(),
{
    if s.len() > 0 && is_ws(s.last()) {
        trim_end(s.drop_last())
    } else {
        s
    }
}

/// The string without leading and trailing whitespace.
pub open spec fn trim_chars(s: Seq<char>) -> Seq<char> {
    trim_end(trim_start(s))
}

proof fn lemma_trim_start_at(s: Seq<char>, i: int)
    requires
        0 <= i <= s.len(),
        forall|m: int| 0 <= m < i ==> is_ws(#[trigger] s[m]),
        i == s.len() || !is_ws(s[i]),
    ensures
        trim_start(s) == s.skip(i),
    decreases i,
{
    if i == 0 {
        assert(s.skip(0) =~= s);
    } else {
        let d = s.drop_first();
        assert(forall|m: int| 0 <= m < d.len() ==> #[trigger] d[m] == s[m + 1]);
        lemma_trim_start_at(d, i - 1);
        assert(d.skip(i - 1) =~= s.skip(i));
    }
}

proof fn lemma_trim_end_at(s: Seq<char>, j: int)
    requires
        0 <= j <= s.len(),
        forall|m: int| j <= m < s.len() ==> is_ws(#[trigger] s[m]),
        j == 0 || !is_ws(s[j - 1]),
    ensures
        trim_end(s) == s.take(j),
    decreases s.len() - j,
{
    if j == s.len() {
        if s.len() > 0 && is_ws(s.last()) {
            let d = s.drop_last();
            assert(forall|m: int| j - 1 <= m < d.len() ==> is_ws(#[trigger] d[m]));
            lemma_trim_end_at(d, j - 1);
            assert(d.take(j - 1) =~= s.take(j - 1));
            assert(false);
        } else {
            assert(s.take(j) =~= s);
        }
    } else {
        assert(is_ws(s.last()));
        let d = s.drop_last();
        assert(forall|m: int| 0 <= m < d.len() ==> #[trigger] d[m] == s[m]);
        lemma_trim_end_at(d, j);
        assert(d.take(j) =~= s.take(j));
    }
}

/// Copies `v` without its leading and trailing whitespace.
pub fn trim_chars_exec(v: &Vec<char>) -> (r: Vec<char>)
    ensures
        r@ == trim_chars(v@),
{
    let n = v.len();
    let mut i: usize = 0;
    while i < n && is_ws_char(v[i])
        invariant
            i <= n,
            n == v@.len(),
            forall|m: int| 0 <= m < i ==> is_ws(#[trigger] v@[m]),
        decreases n - i,
    {
        i = i + 1;
    }
    proof {
        lemma_trim_start_at(v@, i as int);
    }
    let mut j: usize = n;
    while j > i && is_ws_char(v[j - 1])
        invariant
            i <= j <= n,
            n == v@.len(),
            forall|m: int| j <= m < n ==> is_ws(#[trigger] v@[m]),
        decreases j,
    {
        j = j - 1;
    }
    let r = chars_sub(v, i, j);
    proof {
        let t = v@.skip(i as int);
        assert(forall|m: int| 0 <= m < t.len() ==> #[trigger] t[m] == v@[m + i]);
        if j == i {
            lemma_trim_end_at(t, 0);
        } else {
            assert(!is_ws(t[j - i - 1]));
            lemma_trim_end_at(t, j - i);
        }
        assert(t.take(j - i) =~= v@.subrange(i as int, j as int));
    }
    r
}

} // verus!

verus! {

/// Whether `p` is a final segment of `s`.
pub open spec fn has_suffix(s: Seq<char>, p: Seq<char>) -> bool {
    p.len() <= s.len() && s.skip(s.len() - p.len()) == p
}

pub fn chars_have_suffix(v: &Vec<char>, p: &Vec<char>) -> (r: bool)
    ensures
        r == has_suffix(v@, p@),
{
    if p.len() > v.len() {
        return false;
    }
    let off = v.len() - p.len();
    let mut i: usize = 0;
    while i < p.len()
        invariant
            i <= p@.len() <= v@.len(),
            v@.len() <= usize::MAX,
            off == v@.len() - p@.len(),
            forall|j: int| 0 <= j < i ==> v@[off + j] == p@[j],
        decreases p@.len() - i,
    {
        if v[off + i] != p[i] {
            proof {
                assert(v@.skip(off as int)[i as int] == v@[off + i]);
            }
            return false;
        }
        i = i + 1;
    }
    proof {
        assert forall|j: int| 0 <= j < p@.len() implies v@.skip(off as int)[j] == p@[j] by {
            assert(v@.skip(off as int)[j] == v@[off + j]);
        }
        assert(v@.skip(off as int) =~= p@);
    }
    true
}

} // verus!

verus! {

/// The views of a list of strings, in order.
pub open spec fn strings_model(items: Seq<String>) -> Seq<Seq<char>> {
    items.map_values(|s: String| s@)
}

/// Compares a character vector with a string slice.
pub fn chars_eq_str(v: &Vec<char>, s: &str) -> (r: bool)
    ensures
        r == (v@ == s@),
{
    let n = s.unicode_len();
    if v.len() != n {
        proof {
            assert(v@ != s@);
        }
        return false;
    }
    let mut i: usize = 0;
    while i < n
        invariant
            i <= n,
            n == s@.len(),
            n == v@.len(),
            forall|j: int| 0 <= j < i ==> v@[j] == s@[j],
        decreases n - i,
    {
        if v[i] != s.get_char(i) {
            return false;
        }
        i = i + 1;
    }
    proof {
        assert(v@ =~= s@);
    }
    true
}

/// The first position where `needle` occurs in `hay`, scanning forward.
pub fn chars_find_sub(hay: &Vec<char>, needle: &Vec<char>) -> (r: Option<usize>)
    ensures
        r matches Some(i) ==> matches_at(hay@, needle@, i as int) && (forall|k: int|
            0 <= k < i ==> !matches_at(hay@, needle@, k)),
        r is None ==> !contains_sub(hay@, needle@),
{
    let hn = hay.len();
    let nn = needle.len();
    if nn == 0 {
        proof {
            assert(hay@.subrange(0, 0) =~= needle@);
        }
        return Some(0);
    }
    if nn > hn {
        proof {
            assert(forall|i: int| !matches_at(hay@, needle@, i));
        }
        return None;
    }
    let last = hn - nn;
    let mut i: usize = 0;
    while i <= last
        invariant
            i <= last + 1,
            last == hay@.len() - needle@.len(),
            1 <= needle@.len() <= hay@.len(),
            hn == hay@.len(),
            nn == needle@.len(),
            forall|k: int| 0 <= k < i ==> !matches_at(hay@, needle@, k),
        decreases last - i + 1,
    {
        let mut all_eq = true;
        let mut j: usize = 0;
        loop
            invariant_except_break
                all_eq,
                j <= nn,
                i <= last,
                last == hay@.len() - needle@.len(),
                hn == hay@.len(),
                nn == needle@.len(),
                forall|m: int| 0 <= m < j ==> hay@[i + m] == needle@[m],
            ensures
                all_eq ==> matches_at(hay@, needle@, i as int),
                !all_eq ==> !matches_at(hay@, needle@, i as int),
            decreases nn - j,
        {
            if j == nn {
                proof {
                    assert forall|m: int| 0 <= m < needle@.len() implies hay@.subrange(
                        i as int,
                        i + needle@.len(),
                    )[m] == needle@[m] by {
                        assert(hay@.subrange(i as int, i + needle@.len())[m] == hay@[i + m]);
                    }
                    assert(hay@.subrange(i as int, i + needle@.len()) =~= needle@);
                }
                break;
            }
            if hay[i + j] != needle[j] {
                all_eq = false;
                proof {
                    if matches_at(hay@, needle@, i as int) {
                        assert(hay@.subrange(i as int, i + needle@.len())[j as int] == hay@[i + j]);
                    }
                }
                break;
            }
            j = j + 1;
        }
        if all_eq {
            return Some(i);
        }
        i = i + 1;
    }
    proof {
        assert(forall|k: int| k > last ==> !matches_at(hay@, needle@, k));
    }
    None
}

/// The first position of character `c` in `v`, scanning forward.
pub fn chars_index_of(v: &Vec<char>, c: char) -> (r: Option<usize>)
    ensures
        r matches Some(i) ==> i < v@.len() && v@[i as int] == c && (forall|k: int|
            0 <= k < i ==> v@[k] != c),
        r is None ==> forall|k: int| 0 <= k < v@.len() ==> v@[k] != c,
{
    let mut i: usize = 0;
    while i < v.len()
        invariant
            i <= v@.len(),
            forall|k: int| 0 <= k < i ==> v@[k] != c,
        decreases v@.len() - i,
    {
        if v[i] == c {
            return Some(i);
        }
        i = i + 1;
    }
    None
}

/// Joins a list of strings with single spaces.
pub fn join_strings(items: &Vec<String>) -> (r: Vec<char>)
    ensures
        r@ == join_sp(strings_model(items@)),
{
    let ghost model = strings_model(items@);
    let mut r: Vec<char> = Vec::new();
    let mut i: usize = 0;
    proof {
        assert(model.take(0) =~= Seq::<Seq<char>>::empty());
    }
    while i < items.len()
        invariant
            i <= items@.len(),
            model == strings_model(items@),
            r@ == join_sp(model.take(i as int)),
        decreases items@.len() - i,
    {
        proof {
            assert(model.take(i + 1) =~= model.take(i as int).push(model[i as int]));
            assert(model[i as int] == items@[i as int]@);
            lemma_join_sp_push(model.take(i as int), model[i as int]);
        }
        if i > 0 {
            r.push(' ');
            proof {
                assert(join_sp(model.take(i as int)).push(' ') =~= join_sp(model.take(i as int))
                    + seq![' ']);
                assert(model.take(i as int).len() > 0);
            }
        }
        let chars = str_to_chars(items[i].as_str());
        chars_extend(&mut r, &chars);
        i = i + 1;
    }
    proof {
        assert(model.take(items@.len() as int) =~= model);
    }
    r
}

} // verus!

verus! {

/// A single whitespace-free token splits into itself.
pub proof fn lemma_split_ws_single(t: Seq<char>)
    requires
        t.len() > 0,
        forall|i: int| 0 <= i < t.len() ==> !is_ws(#[trigger] t[i]),
    ensures
        split_ws(t) == seq![t],
{
    assert(!is_ws(t[0]));
    lemma_take_tok_at(t, t.len() as int);
    assert(t.take(t.len() as int) =~= t);
    assert(t.skip(t.len() as int) =~= Seq::<char>::empty());
    assert(split_ws(Seq::<char>::empty()) =~= Seq::<Seq<char>>::empty());
    assert(split_ws(t) =~= seq![t]);
}

/// A whitespace-free token, a space, and a remainder split into the token
/// followed by the remainder's tokens.
pub proof fn lemma_split_ws_sep(t: Seq<char>, s: Seq<char>)
    requires
        t.len() > 0,
        forall|i: int| 0 <= i < t.len() ==> !is_ws(#[trigger] t[i]),
    ensures
        split_ws(t + seq![' '] + s) == seq![t] + split_ws(s),
{
    let whole = t + seq![' '] + s;
    assert(forall|i: int| 0 <= i < t.len() ==> #[trigger] whole[i] == t[i]);
    assert(whole[t.len() as int] == ' ');
    assert(whole[0] == t[0]);
    assert(!is_ws(t[0]));
    assert(forall|i: int| 0 <= i < t.len() ==> !is_ws(#[trigger] whole[i]));
    lemma_take_tok_at(whole, t.len() as int);
    assert(whole.take(t.len() as int) =~= t);
    let rest = whole.skip(t.len() as int);
    assert(rest =~= seq![' '] + s);
    assert(rest.len() > 0 && is_ws(rest[0]));
    assert(rest.drop_first() =~= s);
    assert(split_ws(rest) == split_ws(s));
    assert(split_ws(whole) =~= seq![t] + split_ws(s));
}

/// Decimal digits hold no whitespace.
pub proof fn lemma_digits_not_ws(s: Seq<char>)
    requires
        all_digits(s),
    ensures
        forall|i: int| 0 <= i < s.len() ==> !is_ws(#[trigger] s[i]),
{
    assert forall|i: int| 0 <= i < s.len() implies !is_ws(s[i]) by {
        assert(is_digit(s[i]));
    }
}

} // verus!

verus! {

/// One whitespace-free, non-empty token.
pub open spec fn single_token(s: Seq<char>) -> bool {
    s.len() > 0 && (forall|i: int| 0 <= i < s.len() ==> !is_ws(#[trigger] s[i]))
}

/// A list of whitespace-free, non-empty tokens.
pub open spec fn single_tokens(parts: Seq<Seq<char>>) -> bool {
    forall|j: int| 0 <= j < parts.len() ==> single_token(#[trigger] parts[j])
}

/// Joining prepends the head and one space before the joined tail.
pub proof fn lemma_join_sp_cons(a: Seq<char>, rest: Seq<Seq<char>>)
    requires
        rest.len() >= 1,
    ensures
        join_sp(seq![a] + rest) == a + seq![' '] + join_sp(rest),
{
    let parts = seq![a] + rest;
    assert(parts[0] == a);
    assert(parts.drop_first() =~= rest);
    if parts.len() == 1 {
        assert(false);
    }
}

/// Joining two tokens puts one space between them.
pub proof fn lemma_join_sp_two(a: Seq<char>, b: Seq<char>)
    ensures
        join_sp(seq![a, b]) == a + seq![' '] + b,
{
    let parts = seq![a, b];
    assert(parts[0] == a);
    assert(parts.drop_first() =~= seq![b]);
    assert(join_sp(seq![b]) == b) by {
        assert(seq![b].len() == 1);
        assert(seq![b][0] == b);
    }
}

/// Splitting undoes joining: tokens joined by single spaces split back into
/// exactly those tokens.
pub proof fn lemma_split_ws_join(parts: Seq<Seq<char>>)
    requires
        single_tokens(parts),
    ensures
        split_ws(join_sp(parts)) == parts,
    decreases parts.len(),
{
    if parts.len() == 0 {
        assert(split_ws(join_sp(parts)) =~= parts);
    } else if parts.len() == 1 {
        assert(single_token(parts[0]));
        lemma_split_ws_single(parts[0]);
        assert(seq![parts[0]] =~= parts);
    } else {
        let rest = parts.drop_first();
        assert(forall|j: int| 0 <= j < rest.len() ==> #[trigger] rest[j] == parts[j + 1]);
        assert(single_tokens(rest));
        lemma_split_ws_join(rest);
        assert(single_token(parts[0]));
        lemma_split_ws_sep(parts[0], join_sp(rest));
        assert(seq![parts[0]] + rest =~= parts);
    }
}

} // verus!

verus! {

/// Joining two non-empty lists in sequence joins their joins with one
/// space.
pub proof fn lemma_join_sp_concat(a: Seq<Seq<char>>, b: Seq<Seq<char>>)
    requires
        a.len() >= 1,
        b.len() >= 1,
    ensures
        join_sp(a + b) == join_sp(a) + seq![' '] + join_sp(b),
    decreases a.len(),
{
    if a.len() == 1 {
        assert(a + b =~= seq![a[0]] + b);
        lemma_join_sp_cons(a[0], b);
        assert(join_sp(a) == a[0]);
    } else {
        let d = a.drop_first();
        assert(a + b =~= seq![a[0]] + (d + b));
        lemma_join_sp_cons(a[0], d + b);
        lemma_join_sp_concat(d, b);
        assert(a[0] + seq![' '] + (join_sp(d) + seq![' '] + join_sp(b)) =~= (a[0] + seq![' ']
            + join_sp(d)) + seq![' '] + join_sp(b));
    }
}

} // verus!
