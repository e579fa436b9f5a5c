//! Character-level string operations with exact specifications.
use vstd::prelude::*;

verus! {

/// Appends one character to a `String` (`String::push`).
#[verifier::external_body]
pub(crate) fn push_char(s: &mut String, c: char)
    ensures
        final(s)@ == old(s)@.push(c),
{
    s.push(c);
}

/// The characters of `s`, in order.
pub fn chars_of(s: &str) -> (v: Vec<char>)
    ensures
        v@ == s@,
{
    let mut v: Vec<char> = Vec::new();
    for c in it: s.chars()
        invariant
            v@ == it.seq().take(it.index() as int),
    {
        v.push(c);
    }
    v
}

/// The string made of the characters of `v`, in order.
pub fn string_of(v: &Vec<char>) -> (s: String)
    ensures
        s@ == v@,
{
    let mut s = String::new();
    let mut i: usize = 0;
    while i < v.len()
        invariant
            i <= v.len(),
            s@ == v@.take(i as int),
        decreases v.len() - i,
    {
        push_char(&mut s, v[i]);
        assert(v@.take(i + 1) =~= v@.take(i as int).push(v@[i as int]));
        i += 1;
    }
    assert(v@.take(v.len() as int) =~= v@);
    s
}

/// Whether `pat` occurs in `s` starting at index `i`.
pub open spec fn occurs_at(s: Seq<char>, i: int, pat: Seq<char>) -> bool {
    0 <= i && i + pat.len() <= s.len() && s.subrange(i, i + pat.len()) == pat
}

/// `s` with every non-overlapping occurrence of `pat`, found from left to right,
/// replaced by `to` (the behaviour of `str::replace` for a non-empty pattern).
pub open spec fn replace_all_spec(s: Seq<char>, pat: Seq<char>, to: Seq<char>) -> Seq<char>
    decreases s.len(),
{
    if s.len() == 0 {
        s
    } else if pat.len() > 0 && occurs_at(s, 0, pat) {
        to + replace_all_spec(s.skip(pat.len() as int), pat, to)
    } else {
        seq![s[0]] + replace_all_spec(s.skip(1), pat, to)
    }
}

/// `s` with its first occurrence of `pat` replaced by `to`, or `s` itself when
/// `pat` does not occur (the behaviour of `str::replacen(pat, to, 1)` for a
/// non-empty pattern).
pub open spec fn replace_first_spec(s: Seq<char>, pat: Seq<char>, to: Seq<char>) -> Seq<char>
    decreases s.len(),
{
    if s.len() == 0 {
        s
    } else if pat.len() > 0 && occurs_at(s, 0, pat) {
        to + s.skip(pat.len() as int)
    } else {
        seq![s[0]] + replace_first_spec(s.skip(1), pat, to)
    }
}

fn occurs_at_exec(s: &Vec<char>, i: usize, pat: &Vec<char>) -> (r: bool)
    requires
        i <= s.len(),
    ensures
        r == occurs_at(s@, i as int, pat@),
{
    if pat.len() > s.len() - i {
        return false;
    }
    let mut k: usize = 0;
    while k < pat.len()
        invariant
            k <= pat.len(),
            i + pat.len() <= s.len(),
            forall|j: int| 0 <= j < k ==> s@[i + j] == pat@[j],
        decreases pat.len() - k,
    {
        if s[i + k] != pat[k] {
            assert(s@.subrange(i as int, i + pat.len())[k as int] != pat@[k as int]);
            return false;
        }
        k += 1;
    }
    assert(s@.subrange(i as int, i + pat.len()) =~= pat@);
    true
}

proof fn lemma_occurs_at_skip(s: Seq<char>, i: int, pat: Seq<char>)
    requires
        0 <= i <= s.len(),
    ensures
        occurs_at(s.skip(i), 0, pat) == occurs_at(s, i, pat),
{
    if i + pat.len() <= s.len() {
        assert(s.skip(i).subrange(0, pat.len() as int) =~= s.subrange(i, i + pat.len()));
    }
}

/// Appends `src[from..to]` to `out`.
pub(crate) fn extend_range(out: &mut Vec<char>, src: &Vec<char>, from: usize, to: usize)
    requires
        from <= to <= src.len(),
    ensures
        final(out)@ == old(out)@ + src@.subrange(from as int, to as int),
{
    let mut k: usize = from;
    while k < to
        invariant
            from <= k <= to <= src.len(),
            out@ == old(out)@ + src@.subrange(from as int, k as int),
        decreases to - k,
    {
        out.push(src[k]);
        assert(src@.subrange(from as int, k + 1) =~= src@.subrange(from as int, k as int).push(src@[k as int]));
        k += 1;
    }
}

/// Replaces every occurrence of `from` in `s` by `to`, as `str::replace` does.
pub fn replace_all(s: &str, from: &str, to: &str) -> (r: String)
    requires
        from@.len() > 0,
    ensures
        r@ == replace_all_spec(s@, from@, to@),
{
    let sv = chars_of(s);
    let pat = chars_of(from);
    let tv = chars_of(to);
    let mut out: Vec<char> = Vec::new();
    let mut i: usize = 0;
    assert(sv@.skip(0) =~= sv@);
    while i < sv.len()
        invariant
            i <= sv.len(),
            sv@ == s@,
            pat@ == from@,
            tv@ == to@,
            pat@.len() > 0,
            out@ + replace_all_spec(sv@.skip(i as int), pat@, tv@) == replace_all_spec(sv@, pat@, tv@),
        decreases sv.len() - i,
    {
        let ghost rest = sv@.skip(i as int);
        proof {
            lemma_occurs_at_skip(sv@, i as int, pat@);
        }
        if occurs_at_exec(&sv, i, &pat) {
            let ghost before = out@;
            extend_range(&mut out, &tv, 0, tv.len());
            assert(tv@.subrange(0, tv.len() as int) =~= tv@);
            assert(rest.skip(pat@.len() as int) =~= sv@.skip(i + pat.len()));
            assert(before + (tv@ + replace_all_spec(sv@.skip(i + pat.len()), pat@, tv@))
                =~= out@ + replace_all_spec(sv@.skip(i + pat.len()), pat@, tv@));
            i = i + pat.len();
        } else {
            let ghost before = out@;
            out.push(sv[i]);
            assert(rest.skip(1) =~= sv@.skip(i + 1));
            assert(before + (seq![sv@[i as int]] + replace_all_spec(sv@.skip(i + 1), pat@, tv@))
                =~= out@ + replace_all_spec(sv@.skip(i + 1), pat@, tv@));
            i = i + 1;
        }
    }
    assert(sv@.skip(i as int) =~= Seq::<char>::empty());
    assert(out@ + Seq::<char>::empty() =~= out@);
    string_of(&out)
}

/// Replaces the first occurrence of `from` in `s` by `to`, as
/// `str::replacen(from, to, 1)` does.
pub fn replace_first(s: &str, from: &str, to: &str) -> (r: String)
    requires
        from@.len() > 0,
    ensures
        r@ == replace_first_spec(s@, from@, to@),
{
    let sv = chars_of(s);
    let pat = chars_of(from);
    let tv = chars_of(to);
    let mut i: usize = 0;
    assert(sv@.skip(0) =~= sv@);
    assert(sv@.subrange(0, 0) =~= Seq::<char>::empty());
    while i < sv.len()
        invariant
            i <= sv.len(),
            sv@ == s@,
            pat@ == from@,
            tv@ == to@,
            pat@.len() > 0,
            sv@.subrange(0, i as int) + replace_first_spec(sv@.skip(i as int), pat@, tv@)
                == replace_first_spec(sv@, pat@, tv@),
        decreases sv.len() - i,
    {
        let ghost rest = sv@.skip(i as int);
        proof {
            lemma_occurs_at_skip(sv@, i as int, pat@);
        }
        if occurs_at_exec(&sv, i, &pat) {
            let mut out: Vec<char> = Vec::new();
            extend_range(&mut out, &sv, 0, i);
            extend_range(&mut out, &tv, 0, tv.len());
            extend_range(&mut out, &sv, i + pat.len(), sv.len());
            assert(tv@.subrange(0, tv.len() as int) =~= tv@);
            assert(rest.skip(pat@.len() as int) =~= sv@.subrange(i + pat.len(), sv.len() as int));
            assert(out@ =~= sv@.subrange(0, i as int) + (tv@ + rest.skip(pat@.len() as int)));
            return string_of(&out);
        }
        assert(rest.skip(1) =~= sv@.skip(i + 1));
        assert(sv@.subrange(0, i + 1) =~= sv@.subrange(0, i as int) + seq![sv@[i as int]]);
        i = i + 1;
    }
    assert(sv@.skip(i as int) =~= Seq::<char>::empty());
    assert(sv@.subrange(0, i as int) =~= sv@);
    string_of(&sv)
}

/// The text `a` followed by the text `b`.
pub fn concat(a: &str, b: &str) -> (r: String)
    ensures
        r@ == a@ + b@,
{
    let mut v = chars_of(a);
    let w = chars_of(b);
    extend_range(&mut v, &w, 0, w.len());
    assert(w@.subrange(0, w.len() as int) =~= w@);
    string_of(&v)
}

/// Whether `c` has the Unicode `White_Space` property, which is what
/// `char::is_whitespace` and `str::trim` test.
pub open spec fn is_white_space(c: char) -> bool {
    let u = c as u32;
    ||| 0x9 <= u <= 0xd
    ||| u == 0x20
    ||| u == 0x85
    ||| u == 0xa0
    ||| u == 0x1680
    ||| 0x2000 <= u <= 0x200a
    ||| u == 0x2028
    ||| u == 0x2029
    ||| u == 0x202f
    ||| u == 0x205f
    ||| u == 0x3000
}

fn white_space(c: char) -> (r: bool)
    ensures
        r == is_white_space(c),
{
    let u = c as u32;
    (0x9 <= u && u <= 0xd) || u == 0x20 || u == 0x85 || u == 0xa0 || u == 0x1680 || (0x2000 <= u
        && u <= 0x200a) || u == 0x2028 || u == 0x2029 || u == 0x202f || u == 0x205f || u == 0x3000
}

/// `s` without its leading white space.
pub open spec fn trim_start_spec(s: Seq<char>) -> Seq<char>
    decreases s.len(),
{
    if s.len() > 0 && is_white_space(s[0]) {
        trim_start_spec(s.skip(1))
    } else {
        s
    }
}

/// `s` without its trailing white space.
pub open spec fn trim_end_spec(s: Seq<char>) -> Seq<char>
    decreases s.len(),
{
    if s.len() > 0 && is_white_space(s.last()) {
        trim_end_spec(s.drop_last())
    } else {
        s
    }
}

/// `s` without leading and trailing white space (`str::trim`).
pub open spec fn trim_spec(s: Seq<char>) -> Seq<char> {
    trim_end_spec(trim_start_spec(s))
}

/// Removes leading and trailing white space, as `str::trim` does.
pub fn trim(s: &str) -> (r: String)
    ensures
        r@ == trim_spec(s@),
{
    let v = chars_of(s);
    let n = v.len();
    let mut i: usize = 0;
    assert(v@.skip(0) =~= v@);
    while i < n && white_space(v[i])
        invariant
            i <= n == v@.len(),
            trim_start_spec(v@) == trim_start_spec(v@.skip(i as int)),
        decreases n - i,
    {
        assert(v@.skip(i as int).skip(1) =~= v@.skip(i + 1));
        i += 1;
    }
    assert(trim_start_spec(v@) == v@.subrange(i as int, n as int)) by {
        assert(v@.skip(i as int) =~= v@.subrange(i as int, n as int));
    }
    let mut j: usize = n;
    while j > i && white_space(v[j - 1])
        invariant
            i <= j <= n == v@.len(),
            trim_end_spec(v@.subrange(i as int, n as int)) == trim_end_spec(v@.subrange(i as int, j as int)),
        decreases j,
    {
        assert(v@.subrange(i as int, j as int).drop_last() =~= v@.subrange(i as int, j - 1));
        j -= 1;
    }
    let mut out: Vec<char> = Vec::new();
    extend_range(&mut out, &v, i, j);
    assert(out@ =~= v@.subrange(i as int, j as int));
    string_of(&out)
}

/// The part of `s` before its first `sep`, or all of `s` when `sep` does not
/// occur (the first item of `str::split`).
pub open spec fn first_segment_spec(s: Seq<char>, sep: char) -> Seq<char>
    decreases s.len(),
{
    if s.len() == 0 {
        s
    } else if s[0] == sep {
        Seq::empty()
    } else {
        seq![s[0]] + first_segment_spec(s.skip(1), sep)
    }
}

/// The first item that `str::split(sep)` yields on `s`.
pub fn first_segment(s: &Vec<char>, sep: char) -> (r: Vec<char>)
    ensures
        r@ == first_segment_spec(s@, sep),
{
    let mut i: usize = 0;
    assert(s@.skip(0) =~= s@);
    assert(s@.subrange(0, 0) =~= Seq::<char>::empty());
    while i < s.len() && s[i] != sep
        invariant
            i <= s.len(),
            first_segment_spec(s@, sep) == s@.subrange(0, i as int) + first_segment_spec(
                s@.skip(i as int),
                sep,
            ),
        decreases s.len() - i,
    {
        assert(s@.skip(i as int).skip(1) =~= s@.skip(i + 1));
        assert(s@.subrange(0, i + 1) =~= s@.subrange(0, i as int) + seq![s@[i as int]]);
        i += 1;
    }
    let mut out: Vec<char> = Vec::new();
    extend_range(&mut out, s, 0, i);
    assert(first_segment_spec(s@.skip(i as int), sep) =~= Seq::<char>::empty());
    assert(out@ =~= s@.subrange(0, i as int) + Seq::<char>::empty());
    out
}

/// The items that `str::split(sep)` yields on `s`, empty items included.
pub open spec fn split_spec(s: Seq<char>, sep: char) -> Seq<Seq<char>>
    decreases s.len(),
{
    if s.len() == 0 {
        seq![Seq::empty()]
    } else {
        let p = split_spec(s.drop_last(), sep);
        if s.last() == sep {
            p.push(Seq::empty())
        } else {
            p.update(p.len() - 1, p.last().push(s.last()))
        }
    }
}

pub proof fn lemma_split_nonempty(s: Seq<char>, sep: char)
    ensures
        split_spec(s, sep).len() >= 1,
    decreases s.len(),
{
    if s.len() > 0 {
        lemma_split_nonempty(s.drop_last(), sep);
    }
}

/// The views of a vector of character vectors.
pub open spec fn views_of(v: Seq<Vec<char>>) -> Seq<Seq<char>> {
    v.map_values(|x: Vec<char>| x@)
}

/// Splits `s` at every `sep`, as `str::split` does.
pub fn split_chars(s: &Vec<char>, sep: char) -> (r: Vec<Vec<char>>)
    ensures
        views_of(r@) == split_spec(s@, sep),
{
    let mut done: Vec<Vec<char>> = Vec::new();
    let mut cur: Vec<char> = Vec::new();
    let mut i: usize = 0;
    assert(s@.take(0) =~= Seq::<char>::empty());
    assert(views_of(done@).push(cur@) =~= split_spec(s@.take(0), sep));
    while i < s.len()
        invariant
            i <= s.len(),
            views_of(done@).push(cur@) == split_spec(s@.take(i as int), sep),
        decreases s.len() - i,
    {
        let ghost prev = s@.take(i as int);
        assert(s@.take(i + 1).drop_last() =~= prev);
        proof {
            lemma_split_nonempty(prev, sep);
        }
        if s[i] == sep {
            let finished = cur;
            done.push(finished);
            cur = Vec::new();
            assert(views_of(done@).push(cur@) =~= split_spec(prev, sep).push(Seq::empty()));
        } else {
            cur.push(s[i]);
            assert(views_of(done@).push(cur@) =~= split_spec(prev, sep).update(
                split_spec(prev, sep).len() - 1,
                split_spec(prev, sep).last().push(s@[i as int]),
            ));
        }
        i += 1;
    }
    assert(s@.take(s.len() as int) =~= s@);
    done.push(cur);
    done
}

/// Why a text is not a decimal `u16`, as `core::num::IntErrorKind` names it.
#[derive(Debug, Clone, Copy, PartialEq, Eq, Structural)]
pub enum IntErrorKind {
    Empty,
    InvalidDigit,
    PosOverflow,
}

/// The message that `ParseIntError` displays for an error of kind `k`.
pub open spec fn int_error_message(k: IntErrorKind) -> Seq<char> {
    match k {
        IntErrorKind::Empty => "cannot parse integer from empty string"@,
        IntErrorKind::InvalidDigit => "invalid digit found in string"@,
        IntErrorKind::PosOverflow => "number too large to fit in target type"@,
    }
}

impl IntErrorKind {
    /// The message that `ParseIntError` displays for this kind.
    pub fn description(&self) -> (r: &'static str)
        ensures
            r@ == int_error_message(*self),
    {
        match self {
            IntErrorKind::Empty => "cannot parse integer from empty string",
            IntErrorKind::InvalidDigit => "invalid digit found in string",
            IntErrorKind::PosOverflow => "number too large to fit in target type",
        }
    }
}

/// Whether `c` is one of `0` to `9`.
pub open spec fn is_ascii_digit(c: char) -> bool {
    '0' <= c <= '9'
}

/// The value of the ASCII digit `c`.
pub open spec fn digit_value(c: char) -> nat {
    (c as u32 - '0' as u32) as nat
}

/// Reads the digits of `d` from left to right onto `acc`, stopping at the
/// first character that is not a digit or that would take the value past
/// `u16::MAX`, in the order in which `u16::from_str` examines them.
pub open spec fn scan_u16(d: Seq<char>, acc: nat) -> Result<u16, IntErrorKind>
    decreases d.len(),
{
    if d.len() == 0 {
        Ok(acc as u16)
    } else if !is_ascii_digit(d[0]) {
        Err(IntErrorKind::InvalidDigit)
    } else if acc * 10 + digit_value(d[0]) > u16::MAX {
        Err(IntErrorKind::PosOverflow)
    } else {
        scan_u16(d.skip(1), acc * 10 + digit_value(d[0]))
    }
}

/// What `u16::from_str` gives for `s`: an optional `+` followed by decimal digits.
pub open spec fn parse_u16_spec(s: Seq<char>) -> Result<u16, IntErrorKind> {
    if s.len() == 0 {
        Err(IntErrorKind::Empty)
    } else if s.len() == 1 && s[0] == '+' {
        Err(IntErrorKind::InvalidDigit)
    } else if s[0] == '+' {
        scan_u16(s.skip(1), 0)
    } else {
        scan_u16(s, 0)
    }
}

/// Whether every character of `d` is an ASCII digit.
pub open spec fn all_digits(d: Seq<char>) -> bool {
    forall|i: int| 0 <= i < d.len() ==> is_ascii_digit(d[i])
}

/// The decimal value of the digits `d` written after the value `acc`.
pub open spec fn decimal_after(acc: nat, d: Seq<char>) -> nat
    decreases d.len(),
{
    if d.len() == 0 {
        acc
    } else {
        decimal_after(acc * 10 + digit_value(d[0]), d.skip(1))
    }
}

/// The decimal value of the digits `d`.
pub open spec fn decimal_value(d: Seq<char>) -> nat {
    decimal_after(0, d)
}

/// The digits of `s` once an optional leading `+` is dropped.
pub open spec fn unsigned_digits(s: Seq<char>) -> Seq<char> {
    if s.len() > 0 && s[0] == '+' {
        s.skip(1)
    } else {
        s
    }
}

proof fn lemma_decimal_after_grows(acc: nat, d: Seq<char>)
    ensures
        decimal_after(acc, d) >= acc,
    decreases d.len(),
{
    if d.len() > 0 {
        lemma_decimal_after_grows(acc * 10 + digit_value(d[0]), d.skip(1));
    }
}

proof fn lemma_scan_u16(d: Seq<char>, acc: nat)
    requires
        acc <= u16::MAX,
    ensures
        scan_u16(d, acc) is Ok <==> all_digits(d) && decimal_after(acc, d) <= u16::MAX,
        scan_u16(d, acc) matches Ok(n) ==> n == decimal_after(acc, d),
    decreases d.len(),
{
    if d.len() > 0 {
        let next = acc * 10 + digit_value(d[0]);
        lemma_decimal_after_grows(next, d.skip(1));
        if is_ascii_digit(d[0]) && next <= u16::MAX {
            lemma_scan_u16(d.skip(1), next);
        }
        assert(all_digits(d) <==> is_ascii_digit(d[0]) && all_digits(d.skip(1))) by {
            if is_ascii_digit(d[0]) && all_digits(d.skip(1)) {
                assert forall|i: int| 0 <= i < d.len() implies is_ascii_digit(d[i]) by {
                    if i > 0 {
                        assert(d[i] == d.skip(1)[i - 1]);
                    }
                }
            }
        }
    }
}

/// `u16::from_str` accepts exactly an optional `+` followed by one or more
/// ASCII digits whose decimal value fits in a `u16`, and gives that value.
pub proof fn lemma_parse_u16_accepts(s: Seq<char>)
    ensures
        parse_u16_spec(s) is Ok <==> {
            let d = unsigned_digits(s);
            d.len() > 0 && all_digits(d) && decimal_value(d) <= u16::MAX
        },
        parse_u16_spec(s) matches Ok(n) ==> n == decimal_value(unsigned_digits(s)),
{
    let d = unsigned_digits(s);
    if s.len() > 0 && !(s.len() == 1 && s[0] == '+') {
        lemma_scan_u16(d, 0);
    }
}

/// Parses a decimal `u16` as `u16::from_str` does.
pub fn parse_u16(s: &Vec<char>) -> (r: Result<u16, IntErrorKind>)
    ensures
        r == parse_u16_spec(s@),
{
    let n = s.len();
    if n == 0 {
        return Err(IntErrorKind::Empty);
    }
    if n == 1 && s[0] == '+' {
        return Err(IntErrorKind::InvalidDigit);
    }
    let mut i: usize = if s[0] == '+' { 1 } else { 0 };
    let mut acc: u32 = 0;
    assert(s@.skip(1) =~= s@.skip(i as int) || s@.skip(0) =~= s@.skip(i as int));
    assert(s@.skip(0) =~= s@);
    while i < n
        invariant
            i <= n == s@.len(),
            acc <= u16::MAX,
            parse_u16_spec(s@) == scan_u16(s@.skip(i as int), acc as nat),
        decreases n - i,
    {
        let c = s[i];
        let ghost rest = s@.skip(i as int);
        assert(rest[0] == c);
        if !('0' <= c && c <= '9') {
            return Err(IntErrorKind::InvalidDigit);
        }
        let d = (c as u32) - ('0' as u32);
        if acc * 10 + d > 65535 {
            return Err(IntErrorKind::PosOverflow);
        }
        assert(rest.skip(1) =~= s@.skip(i + 1));
        acc = acc * 10 + d;
        i += 1;
    }
    assert(s@.skip(i as int).len() == 0);
    Ok(acc as u16)
}

/// Whether two character vectors hold the same characters.
pub(crate) fn same_chars(a: &Vec<char>, b: &Vec<char>) -> (r: bool)
    ensures
        r == (a@ == b@),
{
    if a.len() != b.len() {
        return false;
    }
    let mut i: usize = 0;
    while i < a.len()
        invariant
            i <= a.len() == b.len(),
            forall|j: int| 0 <= j < i ==> a@[j] == b@[j],
        decreases a.len() - i,
    {
        if a[i] != b[i] {
            return false;
        }
        i += 1;
    }
    assert(a@ =~= b@);
    true
}


/// The ASCII digit for `k`, one of `0` to `9`.
pub open spec fn digit_char(k: nat) -> char {
    if k == 0 {
        '0'
    } else if k == 1 {
        '1'
    } else if k == 2 {
        '2'
    } else if k == 3 {
        '3'
    } else if k == 4 {
        '4'
    } else if k == 5 {
        '5'
    } else if k == 6 {
        '6'
    } else if k == 7 {
        '7'
    } else if k == 8 {
        '8'
    } else {
        '9'
    }
}

/// The decimal digits of `n`, without leading zeros, as `to_string` writes them.
pub open spec fn decimal_text(n: nat) -> Seq<char>
    decreases n,
{
    if n < 10 {
        seq![digit_char(n)]
    } else {
        decimal_text(n / 10).push(digit_char(n % 10))
    }
}

/// The items of `parts` with `sep` between each two, as `join` writes them.
pub open spec fn join_spec(parts: Seq<Seq<char>>, sep: char) -> Seq<char>
    decreases parts.len(),
{
    if parts.len() == 0 {
        Seq::empty()
    } else if parts.len() == 1 {
        parts[0]
    } else {
        join_spec(parts.drop_last(), sep) + seq![sep] + parts.last()
    }
}

proof fn lemma_decimal_after_push(acc: nat, d: Seq<char>, c: char)
    ensures
        decimal_after(acc, d.push(c)) == decimal_after(acc, d) * 10 + digit_value(c),
    decreases d.len(),
{
    if d.len() > 0 {
        assert(d.push(c)[0] == d[0]);
        assert(d.push(c).skip(1) =~= d.skip(1).push(c));
        lemma_decimal_after_push(acc * 10 + digit_value(d[0]), d.skip(1), c);
    } else {
        assert(d.push(c)[0] == c);
        assert(d.push(c).skip(1) =~= Seq::<char>::empty());
        assert(decimal_after(acc * 10 + digit_value(c), Seq::<char>::empty()) == acc * 10
            + digit_value(c));
    }
}

proof fn lemma_digit_char(k: nat)
    requires
        k < 10,
    ensures
        is_ascii_digit(digit_char(k)),
        digit_value(digit_char(k)) == k,
{
}

/// The decimal text of `n` is a non-empty run of digits whose value is `n`.
pub proof fn lemma_decimal_text(n: nat)
    ensures
        decimal_text(n).len() > 0,
        all_digits(decimal_text(n)),
        decimal_value(decimal_text(n)) == n,
    decreases n,
{
    if n >= 10 {
        let t = decimal_text(n / 10);
        lemma_decimal_text(n / 10);
        lemma_decimal_after_push(0, t, digit_char(n % 10));
        lemma_digit_char(n % 10);
        assert(n == (n / 10) * 10 + n % 10) by (nonlinear_arith);
        let d = t.push(digit_char(n % 10));
        assert(decimal_value(d) == decimal_value(t) * 10 + n % 10);
        assert(all_digits(d)) by {
            assert forall|i: int| 0 <= i < d.len() implies is_ascii_digit(#[trigger] d[i]) by {
                if i < t.len() {
                    assert(d[i] == t[i]);
                }
            }
        }
    } else {
        lemma_decimal_after_push(0, Seq::<char>::empty(), digit_char(n));
        lemma_digit_char(n);
        assert(seq![digit_char(n)] =~= Seq::<char>::empty().push(digit_char(n)));
    }
}

/// `u16::from_str` reads the decimal text of a `u16` back as that number.
pub proof fn lemma_parse_u16_decimal_text(n: u16)
    ensures
        parse_u16_spec(decimal_text(n as nat)) == Ok::<u16, IntErrorKind>(n),
{
    let d = decimal_text(n as nat);
    lemma_decimal_text(n as nat);
    assert(is_ascii_digit(d[0]));
    assert(unsigned_digits(d) == d);
    lemma_parse_u16_accepts(d);
}

/// A text without `sep` splits into itself alone.
pub proof fn lemma_split_without_separator(t: Seq<char>, sep: char)
    requires
        !t.contains(sep),
    ensures
        split_spec(t, sep) == seq![t],
    decreases t.len(),
{
    if t.len() > 0 {
        assert(!t.drop_last().contains(sep)) by {
            if t.drop_last().contains(sep) {
                let i = choose|i: int| 0 <= i < t.drop_last().len() && t.drop_last()[i] == sep;
                assert(t[i] == sep);
            }
        }
        lemma_split_without_separator(t.drop_last(), sep);
        assert(t.last() != sep) by {
            if t.last() == sep {
                assert(t[t.len() - 1] == sep);
            }
        }
        let p = split_spec(t.drop_last(), sep);
        assert(t.drop_last().push(t.last()) =~= t);
        assert(p.update(p.len() - 1, p.last().push(t.last())) =~= seq![t]);
    } else {
        assert(t =~= Seq::<char>::empty());
    }
}

/// Splitting `s`, a `sep` and a text `t` without `sep` gives the items of `s`
/// followed by `t`.
pub proof fn lemma_split_after_separator(s: Seq<char>, t: Seq<char>, sep: char)
    requires
        !t.contains(sep),
    ensures
        split_spec(s + seq![sep] + t, sep) == split_spec(s, sep).push(t),
    decreases t.len(),
{
    let w = s + seq![sep] + t;
    if t.len() == 0 {
        assert(w.drop_last() =~= s);
        assert(t =~= Seq::<char>::empty());
    } else {
        assert(!t.drop_last().contains(sep)) by {
            if t.drop_last().contains(sep) {
                let i = choose|i: int| 0 <= i < t.drop_last().len() && t.drop_last()[i] == sep;
                assert(t[i] == sep);
            }
        }
        lemma_split_after_separator(s, t.drop_last(), sep);
        assert(w.drop_last() =~= s + seq![sep] + t.drop_last());
        assert(t[t.len() - 1] == t.last());
        assert(w.last() == t.last());
        lemma_split_nonempty(s, sep);
        assert(t.drop_last().push(t.last()) =~= t);
    }
}

/// Splitting what `join_spec` writes at `sep` gives back the items, when
/// there is at least one and none holds `sep`.
pub proof fn lemma_split_join(parts: Seq<Seq<char>>, sep: char)
    requires
        parts.len() > 0,
        forall|i: int| 0 <= i < parts.len() ==> !(#[trigger] parts[i]).contains(sep),
    ensures
        split_spec(join_spec(parts, sep), sep) == parts,
    decreases parts.len(),
{
    if parts.len() == 1 {
        lemma_split_without_separator(parts[0], sep);
        assert(seq![parts[0]] =~= parts);
    } else {
        let p = parts.drop_last();
        assert forall|i: int| 0 <= i < p.len() implies !(#[trigger] p[i]).contains(sep) by {
            assert(p[i] == parts[i]);
        }
        lemma_split_join(p, sep);
        assert(parts[parts.len() - 1] == parts.last());
        lemma_split_after_separator(join_spec(p, sep), parts.last(), sep);
        assert(p.push(parts.last()) =~= parts);
    }
}


/// Replacing a one-character pattern by one character changes exactly the
/// characters equal to the pattern, at every position.
pub proof fn lemma_replace_all_char(s: Seq<char>, c: char, d: char)
    ensures
        replace_all_spec(s, seq![c], seq![d]) == s.map_values(|x: char| if x == c { d } else { x }),
    decreases s.len(),
{
    if s.len() > 0 {
        lemma_replace_all_char(s.skip(1), c, d);
        assert(s.subrange(0, 1) =~= seq![s[0]]);
        assert(seq![s[0]] + s.skip(1) =~= s);
        assert(s.map_values(|x: char| if x == c { d } else { x }) =~= seq![
            if s[0] == c {
                d
            } else {
                s[0]
            },
        ] + s.skip(1).map_values(|x: char| if x == c { d } else { x }));
        if s[0] == c {
            assert(seq![d] + replace_all_spec(s.skip(1), seq![c], seq![d]) =~= seq![d]
                + s.skip(1).map_values(|x: char| if x == c { d } else { x }));
        }
    } else {
        assert(s.map_values(|x: char| if x == c { d } else { x }) =~= s);
    }
}

/// No occurrence of a one-character pattern is left when the replacement
/// does not hold that character.
pub proof fn lemma_replace_all_char_removes(s: Seq<char>, c: char, to: Seq<char>)
    requires
        !to.contains(c),
    ensures
        !replace_all_spec(s, seq![c], to).contains(c),
    decreases s.len(),
{
    if s.len() > 0 {
        lemma_replace_all_char_removes(s.skip(1), c, to);
        assert(s.subrange(0, 1) =~= seq![s[0]]);
        let rest = replace_all_spec(s.skip(1), seq![c], to);
        let r = replace_all_spec(s, seq![c], to);
        if r.contains(c) {
            let i = choose|i: int| 0 <= i < r.len() && r[i] == c;
            if s[0] == c {
                assert(r == to + rest);
                if i < to.len() {
                    assert(to[i] == c);
                } else {
                    assert(rest[i - to.len()] == c);
                }
            } else {
                assert(r == seq![s[0]] + rest);
                if i > 0 {
                    assert(rest[i - 1] == c);
                }
            }
        }
    }
}

/// The first segment is the longest prefix of `s` without `sep`: it holds
/// no `sep`, and it is all of `s` or is followed by `sep`.
pub proof fn lemma_first_segment(s: Seq<char>, sep: char)
    ensures
        first_segment_spec(s, sep).len() <= s.len(),
        first_segment_spec(s, sep) == s.take(first_segment_spec(s, sep).len() as int),
        !first_segment_spec(s, sep).contains(sep),
        first_segment_spec(s, sep).len() == s.len() || s[first_segment_spec(s, sep).len() as int]
            == sep,
    decreases s.len(),
{
    if s.len() > 0 && s[0] != sep {
        let t = s.skip(1);
        lemma_first_segment(t, sep);
        let ft = first_segment_spec(t, sep);
        let f = first_segment_spec(s, sep);
        assert(f == seq![s[0]] + ft);
        assert(f =~= s.take(f.len() as int));
        if f.len() < s.len() {
            assert(s[f.len() as int] == t[ft.len() as int]);
        }
        if f.contains(sep) {
            let i = choose|i: int| 0 <= i < f.len() && f[i] == sep;
            assert(ft[i - 1] == sep);
        }
    } else if s.len() == 0 {
        assert(s.take(0) =~= s);
    } else {
        assert(s.take(0) =~= Seq::<char>::empty());
    }
}

} // verus!
