//! Character-level text handling: whitespace trimming, line splitting,
//! searching and the conversions between `str`/`String` and `Vec<char>`.
use vstd::prelude::*;

verus! {

/// The characters of a string slice, as a vector.
pub fn chars_of(s: &str) -> (v: Vec<char>)
    ensures
        v@ == s@,
{
    let mut v: Vec<char> = Vec::new();
    for c in it: s.chars()
        invariant
            v@ == it.seq().take(it.index()),
    {
        v.push(c);
    }
    assert(v@ =~= s@);
    v
}

/// Appends one character to a `String` (`String::push`).
#[verifier::external_body]
fn push_char(s: &mut String, c: char)
    ensures
        final(s)@ == old(s)@.push(c),
{
    s.push(c);
}

/// A `String` holding exactly the given characters.
pub fn string_of(v: &[char]) -> (s: String)
    ensures
        s@ == v@,
{
    let mut s = String::new();
    let mut i: usize = 0;
    while i < v.len()
        invariant
            i <= v@.len(),
            s@ == v@.take(i as int),
        decreases v@.len() - i,
    {
        push_char(&mut s, v[i]);
        i = i + 1;
        assert(s@ =~= v@.take(i as int));
    }
    assert(v@.take(v@.len() as int) =~= v@);
    s
}

/// Unicode `White_Space`, the property that `char::is_whitespace` tests.
pub open spec fn is_ws(c: char) -> bool {
    let u = c as u32;
    ||| 0x09 <= u <= 0x0d
    ||| u == 0x20
    ||| u == 0x85
    ||| u == 0xa0
    ||| u == 0x1680
    ||| 0x2000 <= u <= 0x200a
    ||| u == 0x2028
    ||| u == 0x2029
    ||| u == 0x202f
    ||| u == 0x205f
    ||| u == 0x3000
}

/// Whether `c` is Unicode white space.
pub fn is_whitespace(c: char) -> (b: bool)
    ensures
        b == is_ws(c),
{
    let u = c as u32;
    (0x09 <= u && u <= 0x0d) || u == 0x20 || u == 0x85 || u == 0xa0 || u == 0x1680 || (0x2000
        <= u && u <= 0x200a) || u == 0x2028 || u == 0x2029 || u == 0x202f || u == 0x205f || u
        == 0x3000
}

/// `s` without its leading white space.
pub open spec fn trim_start(s: Seq<char>) -> Seq<char>
    decreases s.len(),
{
    if s.len() > 0 && is_ws(s[0]) {
        trim_start(s.drop_first())
    } else {
        s
    }
}

/// `s` without its trailing white space.
pub open spec fn trim_end(s: Seq<char>) -> Seq<char>
    decreases s.len(),
{
    if s.len() > 0 && is_ws(s.last()) {
        trim_end(s.drop_last())
    } else {
        s
    }
}

/// `s` without leading and trailing white space, as `str::trim` gives it.
pub open spec fn trim(s: Seq<char>) -> Seq<char> {
    trim_end(trim_start(s))
}

/// The characters of `v` without leading and trailing white space.
pub fn trim_chars(v: &[char]) -> (r: Vec<char>)
    ensures
        r@ == trim(v@),
{
    let n = v.len();
    let mut i: usize = 0;
    assert(v@.skip(0) =~= v@);
    while i < n && is_whitespace(v[i])
        invariant
            i <= n == v@.len(),
            trim_start(v@) == trim_start(v@.skip(i as int)),
        decreases n - i,
    {
        assert(v@.skip(i as int).drop_first() =~= v@.skip(i + 1));
        i = i + 1;
    }
    assert(trim_start(v@.skip(i as int)) == v@.skip(i as int));
    assert(v@.skip(i as int) =~= v@.subrange(i as int, n as int));
    let mut j: usize = n;
    while j > i && is_whitespace(v[j - 1])
        invariant
            i <= j <= n == v@.len(),
            trim(v@) == trim_end(v@.subrange(i as int, j as int)),
        decreases j,
    {
        assert(v@.subrange(i as int, j as int).drop_last() =~= v@.subrange(i as int, j - 1));
        j = j - 1;
    }
    let mut r: Vec<char> = Vec::new();
    let mut k: usize = i;
    while k < j
        invariant
            i <= k <= j <= n == v@.len(),
            r@ == v@.subrange(i as int, k as int),
        decreases j - k,
    {
        r.push(v[k]);
        k = k + 1;
        assert(r@ =~= v@.subrange(i as int, k as int));
    }
    r
}

/// The characters of `s` without leading and trailing white space.
pub fn trim_str(s: &str) -> (r: Vec<char>)
    ensures
        r@ == trim(s@),
{
    let v = chars_of(s);
    trim_chars(v.as_slice())
}


/// `i` is the position of the first `c` in `s`.
pub open spec fn is_first_pos(s: Seq<char>, c: char, i: int) -> bool {
    &&& 0 <= i < s.len()
    &&& s[i] == c
    &&& forall|j: int| 0 <= j < i ==> s[j] != c
}

/// The position of the first `c` in `s`, if there is one.
pub open spec fn char_pos(s: Seq<char>, c: char) -> Option<int> {
    if exists|i: int| is_first_pos(s, c, i) {
        Some(choose|i: int| is_first_pos(s, c, i))
    } else {
        None
    }
}

/// The first position of a character is unique.
pub proof fn lemma_char_pos_is(s: Seq<char>, c: char, i: int)
    requires
        is_first_pos(s, c, i),
    ensures
        char_pos(s, c) == Some(i),
{
    let k = choose|k: int| is_first_pos(s, c, k);
    assert(is_first_pos(s, c, k));
    if k < i {
        assert(s[k] != c);
    } else if i < k {
        assert(s[i] != c);
    }
}

/// A sequence without `c` has no position of it.
pub proof fn lemma_char_pos_none(s: Seq<char>, c: char)
    requires
        forall|j: int| 0 <= j < s.len() ==> s[j] != c,
    ensures
        char_pos(s, c) is None,
{
    if exists|i: int| is_first_pos(s, c, i) {
        let k = choose|k: int| is_first_pos(s, c, k);
        assert(s[k] == c);
    }
}

/// The position of the first `c` in `v` (`str::find` with a `char`,
/// counted in characters).
pub fn find_char(v: &[char], c: char) -> (r: Option<usize>)
    ensures
        r matches Some(i) ==> char_pos(v@, c) == Some(i as int),
        r is None ==> char_pos(v@, c) is None,
{
    let mut i: usize = 0;
    while i < v.len()
        invariant
            i <= v@.len(),
            forall|j: int| 0 <= j < i ==> v@[j] != c,
        decreases v@.len() - i,
    {
        if v[i] == c {
            proof {
                lemma_char_pos_is(v@, c, i as int);
            }
            return Some(i);
        }
        i = i + 1;
    }
    proof {
        lemma_char_pos_none(v@, c);
    }
    None
}

/// `s` ends with the character `c`.
pub open spec fn ends_with_char(s: Seq<char>, c: char) -> bool {
    s.len() > 0 && s.last() == c
}

/// `p` is a prefix of `s`.
pub open spec fn starts_with(s: Seq<char>, p: Seq<char>) -> bool {
    p.len() <= s.len() && s.take(p.len() as int) == p
}

/// `p` occurs in `s` as a contiguous part (`str::contains` with a `&str`).
pub open spec fn contains_seq(s: Seq<char>, p: Seq<char>) -> bool {
    exists|i: int| 0 <= i && i + p.len() <= s.len() && #[trigger] s.subrange(i, i + p.len()) == p
}

/// `v` has `p` starting at position `i`.
fn occurs_at(v: &[char], p: &[char], i: usize) -> (b: bool)
    requires
        i + p@.len() <= v@.len(),
    ensures
        b == (v@.subrange(i as int, i + p@.len()) == p@),
{
    let mut k: usize = 0;
    while k < p.len()
        invariant
            k <= p@.len(),
            i + p@.len() <= v@.len(),
            v@.len() == v.len(),
            forall|j: int| 0 <= j < k ==> v@[i + j] == p@[j],
        decreases p@.len() - k,
    {
        assert(i + k < v@.len());
        if v[i + k] != p[k] {
            assert(v@.subrange(i as int, i + p@.len())[k as int] != p@[k as int]);
            return false;
        }
        k = k + 1;
    }
    assert(v@.subrange(i as int, i + p@.len()) =~= p@);
    true
}

/// Whether `p` occurs in `v`.
pub fn contains_chars(v: &[char], p: &[char]) -> (b: bool)
    ensures
        b == contains_seq(v@, p@),
{
    if p.len() > v.len() {
        return false;
    }
    let last = v.len() - p.len();
    let mut i: usize = 0;
    loop
        invariant
            i <= last,
            last + p@.len() == v@.len(),
            forall|j: int| 0 <= j < i ==> #[trigger] v@.subrange(j, j + p@.len()) != p@,
        decreases last - i,
    {
        if occurs_at(v, p, i) {
            return true;
        }
        if i == last {
            assert forall|j: int| 0 <= j && j + p@.len() <= v@.len() implies #[trigger] v@.subrange(
                j,
                j + p@.len(),
            ) != p@ by {
                assert(j <= last);
            }
            return false;
        }
        i = i + 1;
    }
}

/// Whether two character vectors are equal.
pub fn chars_eq(a: &[char], b: &[char]) -> (r: bool)
    ensures
        r == (a@ == b@),
{
    if a.len() != b.len() {
        return false;
    }
    let mut i: usize = 0;
    while i < a.len()
        invariant
            i <= a@.len() == b@.len(),
            forall|j: int| 0 <= j < i ==> a@[j] == b@[j],
        decreases a@.len() - i,
    {
        if a[i] != b[i] {
            return false;
        }
        i = i + 1;
    }
    assert(a@ =~= b@);
    true
}

/// Whether two strings hold the same characters.
pub fn str_eq(a: &str, b: &str) -> (r: bool)
    ensures
        r == (a@ == b@),
{
    let x = chars_of(a);
    let y = chars_of(b);
    chars_eq(x.as_slice(), y.as_slice())
}

/// `s` with one trailing carriage return removed, if there is one.
pub open spec fn strip_cr(s: Seq<char>) -> Seq<char> {
    if ends_with_char(s, '\r') {
        s.drop_last()
    } else {
        s
    }
}

/// The lines of `s` as `str::lines` yields them: split at `\n`, a `\r`
/// right before a `\n` dropped, and no empty line after a final `\n`.
pub open spec fn lines(s: Seq<char>) -> Seq<Seq<char>>
    decreases s.len(),
{
    if s.len() == 0 {
        Seq::empty()
    } else {
        match char_pos(s, '\n') {
            Some(i) => if 0 <= i < s.len() {
                seq![strip_cr(s.take(i))] + lines(s.skip(i + 1))
            } else {
                seq![s]
            },
            None => seq![s],
        }
    }
}


/// The characters of `v` from `from` up to `to`, as a new vector.
pub fn slice_chars(v: &[char], from: usize, to: usize) -> (r: Vec<char>)
    requires
        from <= to <= v@.len(),
    ensures
        r@ == v@.subrange(from as int, to as int),
{
    let mut r: Vec<char> = Vec::new();
    let mut k: usize = from;
    while k < to
        invariant
            from <= k <= to <= v@.len(),
            r@ == v@.subrange(from as int, k as int),
        decreases to - k,
    {
        r.push(v[k]);
        k = k + 1;
        assert(r@ =~= v@.subrange(from as int, k as int));
    }
    r
}

/// The lines of `v`, as `str::lines` splits them.
pub fn split_lines(v: &[char]) -> (r: Vec<Vec<char>>)
    ensures
        r@.len() == lines(v@).len(),
        forall|i: int| 0 <= i < r@.len() ==> #[trigger] r@[i]@ == lines(v@)[i],
{
    let n = v.len();
    let mut out: Vec<Vec<char>> = Vec::new();
    let ghost mut done: Seq<Seq<char>> = Seq::empty();
    let mut start: usize = 0;
    let mut k: usize = 0;
    assert(v@.skip(0) =~= v@);
    while k < n
        invariant
            start <= k <= n == v@.len(),
            lines(v@) == done + lines(v@.skip(start as int)),
            out@.len() == done.len(),
            forall|i: int| 0 <= i < out@.len() ==> #[trigger] out@[i]@ == done[i],
            forall|j: int| start <= j < k ==> v@[j] != '\n',
        decreases n - k,
    {
        if v[k] == '\n' {
            let ghost t = v@.skip(start as int);
            assert(is_first_pos(t, '\n', k - start));
            proof {
                lemma_char_pos_is(t, '\n', k - start);
            }
            assert(t.take(k - start) =~= v@.subrange(start as int, k as int));
            assert(t.skip(k - start + 1) =~= v@.skip(k + 1));
            let mut line = slice_chars(v, start, k);
            if line.len() > 0 && line[line.len() - 1] == '\r' {
                line.pop();
                assert(line@ =~= strip_cr(v@.subrange(start as int, k as int)));
            }
            proof {
                done = done.push(strip_cr(v@.subrange(start as int, k as int)));
            }
            out.push(line);
            start = k + 1;
        }
        k = k + 1;
    }
    if start < n {
        let ghost t = v@.skip(start as int);
        proof {
            lemma_char_pos_none(t, '\n');
        }
        assert(t =~= v@.subrange(start as int, n as int));
        let line = slice_chars(v, start, n);
        proof {
            done = done.push(t);
        }
        out.push(line);
        assert(lines(v@) =~= done);
    } else {
        assert(v@.skip(start as int).len() == 0);
        assert(lines(v@) =~= done);
    }
    out
}


/// The pieces of `s` between the occurrences of `c`, as `str::split`
/// yields them (an empty `s` gives one empty piece).
pub open spec fn split_on(s: Seq<char>, c: char) -> Seq<Seq<char>>
    decreases s.len(),
{
    match char_pos(s, c) {
        Some(i) => if 0 <= i < s.len() {
            seq![s.take(i)] + split_on(s.skip(i + 1), c)
        } else {
            seq![s]
        },
        None => seq![s],
    }
}

/// The pieces of `v` between the occurrences of `c` (see `split_on`).
pub fn split_chars(v: &[char], c: char) -> (r: Vec<Vec<char>>)
    ensures
        r@.len() == split_on(v@, c).len(),
        forall|i: int| 0 <= i < r@.len() ==> #[trigger] r@[i]@ == split_on(v@, c)[i],
{
    let n = v.len();
    let mut out: Vec<Vec<char>> = Vec::new();
    let ghost mut done: Seq<Seq<char>> = Seq::empty();
    let mut start: usize = 0;
    let mut k: usize = 0;
    assert(v@.skip(0) =~= v@);
    while k < n
        invariant
            start <= k <= n == v@.len(),
            split_on(v@, c) == done + split_on(v@.skip(start as int), c),
            out@.len() == done.len(),
            forall|i: int| 0 <= i < out@.len() ==> #[trigger] out@[i]@ == done[i],
            forall|j: int| start <= j < k ==> v@[j] != c,
        decreases n - k,
    {
        if v[k] == c {
            let ghost t = v@.skip(start as int);
            assert(is_first_pos(t, c, k - start));
            proof {
                lemma_char_pos_is(t, c, k - start);
            }
            assert(t.take(k - start) =~= v@.subrange(start as int, k as int));
            assert(t.skip(k - start + 1) =~= v@.skip(k + 1));
            let piece = slice_chars(v, start, k);
            proof {
                done = done.push(piece@);
            }
            out.push(piece);
            start = k + 1;
        }
        k = k + 1;
    }
    let ghost t = v@.skip(start as int);
    proof {
        lemma_char_pos_none(t, c);
    }
    assert(t =~= v@.subrange(start as int, n as int));
    let piece = slice_chars(v, start, n);
    proof {
        done = done.push(t);
    }
    out.push(piece);
    assert(split_on(v@, c) =~= done);
    out
}

/// `s` without its prefix `p`, if it starts with `p` (`str::strip_prefix`).
pub open spec fn strip_prefix(s: Seq<char>, p: Seq<char>) -> Option<Seq<char>> {
    if starts_with(s, p) {
        Some(s.skip(p.len() as int))
    } else {
        None
    }
}

/// `v` without its prefix `p`, if it starts with `p`.
pub fn strip_prefix_chars(v: &[char], p: &[char]) -> (r: Option<Vec<char>>)
    ensures
        r is Some <==> strip_prefix(v@, p@) is Some,
        r matches Some(x) ==> x@ == strip_prefix(v@, p@)->0,
{
    if p.len() > v.len() {
        return None;
    }
    let head = slice_chars(v, 0, p.len());
    assert(head@ =~= v@.take(p@.len() as int));
    if chars_eq(head.as_slice(), p) {
        let rest = slice_chars(v, p.len(), v.len());
        assert(rest@ =~= v@.skip(p@.len() as int));
        Some(rest)
    } else {
        None
    }
}

/// `s` without all of its trailing `c` (`str::trim_end_matches` with a
/// `char`).
pub open spec fn trim_end_char(s: Seq<char>, c: char) -> Seq<char>
    decreases s.len(),
{
    if s.len() > 0 && s.last() == c {
        trim_end_char(s.drop_last(), c)
    } else {
        s
    }
}

/// `s` without all of its leading `c` (`str::trim_start_matches` with a
/// `char`).
pub open spec fn trim_start_char(s: Seq<char>, c: char) -> Seq<char>
    decreases s.len(),
{
    if s.len() > 0 && s[0] == c {
        trim_start_char(s.drop_first(), c)
    } else {
        s
    }
}

/// `v` without all of its trailing `c`.
pub fn trim_end_chars(v: &[char], c: char) -> (r: Vec<char>)
    ensures
        r@ == trim_end_char(v@, c),
{
    let mut j: usize = v.len();
    assert(v@.subrange(0, j as int) =~= v@);
    while j > 0 && v[j - 1] == c
        invariant
            j <= v@.len(),
            trim_end_char(v@, c) == trim_end_char(v@.subrange(0, j as int), c),
        decreases j,
    {
        assert(v@.subrange(0, j as int).drop_last() =~= v@.subrange(0, j - 1));
        j = j - 1;
    }
    slice_chars(v, 0, j)
}

/// `v` without all of its leading `c`.
pub fn trim_start_chars(v: &[char], c: char) -> (r: Vec<char>)
    ensures
        r@ == trim_start_char(v@, c),
{
    let n = v.len();
    let mut i: usize = 0;
    assert(v@.skip(0) =~= v@);
    while i < n && v[i] == c
        invariant
            i <= n == v@.len(),
            trim_start_char(v@, c) == trim_start_char(v@.skip(i as int), c),
        decreases n - i,
    {
        assert(v@.skip(i as int).drop_first() =~= v@.skip(i + 1));
        i = i + 1;
    }
    assert(v@.skip(i as int) =~= v@.subrange(i as int, n as int));
    slice_chars(v, i, n)
}

/// The characters of `a` followed by those of `b`.
pub fn concat_chars(a: &[char], b: &[char]) -> (r: Vec<char>)
    ensures
        r@ == a@ + b@,
{
    let mut r = slice_chars(a, 0, a.len());
    assert(r@ =~= a@);
    let mut k: usize = 0;
    while k < b.len()
        invariant
            k <= b@.len(),
            r@ == a@ + b@.take(k as int),
        decreases b@.len() - k,
    {
        r.push(b[k]);
        k = k + 1;
        assert(r@ =~= a@ + b@.take(k as int));
    }
    assert(b@.take(b@.len() as int) =~= b@);
    r
}


/// The decimal digit character for `d < 10`.
pub open spec fn digit_char(d: nat) -> char {
    (d + 48) as char
}

/// The decimal notation of `n`, without sign or leading zeros.
pub open spec fn decimal(n: nat) -> Seq<char>
    decreases n,
{
    if n < 10 {
        seq![digit_char(n)]
    } else {
        decimal(n / 10).push(digit_char(n % 10))
    }
}

/// The decimal notation of `n`.
pub fn decimal_chars(n: u64) -> (r: Vec<char>)
    ensures
        r@ == decimal(n as nat),
    decreases n,
{
    let d: u8 = (n % 10) as u8;
    let c: char = (d + 48) as char;
    if n < 10 {
        let mut v: Vec<char> = Vec::new();
        v.push(c);
        assert(v@ =~= seq![digit_char(n as nat)]);
        v
    } else {
        let mut v = decimal_chars(n / 10);
        v.push(c);
        v
    }
}


/// `c` is an ASCII decimal digit.
pub open spec fn is_digit(c: char) -> bool {
    '0' <= c && c <= '9'
}

/// The number that a sequence of decimal digits denotes.
pub open spec fn digits_value(s: Seq<char>) -> nat
    decreases s.len(),
{
    if s.len() == 0 {
        0
    } else {
        digits_value(s.drop_last()) * 10 + ((s.last() as nat) - 48) as nat
    }
}

/// `s` without one leading `+`.
pub open spec fn sign_stripped(s: Seq<char>) -> Seq<char> {
    if s.len() > 0 && s[0] == '+' {
        s.drop_first()
    } else {
        s
    }
}

/// Every character of `t` is a decimal digit.
pub open spec fn all_digits(t: Seq<char>) -> bool {
    forall|i: int| 0 <= i < t.len() ==> is_digit(#[trigger] t[i])
}

/// What `str::parse` gives for an unsigned integer type whose largest
/// value is `max`: an optional `+`, then one or more decimal digits whose
/// value is at most `max`; anything else is rejected.
pub open spec fn parse_unsigned(s: Seq<char>, max: nat) -> Option<nat> {
    let t = sign_stripped(s);
    if t.len() > 0 && all_digits(t) && digits_value(t) <= max {
        Some(digits_value(t))
    } else {
        None
    }
}

/// A longer run of digits denotes at least as much.
proof fn lemma_digits_value_grows(t: Seq<char>, k: int)
    requires
        0 <= k <= t.len(),
        forall|i: int| 0 <= i < t.len() ==> is_digit(#[trigger] t[i]),
    ensures
        digits_value(t.take(k)) <= digits_value(t),
    decreases t.len() - k,
{
    if k < t.len() {
        lemma_digits_value_grows(t, k + 1);
        assert(t.take(k + 1).drop_last() =~= t.take(k));
        assert(is_digit(t[k]));
    } else {
        assert(t.take(k) =~= t);
    }
}

/// Parses a port number or other `u16` as `str::parse::<u16>` does.
pub fn parse_u16(v: &[char]) -> (r: Option<u16>)
    ensures
        r is Some <==> parse_unsigned(v@, 65535) is Some,
        r matches Some(x) ==> x as nat == parse_unsigned(v@, 65535)->0,
{
    let n = v.len();
    let start: usize = if n > 0 && v[0] == '+' {
        1
    } else {
        0
    };
    let ghost t = sign_stripped(v@);
    assert(t =~= v@.subrange(start as int, n as int));
    if start == n {
        assert(t.len() == 0);
        return None;
    }
    let mut acc: u32 = 0;
    let mut k: usize = start;
    assert(t.take(0) =~= Seq::<char>::empty());
    while k < n
        invariant
            start <= k <= n == v@.len(),
            t == sign_stripped(v@),
            t == v@.subrange(start as int, n as int),
            acc <= 65535,
            acc == digits_value(t.take(k - start)),
            forall|i: int| 0 <= i < k - start ==> is_digit(#[trigger] t[i]),
        decreases n - k,
    {
        let c = v[k];
        if !('0' <= c && c <= '9') {
            assert(!is_digit(t[k - start]));
            assert(!all_digits(t));
            assert(sign_stripped(v@) == t);
            assert(parse_unsigned(v@, 65535) is None);
            return None;
        }
        let d = (c as u32) - 48;
        assert(t.take(k - start + 1).drop_last() =~= t.take(k - start));
        assert(t.take(k - start + 1).last() == c);
        let next = acc * 10 + d;
        if next > 65535 {
            proof {
                if forall|i: int| 0 <= i < t.len() ==> is_digit(#[trigger] t[i]) {
                    lemma_digits_value_grows(t, k - start + 1);
                    assert(digits_value(t.take(k - start + 1)) == next);
                    assert(digits_value(t) > 65535);
                }
                assert(parse_unsigned(v@, 65535) is None);
            }
            return None;
        }
        acc = next;
        k = k + 1;
    }
    assert(t.take(n - start) =~= t);
    Some(acc as u16)
}

/// `s` with every occurrence of `pat`, taken from the left without
/// overlaps, replaced by `rep` (`str::replace` with a non-empty pattern).
pub open spec fn replace_all(s: Seq<char>, pat: Seq<char>, rep: Seq<char>) -> Seq<char>
    decreases s.len(),
{
    if s.len() == 0 {
        Seq::empty()
    } else if pat.len() > 0 && starts_with(s, pat) {
        rep + replace_all(s.skip(pat.len() as int), pat, rep)
    } else {
        seq![s[0]] + replace_all(s.skip(1), pat, rep)
    }
}

/// `v` with every occurrence of `pat` replaced by `rep`.
pub fn replace_chars(v: &[char], pat: &[char], rep: &[char]) -> (r: Vec<char>)
    requires
        pat@.len() > 0,
    ensures
        r@ == replace_all(v@, pat@, rep@),
{
    let n = v.len();
    let mut out: Vec<char> = Vec::new();
    let mut i: usize = 0;
    assert(v@.skip(0) =~= v@);
    while i < n
        invariant
            i <= n == v@.len(),
            pat@.len() > 0,
            out@ + replace_all(v@.skip(i as int), pat@, rep@) == replace_all(v@, pat@, rep@),
        decreases n - i,
    {
        let ghost rest = v@.skip(i as int);
        let hit = if n - i >= pat.len() {
            occurs_at(v, pat, i)
        } else {
            false
        };
        assert(hit == starts_with(rest, pat@)) by {
            if n - i >= pat.len() {
                assert(rest.take(pat@.len() as int) =~= v@.subrange(i as int, i + pat@.len()));
            }
        }
        if hit {
            let ghost before = out@;
            let mut k: usize = 0;
            while k < rep.len()
                invariant
                    k <= rep@.len(),
                    out@ == before + rep@.take(k as int),
                decreases rep@.len() - k,
            {
                out.push(rep[k]);
                k = k + 1;
                assert(out@ =~= before + rep@.take(k as int));
            }
            assert(rep@.take(rep@.len() as int) =~= rep@);
            assert(rest.skip(pat@.len() as int) =~= v@.skip(i + pat@.len()));
            assert(out@ + replace_all(v@.skip(i + pat@.len()), pat@, rep@) =~= before + (rep@
                + replace_all(rest.skip(pat@.len() as int), pat@, rep@)));
            i = i + pat.len();
        } else {
            let ghost before = out@;
            out.push(v[i]);
            assert(rest.skip(1) =~= v@.skip(i + 1));
            assert(out@ + replace_all(v@.skip(i + 1), pat@, rep@) =~= before + (seq![rest[0]]
                + replace_all(rest.skip(1), pat@, rep@)));
            i = i + 1;
        }
    }
    assert(out@ + replace_all(v@.skip(n as int), pat@, rep@) =~= out@);
    out
}

/// `c` with an ASCII upper-case letter made lower case.
pub open spec fn ascii_lower(c: char) -> char {
    if 'A' <= c && c <= 'Z' {
        (((c as u32) + 32) as u8) as char
    } else {
        c
    }
}

/// `a` and `b` are equal when ASCII letters are compared without case.
pub open spec fn eq_ignore_ascii_case(a: Seq<char>, b: Seq<char>) -> bool {
    a.len() == b.len() && forall|i: int| 0 <= i < a.len() ==> ascii_lower(#[trigger] a[i]) == ascii_lower(b[i])
}

/// A character with an ASCII upper-case letter made lower case.
pub fn lower_ascii_char(c: char) -> (r: char)
    ensures
        r == ascii_lower(c),
{
    if 'A' <= c && c <= 'Z' {
        (((c as u32) + 32) as u8) as char
    } else {
        c
    }
}

/// `s` with its ASCII upper-case letters made lower case.
pub open spec fn ascii_lowercase(s: Seq<char>) -> Seq<char> {
    s.map_values(|c: char| ascii_lower(c))
}

/// A text with its ASCII upper-case letters made lower case
/// (`str::to_ascii_lowercase`).
pub fn to_ascii_lowercase(s: &str) -> (r: String)
    ensures
        r@ == ascii_lowercase(s@),
{
    let v = chars_of(s);
    let mut out: Vec<char> = Vec::new();
    let mut i: usize = 0;
    while i < v.len()
        invariant
            i <= v@.len(),
            out@ == v@.take(i as int).map_values(|c: char| ascii_lower(c)),
        decreases v@.len() - i,
    {
        out.push(lower_ascii_char(v[i]));
        i = i + 1;
        assert(out@ =~= v@.take(i as int).map_values(|c: char| ascii_lower(c)));
    }
    assert(v@.take(v@.len() as int) =~= v@);
    string_of(out.as_slice())
}

} // verus!
