//! Character-level text helpers shared by the parsers and renderers.
//!
//! Text is modelled as `Seq<char>`; executable code works on `Vec<char>` and
//! converts at the edges.
use vstd::prelude::*;

verus! {

broadcast use vstd::string::group_string_axioms;

/// `String::push` appends one character.
pub assume_specification[ String::push ](s: &mut String, ch: char)
    ensures
        final(s)@ == old(s)@.push(ch),
;

/// Unicode `White_Space` property (the set `str::trim` and
/// `char::is_whitespace` use).
pub open spec fn is_white_space(c: char) -> bool {
    let u = c as u32;
    ||| 0x09 <= u <= 0x0d
    ||| u == 0x20
    ||| u == 0x85
    ||| u == 0xa0
    ||| u == 0x1680
    ||| 0x2000 <= u <= 0x200a
    ||| u == 0x2028
    ||| u == 0x2029
    ||| u == 0x202f
    ||| u == 0x205f
    ||| u == 0x3000
}

pub fn white_space(c: char) -> (b: bool)
    ensures
        b == is_white_space(c),
{
    let u = c as u32;
    (0x09 <= u && u <= 0x0d) || u == 0x20 || u == 0x85 || u == 0xa0 || u == 0x1680 || (0x2000
        <= u && u <= 0x200a) || u == 0x2028 || u == 0x2029 || u == 0x202f || u == 0x205f || u
        == 0x3000
}

/// The characters of a string slice, in order.
pub fn chars_of(s: &str) -> (v: Vec<char>)
    ensures
        v@ == s@,
{
    let n = s.unicode_len();
    let mut v: Vec<char> = Vec::new();
    let mut i: usize = 0;
    while i < n
        invariant
            n == s@.len(),
            i <= n,
            v@ == s@.take(i as int),
        decreases n - i,
    {
        let c = s.get_char(i);
        v.push(c);
        i = i + 1;
        assert(v@ =~= s@.take(i as int));
    }
    assert(v@ =~= s@);
    v
}

/// A `String` holding exactly the given characters.
pub fn string_of(v: &Vec<char>) -> (s: String)
    ensures
        s@ == v@,
{
    let mut s = String::new();
    let mut i: usize = 0;
    while i < v.len()
        invariant
            i <= v.len(),
            s@ == v@.take(i as int),
        decreases v.len() - i,
    {
        s.push(v[i]);
        i = i + 1;
        assert(s@ =~= v@.take(i as int));
    }
    assert(v@.take(v.len() as int) =~= v@);
    s
}

/// Appends all characters of `src` to `out`.
pub fn push_all(out: &mut Vec<char>, src: &Vec<char>)
    ensures
        final(out)@ == old(out)@ + src@,
{
    let mut i: usize = 0;
    while i < src.len()
        invariant
            i <= src.len(),
            out@ == old(out)@ + src@.take(i as int),
        decreases src.len() - i,
    {
        out.push(src[i]);
        i = i + 1;
        assert(out@ =~= old(out)@ + src@.take(i as int));
    }
    assert(src@.take(src.len() as int) =~= src@);
}

/// Appends all characters of a string slice to `out`.
pub fn push_str(out: &mut Vec<char>, src: &str)
    ensures
        final(out)@ == old(out)@ + src@,
{
    let v = chars_of(src);
    push_all(out, &v);
}

// ---------------------------------------------------------------- trimming

pub open spec fn trim_start(s: Seq<char>) -> Seq<char>
    decreases s.len(),
{
    if s.len() > 0 && is_white_space(s[0]) {
        trim_start(s.drop_first())
    } else {
        s
    }
}

pub open spec fn trim_end(s: Seq<char>) -> Seq<char>
    decreases s.len(),
{
    if s.len() > 0 && is_white_space(s.last()) {
        trim_end(s.drop_last())
    } else {
        s
    }
}

/// `str::trim`: leading and trailing white space removed.
pub open spec fn trim(s: Seq<char>) -> Seq<char> {
    trim_end(trim_start(s))
}

/// The index where `trim_start(s)` begins.
pub fn trim_start_index(s: &Vec<char>) -> (i: usize)
    ensures
        i <= s.len(),
        trim_start(s@) == s@.skip(i as int),
{
    let mut i: usize = 0;
    assert(s@.skip(0) =~= s@);
    while i < s.len() && white_space(s[i])
        invariant
            i <= s.len(),
            trim_start(s@) == trim_start(s@.skip(i as int)),
        decreases s.len() - i,
    {
        assert(s@.skip(i as int).drop_first() =~= s@.skip(i + 1));
        i = i + 1;
    }
    i
}

/// The index where `trim_end(s.take(hi))` ends.
fn trim_end_index(s: &Vec<char>, lo: usize) -> (j: usize)
    requires
        lo <= s.len(),
    ensures
        lo <= j <= s.len(),
        trim_end(s@.skip(lo as int)) == s@.subrange(lo as int, j as int),
{
    let mut j: usize = s.len();
    assert(s@.skip(lo as int) =~= s@.subrange(lo as int, j as int));
    while j > lo && white_space(s[j - 1])
        invariant
            lo <= j <= s.len(),
            trim_end(s@.skip(lo as int)) == trim_end(s@.subrange(lo as int, j as int)),
        decreases j,
    {
        assert(s@.subrange(lo as int, j as int).drop_last() =~= s@.subrange(lo as int, j - 1));
        j = j - 1;
    }
    j
}

/// `str::trim` on a character vector.
pub fn trimmed(s: &Vec<char>) -> (t: Vec<char>)
    ensures
        t@ == trim(s@),
{
    let i = trim_start_index(s);
    let j = trim_end_index(s, i);
    slice_of(s, i, j)
}

/// The characters `s[lo..hi]`.
pub fn slice_of(s: &Vec<char>, lo: usize, hi: usize) -> (t: Vec<char>)
    requires
        lo <= hi <= s.len(),
    ensures
        t@ == s@.subrange(lo as int, hi as int),
{
    let mut t: Vec<char> = Vec::new();
    let mut k: usize = lo;
    while k < hi
        invariant
            lo <= k <= hi,
            hi <= s.len(),
            t@ == s@.subrange(lo as int, k as int),
        decreases hi - k,
    {
        t.push(s[k]);
        k = k + 1;
        assert(t@ =~= s@.subrange(lo as int, k as int));
    }
    t
}

// ---------------------------------------------------------------- searching

/// Index of the first occurrence of `c` in `s`.
pub open spec fn find_first(s: Seq<char>, c: char) -> Option<nat>
    decreases s.len(),
{
    if s.len() == 0 {
        None
    } else if s[0] == c {
        Some(0)
    } else {
        match find_first(s.drop_first(), c) {
            Some(i) => Some(i + 1),
            None => None,
        }
    }
}

pub proof fn lemma_find_first(s: Seq<char>, c: char)
    ensures
        find_first(s, c) matches Some(i) ==> i < s.len() && s[i as int] == c && forall|j: int|
            0 <= j < i ==> s[j] != c,
        find_first(s, c) is None ==> forall|j: int| 0 <= j < s.len() ==> s[j] != c,
    decreases s.len(),
{
    if s.len() > 0 {
        lemma_find_first(s.drop_first(), c);
        if s[0] != c {
            assert forall|j: int| 1 <= j < s.len() implies s[j] == s.drop_first()[j - 1] by {}
        }
    }
}

/// `find_first` is characterised by its first hit.
pub proof fn lemma_find_first_at(s: Seq<char>, c: char, i: int)
    requires
        0 <= i <= s.len(),
        forall|j: int| 0 <= j < i ==> s[j] != c,
    ensures
        i < s.len() && s[i] == c ==> find_first(s, c) == Some(i as nat),
        i == s.len() ==> find_first(s, c) is None,
    decreases i,
{
    if i > 0 {
        lemma_find_first_at(s.drop_first(), c, i - 1);
    }
}

/// `str::split_once(c)`: the text before and after the first `c`.
pub open spec fn split_once(s: Seq<char>, c: char) -> Option<(Seq<char>, Seq<char>)> {
    match find_first(s, c) {
        Some(i) => Some((s.take(i as int), s.skip(i as int + 1))),
        None => None,
    }
}

/// `str::contains(c)`.
pub open spec fn has_char(s: Seq<char>, c: char) -> bool {
    find_first(s, c) is Some
}

pub fn find_char(s: &Vec<char>, c: char) -> (r: Option<usize>)
    ensures
        r matches Some(i) ==> i < s.len() && s@[i as int] == c && find_first(s@, c) == Some(
            i as nat,
        ),
        r is None ==> find_first(s@, c) is None,
{
    let mut i: usize = 0;
    while i < s.len()
        invariant
            i <= s.len(),
            forall|j: int| 0 <= j < i ==> s@[j] != c,
        decreases s.len() - i,
    {
        if s[i] == c {
            proof {
                lemma_find_first_at(s@, c, i as int);
            }
            return Some(i);
        }
        i = i + 1;
    }
    proof {
        lemma_find_first_at(s@, c, i as int);
    }
    None
}

/// Number of occurrences of `c` in `s` (`str::matches(c).count()`).
pub open spec fn count_char(s: Seq<char>, c: char) -> nat
    decreases s.len(),
{
    if s.len() == 0 {
        0
    } else {
        count_char(s.drop_last(), c) + if s.last() == c {
            1nat
        } else {
            0nat
        }
    }
}

pub fn count_of(s: &Vec<char>, c: char) -> (n: usize)
    ensures
        n == count_char(s@, c),
{
    let mut n: usize = 0;
    let mut i: usize = 0;
    while i < s.len()
        invariant
            i <= s.len(),
            n == count_char(s@.take(i as int), c),
            n <= i,
        decreases s.len() - i,
    {
        assert(s@.take(i + 1).drop_last() =~= s@.take(i as int));
        if s[i] == c {
            n = n + 1;
        }
        i = i + 1;
    }
    assert(s@.take(s.len() as int) =~= s@);
    n
}

/// `str::split(c)`: the pieces between occurrences of `c`.
pub open spec fn split_on(s: Seq<char>, c: char) -> Seq<Seq<char>>
    decreases s.len(),
{
    match find_first(s, c) {
        Some(i) => {
            if i < s.len() {
                seq![s.take(i as int)] + split_on(s.skip(i as int + 1), c)
            } else {
                seq![s]
            }
        },
        None => seq![s],
    }
}

pub fn split_chars(s: &Vec<char>, c: char) -> (pieces: Vec<Vec<char>>)
    ensures
        pieces@.len() == split_on(s@, c).len(),
        forall|k: int| 0 <= k < pieces@.len() ==> #[trigger] pieces@[k]@ == split_on(s@, c)[k],
{
    let mut pieces: Vec<Vec<char>> = Vec::new();
    let ghost mut done: Seq<Seq<char>> = Seq::empty();
    let mut st: usize = 0;
    let mut i: usize = 0;
    assert(s@.skip(0) =~= s@);
    assert(done + split_on(s@, c) =~= split_on(s@, c));
    while i < s.len()
        invariant
            st <= i <= s.len(),
            forall|j: int| st <= j < i ==> s@[j] != c,
            split_on(s@, c) == done + split_on(s@.skip(st as int), c),
            pieces@.len() == done.len(),
            forall|k: int| 0 <= k < pieces@.len() ==> #[trigger] pieces@[k]@ == done[k],
        decreases s.len() - i,
    {
        if s[i] == c {
            let piece = slice_of(s, st, i);
            proof {
                let rest = s@.skip(st as int);
                assert forall|j: int| 0 <= j < i - st implies rest[j] != c by {}
                lemma_find_first_at(rest, c, i - st);
                assert(rest.take(i - st) =~= piece@);
                assert(rest.skip(i - st + 1) =~= s@.skip(i + 1));
                done = done.push(piece@);
            }
            pieces.push(piece);
            st = i + 1;
        }
        i = i + 1;
    }
    let last = slice_of(s, st, i);
    proof {
        let rest = s@.skip(st as int);
        assert forall|j: int| 0 <= j < rest.len() implies rest[j] != c by {}
        lemma_find_first_at(rest, c, rest.len() as int);
        assert(rest =~= last@);
        done = done.push(last@);
    }
    pieces.push(last);
    pieces
}

/// `split_once` on a character vector.
pub fn split_once_chars(s: &Vec<char>, c: char) -> (r: Option<(Vec<char>, Vec<char>)>)
    ensures
        r is Some <==> split_once(s@, c) is Some,
        r matches Some((a, b)) ==> split_once(s@, c) == Some((a@, b@)),
{
    match find_char(s, c) {
        Some(i) => {
            proof {
                lemma_find_first(s@, c);
            }
            let a = slice_of(s, 0, i);
            let b = slice_of(s, i + 1, s.len());
            assert(a@ =~= s@.take(i as int));
            assert(b@ =~= s@.skip(i + 1));
            Some((a, b))
        },
        None => None,
    }
}

/// `str::starts_with`.
pub open spec fn starts_with(s: Seq<char>, p: Seq<char>) -> bool {
    p.len() <= s.len() && s.take(p.len() as int) == p
}

pub fn starts_with_chars(s: &Vec<char>, p: &Vec<char>) -> (b: bool)
    ensures
        b == starts_with(s@, p@),
{
    if p.len() > s.len() {
        return false;
    }
    let mut i: usize = 0;
    while i < p.len()
        invariant
            p.len() <= s.len(),
            i <= p.len(),
            forall|j: int| 0 <= j < i ==> s@[j] == p@[j],
        decreases p.len() - i,
    {
        if s[i] != p[i] {
            assert(s@.take(p.len() as int)[i as int] != p@[i as int]);
            return false;
        }
        i = i + 1;
    }
    assert(s@.take(p.len() as int) =~= p@);
    true
}

// ---------------------------------------------------------------- words

/// Index of the first white-space character.
pub open spec fn find_ws(s: Seq<char>) -> Option<nat>
    decreases s.len(),
{
    if s.len() == 0 {
        None
    } else if is_white_space(s[0]) {
        Some(0)
    } else {
        match find_ws(s.drop_first()) {
            Some(i) => Some(i + 1),
            None => None,
        }
    }
}

pub proof fn lemma_find_ws_at(s: Seq<char>, i: int)
    requires
        0 <= i <= s.len(),
        forall|j: int| 0 <= j < i ==> !is_white_space(s[j]),
    ensures
        i < s.len() && is_white_space(s[i]) ==> find_ws(s) == Some(i as nat),
        i == s.len() ==> find_ws(s) is None,
    decreases i,
{
    if i > 0 {
        lemma_find_ws_at(s.drop_first(), i - 1);
    }
}

pub fn find_ws_chars(s: &Vec<char>) -> (r: Option<usize>)
    ensures
        r matches Some(i) ==> i < s.len() && find_ws(s@) == Some(i as nat),
        r is None ==> find_ws(s@) is None,
{
    let mut i: usize = 0;
    while i < s.len()
        invariant
            i <= s.len(),
            forall|j: int| 0 <= j < i ==> !is_white_space(s@[j]),
        decreases s.len() - i,
    {
        if white_space(s[i]) {
            proof {
                lemma_find_ws_at(s@, i as int);
            }
            return Some(i);
        }
        i = i + 1;
    }
    proof {
        lemma_find_ws_at(s@, i as int);
    }
    None
}

/// `split_whitespace().next().unwrap_or("")`: the first white-space
/// separated word, or nothing.
pub open spec fn first_word(s: Seq<char>) -> Seq<char> {
    let t = trim_start(s);
    match find_ws(t) {
        Some(i) => t.take(i as int),
        None => t,
    }
}

pub fn first_word_chars(s: &Vec<char>) -> (w: Vec<char>)
    ensures
        w@ == first_word(s@),
{
    let i = trim_start_index(s);
    let t = slice_of(s, i, s.len());
    assert(t@ =~= s@.skip(i as int));
    match find_ws_chars(&t) {
        Some(j) => {
            let w = slice_of(&t, 0, j);
            assert(w@ =~= t@.take(j as int));
            w
        },
        None => t,
    }
}

/// `str::contains` of a pattern string.
pub open spec fn contains_seq(s: Seq<char>, pat: Seq<char>) -> bool {
    exists|i: int| 0 <= i && i + pat.len() <= s.len() && #[trigger] s.subrange(i, i + pat.len()) == pat
}

fn matches_at(s: &Vec<char>, pat: &Vec<char>, i: usize) -> (b: bool)
    requires
        i + pat.len() <= s.len(),
    ensures
        b == (s@.subrange(i as int, i + pat.len()) == pat@),
{
    let mut k: usize = 0;
    while k < pat.len()
        invariant
            i + pat.len() <= s.len(),
            k <= pat.len(),
            forall|j: int| 0 <= j < k ==> s@[i + j] == pat@[j],
        decreases pat.len() - k,
    {
        if s[i + k] != pat[k] {
            assert(s@.subrange(i as int, i + pat.len())[k as int] != pat@[k as int]);
            return false;
        }
        k = k + 1;
    }
    assert(s@.subrange(i as int, i + pat.len()) =~= pat@);
    true
}

pub fn contains_chars(s: &Vec<char>, pat: &Vec<char>) -> (b: bool)
    ensures
        b == contains_seq(s@, pat@),
{
    if pat.len() > s.len() {
        return false;
    }
    if pat.len() == 0 {
        assert(s@.subrange(0, 0 + pat.len()) =~= pat@);
        return true;
    }
    let last = s.len() - pat.len();
    let mut i: usize = 0;
    while i <= last
        invariant
            last == s.len() - pat.len(),
            pat.len() >= 1,
            i <= last + 1,
            forall|j: int| 0 <= j < i ==> #[trigger] s@.subrange(j, j + pat.len()) != pat@,
        decreases last + 1 - i,
    {
        if matches_at(s, pat, i) {
            return true;
        }
        i = i + 1;
    }
    false
}

/// `join(" ")` of a list of strings.
pub open spec fn join_space(items: Seq<Seq<char>>) -> Seq<char>
    decreases items.len(),
{
    if items.len() == 0 {
        Seq::empty()
    } else if items.len() == 1 {
        items[0]
    } else {
        join_space(items.drop_last()) + seq![' '] + items.last()
    }
}

/// The texts of a list of strings.
pub open spec fn strings_text(v: Seq<String>) -> Seq<Seq<char>> {
    v.map_values(|s: String| s@)
}

/// Appends `items.join(" ")`.
pub fn push_joined(out: &mut Vec<char>, items: &[String])
    ensures
        final(out)@ == old(out)@ + join_space(strings_text(items@)),
{
    let mut i: usize = 0;
    while i < items.len()
        invariant
            i <= items.len(),
            out@ == old(out)@ + join_space(strings_text(items@).take(i as int)),
        decreases items.len() - i,
    {
        let ghost t = strings_text(items@);
        assert(t.take(i + 1).drop_last() =~= t.take(i as int));
        if i > 0 {
            out.push(' ');
        }
        let c = chars_of(items[i].as_str());
        push_all(out, &c);
        assert(out@ =~= old(out)@ + join_space(t.take(i + 1)));
        i = i + 1;
    }
    assert(strings_text(items@).take(items.len() as int) =~= strings_text(items@));
}

// ---------------------------------------------------------------- decimal numbers

pub open spec fn digit_char(d: nat) -> char {
    if d == 0 {
        '0'
    } else if d == 1 {
        '1'
    } else if d == 2 {
        '2'
    } else if d == 3 {
        '3'
    } else if d == 4 {
        '4'
    } else if d == 5 {
        '5'
    } else if d == 6 {
        '6'
    } else if d == 7 {
        '7'
    } else if d == 8 {
        '8'
    } else {
        '9'
    }
}

/// Decimal digits of `n`, as `Display` writes an unsigned integer.
pub open spec fn dec(n: nat) -> Seq<char>
    decreases n,
{
    if n < 10 {
        seq![digit_char(n)]
    } else {
        dec(n / 10).push(digit_char(n % 10))
    }
}

/// Decimal text of a signed integer, as `Display` writes it.
pub open spec fn sdec(i: int) -> Seq<char> {
    if i < 0 {
        seq!['-'] + dec((-i) as nat)
    } else {
        dec(i as nat)
    }
}

fn digit(d: u64) -> (c: char)
    requires
        d < 10,
    ensures
        c == digit_char(d as nat),
{
    if d == 0 {
        '0'
    } else if d == 1 {
        '1'
    } else if d == 2 {
        '2'
    } else if d == 3 {
        '3'
    } else if d == 4 {
        '4'
    } else if d == 5 {
        '5'
    } else if d == 6 {
        '6'
    } else if d == 7 {
        '7'
    } else if d == 8 {
        '8'
    } else {
        '9'
    }
}

/// Appends the decimal digits of `n`.
pub fn push_dec(out: &mut Vec<char>, n: u64)
    ensures
        final(out)@ == old(out)@ + dec(n as nat),
    decreases n,
{
    if n < 10 {
        out.push(digit(n));
        assert(out@ =~= old(out)@ + dec(n as nat));
    } else {
        push_dec(out, n / 10);
        out.push(digit(n % 10));
        assert(out@ =~= old(out)@ + dec(n as nat));
    }
}

/// Appends the decimal text of a signed `n`.
pub fn push_sdec(out: &mut Vec<char>, n: i64)
    ensures
        final(out)@ == old(out)@ + sdec(n as int),
{
    if n < 0 {
        out.push('-');
        let m: u64 = if n == i64::MIN {
            9223372036854775808u64
        } else {
            (-n) as u64
        };
        push_dec(out, m);
        assert(out@ =~= old(out)@ + sdec(n as int));
    } else {
        push_dec(out, n as u64);
    }
}

/// Why `str::parse` of an unsigned integer fails (`IntErrorKind`).
#[derive(Debug, Clone, Copy, PartialEq, Eq)]
pub enum IntError {
    Empty,
    InvalidDigit,
    PosOverflow,
}

/// The text that `ParseIntError`'s `Display` writes for each kind.
pub open spec fn int_error_text(e: IntError) -> Seq<char> {
    match e {
        IntError::Empty => "cannot parse integer from empty string"@,
        IntError::InvalidDigit => "invalid digit found in string"@,
        IntError::PosOverflow => "number too large to fit in target type"@,
    }
}

pub fn int_error_message(e: IntError) -> (v: Vec<char>)
    ensures
        v@ == int_error_text(e),
{
    match e {
        IntError::Empty => chars_of("cannot parse integer from empty string"),
        IntError::InvalidDigit => chars_of("invalid digit found in string"),
        IntError::PosOverflow => chars_of("number too large to fit in target type"),
    }
}

pub open spec fn digit_value(c: char) -> Option<nat> {
    if '0' <= c && c <= '9' {
        Some((c as u32 - '0' as u32) as nat)
    } else {
        None
    }
}

/// Reads decimal digits left to right into `acc`, failing on the first
/// non-digit or as soon as the value passes `max`.
pub open spec fn parse_digits(s: Seq<char>, acc: nat, max: nat) -> Result<nat, IntError>
    decreases s.len(),
{
    if s.len() == 0 {
        Ok(acc)
    } else {
        match digit_value(s[0]) {
            None => Err(IntError::InvalidDigit),
            Some(d) => if acc * 10 + d > max {
                Err(IntError::PosOverflow)
            } else {
                parse_digits(s.drop_first(), acc * 10 + d, max)
            },
        }
    }
}

/// `str::parse` of an unsigned integer type whose largest value is `max`:
/// an optional `+` followed by decimal digits only.
pub open spec fn parse_uint(s: Seq<char>, max: nat) -> Result<nat, IntError> {
    if s.len() == 0 {
        Err(IntError::Empty)
    } else if s[0] == '+' {
        if s.len() == 1 {
            Err(IntError::InvalidDigit)
        } else {
            parse_digits(s.drop_first(), 0, max)
        }
    } else {
        parse_digits(s, 0, max)
    }
}

pub proof fn lemma_parse_digits_bound(s: Seq<char>, acc: nat, max: nat)
    requires
        acc <= max,
    ensures
        parse_digits(s, acc, max) matches Ok(v) ==> v <= max,
    decreases s.len(),
{
    if s.len() > 0 {
        if let Some(d) = digit_value(s[0]) {
            if acc * 10 + d <= max {
                lemma_parse_digits_bound(s.drop_first(), acc * 10 + d, max);
            }
        }
    }
}

pub proof fn lemma_parse_uint_bound(s: Seq<char>, max: nat)
    ensures
        parse_uint(s, max) matches Ok(v) ==> v <= max,
{
    if s.len() > 0 {
        if s[0] == '+' {
            lemma_parse_digits_bound(s.drop_first(), 0, max);
        } else {
            lemma_parse_digits_bound(s, 0, max);
        }
    }
}

/// Decimal parse of `s[from..]` into a value no larger than `max`.
fn parse_digits_from(s: &Vec<char>, from: usize, max: u32) -> (r: Result<u32, IntError>)
    requires
        from <= s.len(),
        max >= 9,
    ensures
        match r {
            Ok(v) => parse_digits(s@.skip(from as int), 0, max as nat) == Ok::<nat, IntError>(
                v as nat,
            ),
            Err(e) => parse_digits(s@.skip(from as int), 0, max as nat) == Err::<nat, IntError>(
                e,
            ),
        },
{
    let mut acc: u32 = 0;
    let mut i: usize = from;
    while i < s.len()
        invariant
            from <= i <= s.len(),
            acc <= max,
            max >= 9,
            parse_digits(s@.skip(from as int), 0, max as nat) == parse_digits(
                s@.skip(i as int),
                acc as nat,
                max as nat,
            ),
        decreases s.len() - i,
    {
        let c = s[i];
        assert(s@.skip(i as int)[0] == c);
        assert(s@.skip(i as int).drop_first() =~= s@.skip(i + 1));
        if c < '0' || c > '9' {
            return Err(IntError::InvalidDigit);
        }
        let d: u32 = (c as u32) - ('0' as u32);
        if acc > (max - d) / 10 {
            assert(acc * 10 + d > max) by (nonlinear_arith)
                requires
                    acc > (max - d) / 10,
                    d <= 9,
                    max >= 9,
            ;
            return Err(IntError::PosOverflow);
        }
        assert(acc * 10 + d <= max) by (nonlinear_arith)
            requires
                acc <= (max - d) / 10,
                d <= 9,
        ;
        acc = acc * 10 + d;
        i = i + 1;
    }
    Ok(acc)
}

/// `str::parse::<uN>()` where `max` is `uN::MAX`.
pub fn parse_uint_chars(s: &Vec<char>, max: u32) -> (r: Result<u32, IntError>)
    requires
        max >= 9,
    ensures
        match r {
            Ok(v) => parse_uint(s@, max as nat) == Ok::<nat, IntError>(v as nat),
            Err(e) => parse_uint(s@, max as nat) == Err::<nat, IntError>(e),
        },
{
    if s.len() == 0 {
        return Err(IntError::Empty);
    }
    if s[0] == '+' {
        if s.len() == 1 {
            return Err(IntError::InvalidDigit);
        }
        assert(s@.skip(1) =~= s@.drop_first());
        parse_digits_from(s, 1, max)
    } else {
        assert(s@.skip(0) =~= s@);
        parse_digits_from(s, 0, max)
    }
}

} // verus!
