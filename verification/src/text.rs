//! Reading and writing plain text: the pieces that the settings file, the tracker's lines
//! and the messages of other programs are made of.

use vstd::prelude::*;
use vstd::slice::slice_subrange;

verus! {

/// `String::push`: the character goes to the end of the text.
pub assume_specification[ String::push ](s: &mut String, c: char)
    ensures
        final(s)@ == old(s)@.push(c),
;

/// The characters of a text.
pub fn chars_of(s: &str) -> (chars: Vec<char>)
    ensures
        chars@ == s@,
{
    let mut chars: Vec<char> = Vec::new();
    for c in it: s.chars()
        invariant
            it.seq() == s@,
            chars@ == s@.take(it.index()),
    {
        chars.push(c);
        assert(chars@ =~= s@.take(it.index() + 1));
    }
    assert(s@.take(s@.len() as int) =~= s@);
    chars
}

/// The text made of the given characters.
pub fn string_of(chars: &[char]) -> (s: String)
    ensures
        s@ == chars@,
{
    let mut s = String::new();
    let n: usize = chars.len();
    for i in 0..n
        invariant
            n == chars@.len(),
            s@ == chars@.take(i as int),
    {
        s.push(chars[i]);
        assert(s@ =~= chars@.take(i + 1));
    }
    assert(chars@.take(n as int) =~= chars@);
    s
}

/// Whether `c` is white space, as Unicode's property White_Space has it.
pub open spec fn is_white(c: char) -> bool {
    let u = c as u32;
    ||| 0x09 <= u <= 0x0D
    ||| u == 0x20
    ||| u == 0x85
    ||| u == 0xA0
    ||| u == 0x1680
    ||| 0x2000 <= u <= 0x200A
    ||| u == 0x2028
    ||| u == 0x2029
    ||| u == 0x202F
    ||| u == 0x205F
    ||| u == 0x3000
}

/// Tells white space from other characters.
pub fn white(c: char) -> (r: bool)
    ensures
        r == is_white(c),
{
    let u: u32 = c as u32;
    (0x09 <= u && u <= 0x0D) || u == 0x20 || u == 0x85 || u == 0xA0 || u == 0x1680 || (0x2000 <= u
        && u <= 0x200A) || u == 0x2028 || u == 0x2029 || u == 0x202F || u == 0x205F || u == 0x3000
}

/// `s` without the white space at its start.
pub open spec fn trim_start(s: Seq<char>) -> Seq<char>
    decreases s.len(),
{
    if s.len() > 0 && is_white(s[0]) {
        trim_start(s.drop_first())
    } else {
        s
    }
}

/// `s` without the white space at its end.
pub open spec fn trim_end(s: Seq<char>) -> Seq<char>
    decreases s.len(),
{
    if s.len() > 0 && is_white(s.last()) {
        trim_end(s.drop_last())
    } else {
        s
    }
}

/// `s` without the white space at both its ends.
pub open spec fn trimmed(s: Seq<char>) -> Seq<char> {
    trim_end(trim_start(s))
}

/// Cuts the white space off both ends.
pub fn trim(s: &[char]) -> (r: &[char])
    ensures
        r@ == trimmed(s@),
{
    let n: usize = s.len();
    let mut from: usize = 0;
    assert(s@.subrange(0, n as int) =~= s@);
    while from < n && white(s[from])
        invariant
            n == s@.len(),
            from <= n,
            trim_start(s@) == trim_start(s@.subrange(from as int, n as int)),
        decreases n - from,
    {
        assert(s@.subrange(from as int, n as int).drop_first() =~= s@.subrange(
            from + 1,
            n as int,
        ));
        from = from + 1;
    }
    assert(trim_start(s@) == s@.subrange(from as int, n as int));
    let mut to: usize = n;
    while to > from && white(s[to - 1])
        invariant
            n == s@.len(),
            from <= to <= n,
            trimmed(s@) == trim_end(s@.subrange(from as int, to as int)),
        decreases to,
    {
        assert(s@.subrange(from as int, to as int).drop_last() =~= s@.subrange(
            from as int,
            to - 1,
        ));
        to = to - 1;
    }
    slice_subrange(s, from, to)
}

/// The pieces of `s` between the occurrences of `sep`: one more piece than there are
/// occurrences.
pub open spec fn pieces(s: Seq<char>, sep: char) -> Seq<Seq<char>>
    decreases s.len(),
{
    if s.len() == 0 {
        seq![Seq::empty()]
    } else {
        let before = pieces(s.drop_last(), sep);
        if s.last() == sep {
            before.push(Seq::empty())
        } else {
            before.drop_last().push(before.last().push(s.last()))
        }
    }
}

pub proof fn lemma_pieces_nonempty(s: Seq<char>, sep: char)
    ensures
        pieces(s, sep).len() > 0,
    decreases s.len(),
{
    if s.len() > 0 {
        lemma_pieces_nonempty(s.drop_last(), sep);
    }
}

/// Text without a separator goes to the end of the last piece.
pub proof fn lemma_pieces_extend(a: Seq<char>, line: Seq<char>, sep: char)
    requires
        forall|i: int| 0 <= i < line.len() ==> #[trigger] line[i] != sep,
    ensures
        pieces(a + line, sep) == pieces(a, sep).drop_last().push(pieces(a, sep).last() + line),
    decreases line.len(),
{
    lemma_pieces_nonempty(a, sep);
    let before = pieces(a, sep);
    if line.len() == 0 {
        assert(a + line =~= a);
        assert(before.last() + line =~= before.last());
        assert(before.drop_last().push(before.last()) =~= before);
    } else {
        let shorter = line.drop_last();
        assert forall|i: int| 0 <= i < shorter.len() implies #[trigger] shorter[i] != sep by {
            assert(line[i] != sep);
        }
        lemma_pieces_extend(a, shorter, sep);
        assert((a + line).drop_last() =~= a + shorter);
        assert(line[line.len() - 1] != sep);
        let mid = pieces(a + shorter, sep);
        assert(mid.drop_last() =~= before.drop_last());
        assert(mid.last() == before.last() + shorter);
        assert((before.last() + shorter).push(line.last()) =~= before.last() + line);
    }
}

/// A line and its end go before an empty last piece.
pub proof fn lemma_pieces_line(a: Seq<char>, line: Seq<char>, sep: char)
    requires
        forall|i: int| 0 <= i < line.len() ==> #[trigger] line[i] != sep,
        pieces(a, sep).last() == Seq::<char>::empty(),
    ensures
        pieces(a + line.push(sep), sep) == pieces(a, sep).drop_last().push(line).push(
            Seq::empty(),
        ),
{
    lemma_pieces_extend(a, line, sep);
    assert(Seq::<char>::empty() + line =~= line);
    assert((a + line.push(sep)).drop_last() =~= a + line);
}

/// Text that neither starts nor ends in white space is not trimmed.
pub proof fn lemma_trimmed(s: Seq<char>)
    requires
        s.len() > 0,
        !is_white(s[0]),
        !is_white(s.last()),
    ensures
        trimmed(s) == s,
{
}

/// Cuts a text at every occurrence of `sep`.
pub fn split(s: &[char], sep: char) -> (r: Vec<Vec<char>>)
    ensures
        r@.map_values(|p: Vec<char>| p@) == pieces(s@, sep),
{
    let mut done: Vec<Vec<char>> = Vec::new();
    let mut current: Vec<char> = Vec::new();
    let n: usize = s.len();
    let ghost view = |p: Vec<char>| p@;
    assert(s@.take(0) =~= Seq::<char>::empty());
    assert(done@.map_values(view).push(current@) =~= pieces(s@.take(0), sep));
    for i in 0..n
        invariant
            n == s@.len(),
            view == (|p: Vec<char>| p@),
            done@.map_values(view).push(current@) == pieces(s@.take(i as int), sep),
    {
        let c: char = s[i];
        let ghost before = done@.map_values(view).push(current@);
        assert(s@.take(i + 1).drop_last() =~= s@.take(i as int));
        assert(s@.take(i + 1).last() == c);
        if c == sep {
            let ghost was = done@;
            let ghost piece = current;
            done.push(current);
            current = Vec::new();
            assert(done@.map_values(view) =~= was.map_values(view).push(piece@));
            assert(done@.map_values(view).push(current@) =~= before.push(Seq::empty()));
        } else {
            let ghost was = current@;
            current.push(c);
            assert(before.drop_last() =~= done@.map_values(view));
            assert(done@.map_values(view).push(current@) =~= before.drop_last().push(
                before.last().push(c),
            ));
        }
    }
    assert(s@.take(n as int) =~= s@);
    let ghost was = done@;
    let ghost piece = current;
    done.push(current);
    assert(done@.map_values(view) =~= was.map_values(view).push(piece@));
    done
}

/// What stands before and after the first `sep` of `s`, if it has one.
pub open spec fn cut(s: Seq<char>, sep: char) -> Option<(Seq<char>, Seq<char>)> {
    match s.index_of_first(sep) {
        Some(i) => Some((s.take(i), s.skip(i + 1))),
        None => None,
    }
}

/// Cuts a text at the first occurrence of `sep`.
pub fn split_once(s: &[char], sep: char) -> (r: Option<(&[char], &[char])>)
    ensures
        r is Some <==> cut(s@, sep) is Some,
        r matches Some((a, b)) ==> cut(s@, sep) == Some((a@, b@)),
{
    let n: usize = s.len();
    proof {
        s@.index_of_first_ensures(sep);
    }
    for i in 0..n
        invariant
            n == s@.len(),
            forall|j: int| 0 <= j < i ==> s@[j] != sep,
    {
        if s[i] == sep {
            proof {
                s@.index_of_first_ensures(sep);
                assert(s@.contains(sep));
                assert(s@.take(i as int) =~= s@.subrange(0, i as int));
                assert(s@.skip(i + 1) =~= s@.subrange(i + 1, n as int));
            }
            return Some((slice_subrange(s, 0, i), slice_subrange(s, i + 1, n)));
        }
    }
    None
}

/// Compares two texts.
pub fn same(a: &[char], b: &[char]) -> (r: bool)
    ensures
        r == (a@ == b@),
{
    if a.len() != b.len() {
        return false;
    }
    let n: usize = a.len();
    for i in 0..n
        invariant
            n == a@.len(),
            n == b@.len(),
            forall|j: int| 0 <= j < i ==> a@[j] == b@[j],
    {
        if a[i] != b[i] {
            return false;
        }
    }
    assert(a@ =~= b@);
    true
}

/// `needle` stands in `hay` from `at` on.
pub open spec fn occurs_at(hay: Seq<char>, needle: Seq<char>, at: int) -> bool {
    0 <= at && at + needle.len() <= hay.len() && hay.subrange(at, at + needle.len()) == needle
}

/// `needle` stands somewhere in `hay`.
pub open spec fn occurs(hay: Seq<char>, needle: Seq<char>) -> bool {
    exists|at: int| occurs_at(hay, needle, at)
}

/// Looks for `needle` in `hay`.
pub fn contains(hay: &[char], needle: &[char]) -> (r: bool)
    ensures
        r == occurs(hay@, needle@),
{
    if needle.len() > hay.len() {
        return false;
    }
    let n: usize = hay.len();
    let m: usize = needle.len();
    let last: usize = n - m;
    let mut at: usize = 0;
    while at <= last
        invariant
            n == hay@.len(),
            m == needle@.len(),
            m <= n,
            last == n - m,
            at <= last + 1,
            forall|i: int| 0 <= i < at ==> !occurs_at(hay@, needle@, i),
        decreases last + 1 - at,
    {
        if same(slice_subrange(hay, at, at + m), needle) {
            assert(occurs_at(hay@, needle@, at as int));
            return true;
        }
        if at == last {
            assert forall|i: int| !occurs_at(hay@, needle@, i) by {
                if 0 <= i && i <= last {
                    assert(i < at || i == at);
                }
            }
            return false;
        }
        at = at + 1;
    }
    false
}

/// Whether `c` is a decimal digit.
pub open spec fn is_digit(c: char) -> bool {
    '0' <= c <= '9'
}

/// The value of a decimal digit.
pub open spec fn digit_value(c: char) -> int {
    c as int - '0' as int
}

/// `s` is made of digits, at least one.
pub open spec fn is_number(s: Seq<char>) -> bool {
    s.len() > 0 && forall|i: int| 0 <= i < s.len() ==> is_digit(#[trigger] s[i])
}

/// The number that the digits of `s` write.
pub open spec fn number_value(s: Seq<char>) -> int
    decreases s.len(),
{
    if s.len() == 0 {
        0
    } else {
        10 * number_value(s.drop_last()) + digit_value(s.last())
    }
}

/// The number that the digits of `s` write, where it is one of at most `max`.
pub open spec fn unsigned_digits(s: Seq<char>, max: int) -> Option<int> {
    if is_number(s) && number_value(s) <= max {
        Some(number_value(s))
    } else {
        None
    }
}

/// The number that `s` writes, a plus sign allowed in front, where it is one of at most
/// `max`.
pub open spec fn unsigned_value(s: Seq<char>, max: int) -> Option<int> {
    if s.len() > 0 && s[0] == '+' {
        unsigned_digits(s.skip(1), max)
    } else {
        unsigned_digits(s, max)
    }
}

/// The number that `s` writes, a sign allowed in front, where it fits 32 bits.
pub open spec fn signed_value(s: Seq<char>) -> Option<int> {
    if s.len() > 0 && s[0] == '-' {
        match unsigned_digits(s.skip(1), 0x8000_0000) {
            Some(n) => Some(-n),
            None => None,
        }
    } else {
        unsigned_value(s, 0x7FFF_FFFF)
    }
}

proof fn lemma_number_grows(s: Seq<char>, n: int)
    requires
        is_number(s),
        0 <= n <= s.len(),
    ensures
        0 <= number_value(s.take(n)) <= number_value(s),
    decreases s.len() - n,
{
    if n == s.len() {
        assert(s.take(n) =~= s);
        lemma_number_nonnegative(s, n);
    } else {
        lemma_number_grows(s, n + 1);
        lemma_number_nonnegative(s, n);
        assert(s.take(n + 1).drop_last() =~= s.take(n));
        assert(is_digit(s[n]));
    }
}

proof fn lemma_number_nonnegative(s: Seq<char>, n: int)
    requires
        is_number(s),
        0 <= n <= s.len(),
    ensures
        0 <= number_value(s.take(n)),
    decreases n,
{
    if n > 0 {
        lemma_number_nonnegative(s, n - 1);
        assert(s.take(n).drop_last() =~= s.take(n - 1));
        assert(is_digit(s[n - 1]));
    }
}

/// Reads digits alone.
fn parse_digits(s: &[char], max: u64) -> (r: Option<u64>)
    ensures
        r is Some <==> unsigned_digits(s@, max as int) is Some,
        r matches Some(v) ==> unsigned_digits(s@, max as int) == Some(v as int),
{
    let n: usize = s.len();
    if n == 0 {
        return None;
    }
    let mut value: u64 = 0;
    assert(s@.take(0) =~= Seq::<char>::empty());
    for i in 0..n
        invariant
            n == s@.len(),
            n > 0,
            value <= max,
            value == number_value(s@.take(i as int)),
            forall|j: int| 0 <= j < i ==> is_digit(#[trigger] s@[j]),
    {
        let c: char = s[i];
        if c < '0' || c > '9' {
            assert(!is_digit(s@[i as int]));
            return None;
        }
        let next: u128 = 10 * (value as u128) + (c as u32 - '0' as u32) as u128;
        proof {
            assert(s@.take(i + 1).drop_last() =~= s@.take(i as int));
            if is_number(s@) {
                lemma_number_grows(s@, i + 1);
            }
        }
        if next > max as u128 {
            return None;
        }
        value = next as u64;
    }
    assert(s@.take(n as int) =~= s@);
    Some(value)
}

/// Reads an unsigned number of at most `max`.
pub fn parse_unsigned(s: &[char], max: u64) -> (r: Option<u64>)
    ensures
        r is Some <==> unsigned_value(s@, max as int) is Some,
        r matches Some(v) ==> unsigned_value(s@, max as int) == Some(v as int),
{
    if s.len() > 0 && s[0] == '+' {
        assert(s@.skip(1) =~= s@.subrange(1, s@.len() as int));
        parse_digits(slice_subrange(s, 1, s.len()), max)
    } else {
        parse_digits(s, max)
    }
}

/// Reads a signed 32-bit number.
pub fn parse_signed(s: &[char]) -> (r: Option<i32>)
    ensures
        r is Some <==> signed_value(s@) is Some,
        r matches Some(v) ==> signed_value(s@) == Some(v as int),
{
    if s.len() > 0 && s[0] == '-' {
        assert(s@.skip(1) =~= s@.subrange(1, s@.len() as int));
        match parse_digits(slice_subrange(s, 1, s.len()), 0x8000_0000) {
            Some(v) => Some((-(v as i64)) as i32),
            None => None,
        }
    } else {
        match parse_unsigned(s, 0x7FFF_FFFF) {
            Some(v) => Some(v as i32),
            None => None,
        }
    }
}

/// `s` without a sign in front.
pub open spec fn unsign(s: Seq<char>) -> Seq<char> {
    if s.len() > 0 && (s[0] == '+' || s[0] == '-') {
        s.skip(1)
    } else {
        s
    }
}

/// `c` is the small letter `letter` or its capital.
pub open spec fn is_letter(c: char, letter: char) -> bool {
    c == letter || c as int + 32 == letter as int
}

/// `s` is `word`, written in small letters, capitals or both.
pub open spec fn is_word(s: Seq<char>, word: Seq<char>) -> bool {
    s.len() == word.len() && forall|i: int| 0 <= i < s.len() ==> is_letter(#[trigger] s[i], word[i])
}

/// How many characters at the start of `s` are digits or points.
pub open spec fn mantissa_len(s: Seq<char>) -> int
    decreases s.len(),
{
    if s.len() > 0 && (is_digit(s[0]) || s[0] == '.') {
        1 + mantissa_len(s.drop_first())
    } else {
        0
    }
}

/// `s`, made of digits and points, has a digit and no two points.
pub open spec fn is_mantissa(s: Seq<char>) -> bool {
    &&& exists|i: int| 0 <= i < s.len() && is_digit(#[trigger] s[i])
    &&& forall|i: int, j: int|
        0 <= i < j < s.len() ==> !(#[trigger] s[i] == '.' && #[trigger] s[j] == '.')
}

/// `s` is a decimal exponent.
pub open spec fn is_exponent(s: Seq<char>) -> bool {
    s.len() > 0 && is_letter(s[0], 'e') && is_number(unsign(s.skip(1)))
}

/// `s` writes a decimal fraction: digits with at most one point among them, and an
/// exponent or none; or it names infinity or no number at all. A sign may stand in
/// front.
pub open spec fn is_decimal(s: Seq<char>) -> bool {
    let t = unsign(s);
    let m = mantissa_len(t);
    ||| is_word(t, seq!['i', 'n', 'f'])
    ||| is_word(t, seq!['i', 'n', 'f', 'i', 'n', 'i', 't', 'y'])
    ||| is_word(t, seq!['n', 'a', 'n'])
    ||| is_mantissa(t.take(m)) && (m == t.len() || is_exponent(t.skip(m)))
}

/// Compares a character with a small letter, whatever the character's case.
fn same_letter(c: char, letter: char) -> (r: bool)
    ensures
        r == is_letter(c, letter),
{
    c == letter || (c as u32) + 32 == letter as u32
}

/// Compares a text with a word in small letters, whatever the text's case.
fn same_word(s: &[char], word: &[char]) -> (r: bool)
    ensures
        r == is_word(s@, word@),
{
    if s.len() != word.len() {
        return false;
    }
    let n: usize = s.len();
    for i in 0..n
        invariant
            n == s@.len(),
            n == word@.len(),
            forall|j: int| 0 <= j < i ==> is_letter(#[trigger] s@[j], word@[j]),
    {
        if !same_letter(s[i], word[i]) {
            assert(!is_letter(s@[i as int], word@[i as int]));
            return false;
        }
    }
    true
}

/// Whether a text is made of digits, at least one.
fn digits_only(s: &[char]) -> (r: bool)
    ensures
        r == is_number(s@),
{
    let n: usize = s.len();
    for i in 0..n
        invariant
            n == s@.len(),
            forall|j: int| 0 <= j < i ==> is_digit(#[trigger] s@[j]),
    {
        if s[i] < '0' || s[i] > '9' {
            assert(!is_digit(s@[i as int]));
            return false;
        }
    }
    n > 0
}

/// Takes a sign off the front.
fn skip_sign(s: &[char]) -> (r: &[char])
    ensures
        r@ == unsign(s@),
{
    if s.len() > 0 && (s[0] == '+' || s[0] == '-') {
        assert(s@.skip(1) =~= s@.subrange(1, s@.len() as int));
        slice_subrange(s, 1, s.len())
    } else {
        s
    }
}

/// Whether a text writes a decimal fraction, as the standard library reads one.
pub fn decimal(s: &[char]) -> (r: bool)
    ensures
        r == is_decimal(s@),
{
    let t = skip_sign(s);
    if same_word(t, &['i', 'n', 'f']) || same_word(t, &['n', 'a', 'n']) || same_word(
        t,
        &['i', 'n', 'f', 'i', 'n', 'i', 't', 'y'],
    ) {
        return true;
    }
    let n: usize = t.len();
    let mut m: usize = 0;
    let mut digit_seen = false;
    let mut point_at: Option<usize> = None;
    let mut two_points = false;
    assert(t@.skip(0) =~= t@);
    while m < n && ((t[m] >= '0' && t[m] <= '9') || t[m] == '.')
        invariant
            n == t@.len(),
            m <= n,
            mantissa_len(t@) == m + mantissa_len(t@.skip(m as int)),
            digit_seen == exists|i: int| 0 <= i < m && is_digit(#[trigger] t@[i]),
            point_at matches Some(p) ==> p < m && t@[p as int] == '.',
            point_at is None ==> forall|i: int| 0 <= i < m ==> #[trigger] t@[i] != '.',
            two_points == exists|i: int, j: int|
                0 <= i < j < m && #[trigger] t@[i] == '.' && #[trigger] t@[j] == '.',
            !two_points ==> (point_at matches Some(p) ==> forall|i: int|
                0 <= i < m && i != p ==> #[trigger] t@[i] != '.'),
        decreases n - m,
    {
        assert(t@.skip(m as int).drop_first() =~= t@.skip(m + 1));
        if t[m] == '.' {
            assert(!is_digit(t@[m as int]));
            match point_at {
                Some(p) => {
                    assert(t@[p as int] == '.' && t@[m as int] == '.');
                    two_points = true;
                },
                None => {
                    point_at = Some(m);
                },
            }
        } else {
            assert(is_digit(t@[m as int]));
            digit_seen = true;
        }
        m = m + 1;
    }
    let ghost mantissa = t@.take(m as int);
    proof {
        assert(mantissa_len(t@) == m);
        if digit_seen {
            let i = choose|i: int| 0 <= i < m && is_digit(#[trigger] t@[i]);
            assert(is_digit(mantissa[i]));
        } else {
            assert forall|i: int| 0 <= i < mantissa.len() implies !is_digit(
                #[trigger] mantissa[i],
            ) by {
                assert(!is_digit(t@[i]));
            }
        }
        if two_points {
            let (i, j) = choose|i: int, j: int|
                0 <= i < j < m && #[trigger] t@[i] == '.' && #[trigger] t@[j] == '.';
            assert(mantissa[i] == '.' && mantissa[j] == '.');
        } else {
            assert forall|i: int, j: int| 0 <= i < j < mantissa.len() implies !(
            #[trigger] mantissa[i] == '.' && #[trigger] mantissa[j] == '.') by {
                assert(!(t@[i] == '.' && t@[j] == '.'));
            }
        }
        assert(is_mantissa(mantissa) == (digit_seen && !two_points));
    }
    if !digit_seen || two_points {
        return false;
    }
    if m == n {
        return true;
    }
    assert(t@.skip(m as int).skip(1) =~= t@.subrange(m + 1, n as int));
    (t[m] == 'e' || t[m] == 'E') && digits_only(skip_sign(slice_subrange(t, m + 1, n)))
}

/// The decimal digits of `n`.
pub open spec fn decimal_digits(n: nat) -> Seq<char>
    decreases n,
{
    if n < 10 {
        seq![(n + '0' as nat) as char]
    } else {
        decimal_digits(n / 10).push((n % 10 + '0' as nat) as char)
    }
}

/// Writes a number in decimal digits at the end of a text.
pub fn push_number(out: &mut String, n: u64)
    ensures
        final(out)@ == old(out)@ + decimal_digits(n as nat),
    decreases n,
{
    if n >= 10 {
        push_number(out, n / 10);
    }
    let digit: u8 = (n % 10) as u8 + 48u8;
    out.push(digit as char);
    assert(out@ =~= old(out)@ + decimal_digits(n as nat));
}

proof fn lemma_mantissa_chars(s: Seq<char>)
    ensures
        0 <= mantissa_len(s) <= s.len(),
        forall|i: int|
            0 <= i < mantissa_len(s) ==> is_digit(#[trigger] s[i]) || s[i] == '.',
    decreases s.len(),
{
    if s.len() > 0 && (is_digit(s[0]) || s[0] == '.') {
        let rest = s.drop_first();
        lemma_mantissa_chars(rest);
        assert forall|i: int| 0 <= i < mantissa_len(s) implies is_digit(#[trigger] s[i]) || s[i]
            == '.' by {
            if i > 0 {
                assert(s[i] == rest[i - 1]);
            }
        }
    }
}

/// Whether `c` can stand in what writes a decimal fraction.
pub open spec fn is_decimal_char(c: char) -> bool {
    is_digit(c) || c == '.' || c == '+' || c == '-' || 'a' <= c <= 'z' || 'A' <= c <= 'Z'
}

/// There is no white space in what writes a decimal fraction.
pub proof fn lemma_decimal_has_no_white(s: Seq<char>)
    requires
        is_decimal(s),
    ensures
        s.len() > 0,
        forall|i: int| 0 <= i < s.len() ==> !is_white(#[trigger] s[i]),
{
    lemma_decimal_chars(s);
    assert forall|i: int| 0 <= i < s.len() implies !is_white(#[trigger] s[i]) by {
        assert(is_decimal_char(s[i]));
    }
}

/// There is no comma in what writes a decimal fraction.
pub proof fn lemma_decimal_has_no_comma(s: Seq<char>)
    requires
        is_decimal(s),
    ensures
        forall|i: int| 0 <= i < s.len() ==> #[trigger] s[i] != ',',
{
    lemma_decimal_chars(s);
    assert forall|i: int| 0 <= i < s.len() implies #[trigger] s[i] != ',' by {
        assert(is_decimal_char(s[i]));
    }
}

/// What writes a decimal fraction is made of digits, letters, points and signs.
proof fn lemma_decimal_chars(s: Seq<char>)
    requires
        is_decimal(s),
    ensures
        s.len() > 0,
        forall|i: int| 0 <= i < s.len() ==> is_decimal_char(#[trigger] s[i]),
{
    let t = unsign(s);
    let m = mantissa_len(t);
    lemma_mantissa_chars(t);
    let inf = seq!['i', 'n', 'f'];
    let infinity = seq!['i', 'n', 'f', 'i', 'n', 'i', 't', 'y'];
    let nan = seq!['n', 'a', 'n'];
    assert forall|i: int| 0 <= i < t.len() implies is_decimal_char(#[trigger] t[i]) by {
        if is_word(t, inf) {
            assert(is_letter(t[i], inf[i]));
        } else if is_word(t, infinity) {
            assert(is_letter(t[i], infinity[i]));
        } else if is_word(t, nan) {
            assert(is_letter(t[i], nan[i]));
        } else if i < m {
            assert(is_digit(t[i]) || t[i] == '.');
        } else {
            let x = t.skip(m);
            let digits = unsign(x.skip(1));
            assert(t[i] == x[i - m]);
            if i > m {
                if digits.len() == x.skip(1).len() {
                    assert(digits[i - m - 1] == t[i]);
                } else if i > m + 1 {
                    assert(digits[i - m - 2] == t[i]);
                } else {
                    assert(x.skip(1)[0] == t[i]);
                }
            }
        }
    }
    assert forall|i: int| 0 <= i < s.len() implies is_decimal_char(#[trigger] s[i]) by {
        if t.len() < s.len() {
            if i > 0 {
                assert(s[i] == t[i - 1]);
            }
        }
    }
}

/// The digits of a number read back as the number.
pub proof fn number_reads_back(n: nat)
    ensures
        is_number(decimal_digits(n)),
        number_value(decimal_digits(n)) == n,
        decimal_digits(n)[0] != '+',
        decimal_digits(n)[0] != '-',
    decreases n,
{
    if n < 10 {
        let s = decimal_digits(n);
        assert(s.drop_last() =~= Seq::<char>::empty());
        assert(number_value(s.drop_last()) == 0);
    } else {
        number_reads_back(n / 10);
        let s = decimal_digits(n);
        assert(s.drop_last() =~= decimal_digits(n / 10));
    }
}

/// Every character of `s` is white space.
pub open spec fn all_white(s: Seq<char>) -> bool {
    forall|i: int| 0 <= i < s.len() ==> is_white(#[trigger] s[i])
}

/// White space at the start does not count.
pub proof fn lemma_white_start(a: Seq<char>, s: Seq<char>)
    requires
        all_white(a),
    ensures
        trim_start(a + s) == trim_start(s),
    decreases a.len(),
{
    if a.len() == 0 {
        assert(a + s =~= s);
    } else {
        let rest = a.drop_first();
        assert(is_white(a[0]));
        assert forall|i: int| 0 <= i < rest.len() implies is_white(#[trigger] rest[i]) by {
            assert(is_white(a[i + 1]));
        }
        assert((a + s)[0] == a[0]);
        assert((a + s).drop_first() =~= rest + s);
        lemma_white_start(rest, s);
    }
}

proof fn lemma_white_end(s: Seq<char>, b: Seq<char>)
    requires
        all_white(b),
    ensures
        trim_end(s + b) == trim_end(s),
    decreases b.len(),
{
    if b.len() == 0 {
        assert(s + b =~= s);
    } else {
        let rest = b.drop_last();
        assert(is_white(b[b.len() - 1]));
        assert forall|i: int| 0 <= i < rest.len() implies is_white(#[trigger] rest[i]) by {
            assert(is_white(b[i]));
        }
        assert((s + b).last() == b.last());
        assert((s + b).drop_last() =~= s + rest);
        lemma_white_end(s, rest);
    }
}

/// White space in front of a text and behind it is cut off, all of it, and nothing else is:
/// what is left is the text, if that is empty or starts and ends in something else.
pub proof fn white_space_is_cut_off(a: Seq<char>, s: Seq<char>, b: Seq<char>)
    requires
        all_white(a),
        all_white(b),
        s.len() > 0 ==> !is_white(s[0]) && !is_white(s.last()),
    ensures
        trimmed(a + s + b) == s,
{
    if s.len() == 0 {
        let e = Seq::<char>::empty();
        assert(s =~= e);
        assert(a + s + b =~= (a + b) + e);
        assert forall|i: int| 0 <= i < (a + b).len() implies is_white(#[trigger] (a + b)[i]) by {
            if i < a.len() {
                assert(is_white(a[i]));
            } else {
                assert(is_white(b[i - a.len()]));
            }
        }
        lemma_white_start(a + b, e);
    } else {
        assert(a + s + b =~= a + (s + b));
        lemma_white_start(a, s + b);
        assert((s + b)[0] == s[0]);
        assert(trim_start(s + b) == s + b);
        lemma_white_end(s, b);
    }
}

/// Spaces of every width, tabs and the ends of lines are white space; no printed character of
/// ASCII is.
pub proof fn printed_characters_are_not_white(c: char)
    ensures
        c == ' ' || c == '\t' || c == '\n' || c == '\r' ==> is_white(c),
        '\u{2000}' <= c <= '\u{200A}' || c == '\u{A0}' || c == '\u{202F}' || c == '\u{205F}' || c
            == '\u{3000}' || c == '\u{1680}' ==> is_white(c),
        '\u{0A}' <= c <= '\u{0C}' || c == '\u{85}' || c == '\u{2028}' || c == '\u{2029}' ==> is_white(
            c,
        ),
        '!' <= c <= '~' ==> !is_white(c),
{
}

/// The pieces with `sep` between each two of them.
pub open spec fn joined(parts: Seq<Seq<char>>, sep: char) -> Seq<char>
    decreases parts.len(),
{
    if parts.len() == 0 {
        Seq::empty()
    } else if parts.len() == 1 {
        parts[0]
    } else {
        joined(parts.drop_last(), sep).push(sep) + parts.last()
    }
}

/// Cutting a text loses nothing and leaves no separator: there is always a piece, no piece
/// holds the separator, and the pieces with the separator between them are the text.
pub proof fn pieces_make_up_the_text(s: Seq<char>, sep: char)
    ensures
        pieces(s, sep).len() > 0,
        joined(pieces(s, sep), sep) == s,
        forall|k: int, i: int|
            0 <= k < pieces(s, sep).len() && 0 <= i < pieces(s, sep)[k].len() ==> #[trigger] pieces(
                s,
                sep,
            )[k][i] != sep,
    decreases s.len(),
{
    if s.len() == 0 {
        assert(joined(pieces(s, sep), sep) =~= s);
    } else {
        let before = pieces(s.drop_last(), sep);
        let all = pieces(s, sep);
        pieces_make_up_the_text(s.drop_last(), sep);
        if s.last() == sep {
            assert(all.drop_last() =~= before);
            assert(joined(all, sep) =~= s);
        } else {
            assert(all.drop_last() =~= before.drop_last());
            if all.len() == 1 {
                assert(before[0] == before.last());
                assert(joined(all, sep) =~= s);
            } else {
                assert(joined(all, sep) =~= joined(before, sep).push(s.last()));
                assert(joined(all, sep) =~= s);
            }
        }
        assert forall|k: int, i: int|
            0 <= k < all.len() && 0 <= i < all[k].len() implies #[trigger] all[k][i] != sep by {
            if s.last() == sep {
                if k < before.len() {
                    assert(all[k] == before[k]);
                    assert(before[k][i] != sep);
                }
            } else if k < before.len() - 1 {
                assert(all[k] == before[k]);
                assert(before[k][i] != sep);
            } else {
                assert(all[k] == before[k].push(s.last()));
                if i < before[k].len() {
                    assert(before[k][i] != sep);
                }
            }
        }
    }
}

/// A text is cut once, at the first separator: what stands before it holds none, and what
/// stands after it is kept whole.
pub proof fn text_is_cut_at_the_first(a: Seq<char>, b: Seq<char>, sep: char)
    requires
        forall|i: int| 0 <= i < a.len() ==> #[trigger] a[i] != sep,
    ensures
        cut(a.push(sep) + b, sep) == Some((a, b)),
        cut(a, sep) is None,
{
    let t = a.push(sep) + b;
    let n = a.len() as int;
    assert(t[n] == sep);
    t.index_of_first_ensures(sep);
    a.index_of_first_ensures(sep);
    let at = t.index_of_first(sep).unwrap();
    if at < n {
        assert(t[at] == a[at]);
    }
    assert(t.take(n) =~= a);
    assert(t.skip(n + 1) =~= b);
}

/// A text that is put between two others is found there.
pub proof fn enclosed_text_is_found(a: Seq<char>, needle: Seq<char>, b: Seq<char>)
    ensures
        occurs(a + needle + b, needle),
{
    let hay = a + needle + b;
    assert(hay.subrange(a.len() as int, (a.len() + needle.len()) as int) =~= needle);
    assert(occurs_at(hay, needle, a.len() as int));
}

/// A text that is found stands between two others.
pub proof fn found_text_is_enclosed(hay: Seq<char>, needle: Seq<char>)
    requires
        occurs(hay, needle),
    ensures
        exists|a: Seq<char>, b: Seq<char>| hay == #[trigger] (a + needle + b),
{
    let at = choose|at: int| occurs_at(hay, needle, at);
    let a = hay.take(at);
    let b = hay.skip(at + needle.len());
    assert forall|i: int| 0 <= i < needle.len() implies hay[at + i] == needle[i] by {
        assert(hay.subrange(at, at + needle.len())[i] == needle[i]);
    }
    assert(hay =~= a + needle + b);
}

/// Numbers are read with or without a plus sign, up to the largest allowed and no further;
/// with a minus sign they are read as negative, down to the smallest of 32 bits.
pub proof fn signs_are_read(n: nat, max: int)
    ensures
        unsigned_value(decimal_digits(n), max) == if n <= max {
            Some(n as int)
        } else {
            None
        },
        unsigned_value(seq!['+'] + decimal_digits(n), max) == unsigned_value(
            decimal_digits(n),
            max,
        ),
        unsigned_value(seq!['-'] + decimal_digits(n), max) is None,
        signed_value(decimal_digits(n)) == if n < 0x8000_0000 {
            Some(n as int)
        } else {
            None
        },
        signed_value(seq!['+'] + decimal_digits(n)) == signed_value(decimal_digits(n)),
        signed_value(seq!['-'] + decimal_digits(n)) == if n <= 0x8000_0000 {
            Some(-n as int)
        } else {
            None
        },
{
    number_reads_back(n);
    let d = decimal_digits(n);
    let plus = seq!['+'] + d;
    let minus = seq!['-'] + d;
    assert(plus.skip(1) =~= d);
    assert(minus.skip(1) =~= d);
    assert(!is_digit(minus[0]));
}

/// What holds anything but digits after its sign, or nothing at all, is no number.
pub proof fn only_digits_are_numbers(s: Seq<char>, max: int)
    ensures
        unsigned_value(s, max) is Some ==> s.len() > 0 && forall|i: int|
            0 <= i < s.len() ==> is_digit(#[trigger] s[i]) || (i == 0 && s[i] == '+' && s.len() > 1),
        signed_value(s) is Some ==> s.len() > 0 && forall|i: int|
            0 <= i < s.len() ==> is_digit(#[trigger] s[i]) || (i == 0 && (s[i] == '+' || s[i] == '-')
                && s.len() > 1),
        forall|c: char| is_digit(c) <==> '0' <= c <= '9',
{
    let t = s.skip(1);
    if s.len() > 0 {
        assert forall|i: int| 1 <= i < s.len() && is_number(t) implies is_digit(#[trigger] s[i]) by {
            assert(t[i - 1] == s[i]);
        }
    }
}

proof fn lemma_mantissa_of(a: Seq<char>, b: Seq<char>)
    requires
        forall|i: int| 0 <= i < a.len() ==> is_digit(#[trigger] a[i]) || a[i] == '.',
        b.len() == 0 || !(is_digit(b[0]) || b[0] == '.'),
    ensures
        mantissa_len(a + b) == a.len(),
    decreases a.len(),
{
    if a.len() == 0 {
        assert(a + b =~= b);
    } else {
        let rest = a.drop_first();
        assert(is_digit(a[0]) || a[0] == '.');
        assert forall|i: int| 0 <= i < rest.len() implies is_digit(#[trigger] rest[i]) || rest[i]
            == '.' by {
            assert(is_digit(a[i + 1]) || a[i + 1] == '.');
        }
        assert((a + b)[0] == a[0]);
        assert((a + b).drop_first() =~= rest + b);
        lemma_mantissa_of(rest, b);
    }
}

/// Whole numbers are decimal fractions, with a point and further digits behind them, with a
/// point alone, with an exponent of either sign in either case, and with a sign in front of
/// it all. Two points make none.
pub proof fn decimals_are_read(whole: Seq<char>, part: Seq<char>, power: Seq<char>)
    requires
        is_number(whole),
        is_number(part),
        is_number(power),
    ensures
        is_decimal(whole),
        is_decimal(whole.push('.')),
        is_decimal(seq!['.'] + part),
        is_decimal(whole.push('.') + part),
        is_decimal(seq!['-'] + (whole.push('.') + part)),
        is_decimal(seq!['+'] + (whole.push('.') + part)),
        is_decimal(whole + (seq!['e'] + power)),
        is_decimal(whole + (seq!['E'] + power)),
        is_decimal(whole + (seq!['e', '-'] + power)),
        is_decimal(whole + (seq!['e', '+'] + power)),
        !is_decimal(whole.push('.') + part.push('.')),
        !is_decimal(whole.push('e')),
        !is_decimal(seq!['.']),
        !is_decimal(Seq::<char>::empty()),
{
    let e = Seq::<char>::empty();
    assert(is_digit(whole[0]) && is_digit(part[0]) && is_digit(power[0]));
    lemma_plain(whole);
    let f = whole.push('.');
    assert(f[0] == whole[0]);
    assert forall|i: int| 0 <= i < f.len() implies is_digit(#[trigger] f[i]) || f[i] == '.' by {
        if i < whole.len() {
            assert(is_digit(whole[i]));
        }
    }
    assert forall|i: int, j: int| 0 <= i < j < f.len() implies !(#[trigger] f[i] == '.'
        && #[trigger] f[j] == '.') by {
        assert(is_digit(whole[i]));
    }
    lemma_plain(f);
    let q = seq!['.'] + part;
    assert(q[1] == part[0]);
    assert forall|i: int| 0 <= i < q.len() implies is_digit(#[trigger] q[i]) || q[i] == '.' by {
        if i > 0 {
            assert(is_digit(part[i - 1]));
        }
    }
    assert forall|i: int, j: int| 0 <= i < j < q.len() implies !(#[trigger] q[i] == '.'
        && #[trigger] q[j] == '.') by {
        assert(is_digit(part[j - 1]));
    }
    assert(is_digit(q[1]));
    lemma_plain(q);
    let d = f + part;
    assert(d[0] == whole[0]);
    assert forall|i: int| 0 <= i < d.len() implies is_digit(#[trigger] d[i]) || d[i] == '.' by {
        if i < whole.len() {
            assert(is_digit(whole[i]));
        } else if i > whole.len() {
            assert(is_digit(part[i - f.len()]));
        }
    }
    assert forall|i: int, j: int| 0 <= i < j < d.len() implies !(#[trigger] d[i] == '.'
        && #[trigger] d[j] == '.') by {
        if i < whole.len() {
            assert(is_digit(whole[i]));
        } else {
            assert(is_digit(part[j - f.len()]));
        }
    }
    lemma_plain(d);
    assert((seq!['-'] + d).skip(1) =~= d);
    assert((seq!['+'] + d).skip(1) =~= d);
    assert(unsign(d) == d);
    lemma_power(whole, seq!['e'], power);
    lemma_power(whole, seq!['E'], power);
    lemma_power(whole, seq!['e', '-'], power);
    lemma_power(whole, seq!['e', '+'], power);
    let two = f + part.push('.');
    assert(two[0] == whole[0]);
    assert forall|i: int| 0 <= i < two.len() implies is_digit(#[trigger] two[i]) || two[i] == '.' by {
        if i < d.len() {
            assert(two[i] == d[i]);
        }
    }
    lemma_mantissa_of(two, e);
    assert(two + e =~= two);
    assert(two[whole.len() as int] == '.' && two[two.len() - 1] == '.');
    assert(two.take(two.len() as int) =~= two);
    assert(!is_decimal(two));
    let open = whole.push('e');
    let tail = seq!['e'];
    assert(open =~= whole + tail);
    assert forall|i: int| 0 <= i < whole.len() implies is_digit(#[trigger] whole[i]) || whole[i]
        == '.' by {}
    lemma_mantissa_of(whole, tail);
    assert(open[0] == whole[0]);
    assert(open.skip(whole.len() as int) =~= tail);
    assert(tail.skip(1) =~= e);
    assert(!is_decimal(open));
    let point = seq!['.'];
    assert(point + e =~= point);
    lemma_mantissa_of(point, e);
    assert(point.take(1) =~= point);
    assert(!is_decimal(point));
    assert(e.take(0) =~= e);
    assert(!is_decimal(e));
}

/// A mantissa that starts in no sign is a decimal fraction.
proof fn lemma_plain(s: Seq<char>)
    requires
        forall|i: int| 0 <= i < s.len() ==> is_digit(#[trigger] s[i]) || s[i] == '.',
        is_mantissa(s),
    ensures
        is_decimal(s),
{
    let e = Seq::<char>::empty();
    assert(is_digit(s[0]) || s[0] == '.');
    lemma_mantissa_of(s, e);
    assert(s + e =~= s);
    assert(s.take(s.len() as int) =~= s);
}

proof fn lemma_power(whole: Seq<char>, mark: Seq<char>, power: Seq<char>)
    requires
        is_number(whole),
        is_number(power),
        mark == seq!['e'] || mark == seq!['E'] || mark == seq!['e', '-'] || mark == seq!['e', '+'],
    ensures
        is_decimal(whole + (mark + power)),
{
    let x = mark + power;
    let t = whole + x;
    assert(is_digit(whole[0]) && is_digit(power[0]));
    assert(t[0] == whole[0]);
    assert(x[0] == mark[0]);
    assert forall|i: int| 0 <= i < whole.len() implies is_digit(#[trigger] whole[i]) || whole[i]
        == '.' by {}
    lemma_mantissa_of(whole, x);
    assert(t.take(whole.len() as int) =~= whole);
    assert(t.skip(whole.len() as int) =~= x);
    assert forall|i: int, j: int| 0 <= i < j < whole.len() implies !(#[trigger] whole[i] == '.'
        && #[trigger] whole[j] == '.') by {
        assert(is_digit(whole[i]));
    }
    if mark.len() == 1 {
        assert(x.skip(1) =~= power);
    } else {
        assert(x.skip(1).skip(1) =~= power);
        assert(x.skip(1)[0] == mark[1]);
    }
    assert(is_number(unsign(x.skip(1))));
}

/// What is left after the end is trimmed starts as before, unless nothing but white space was
/// there.
pub proof fn lemma_trim_end_keeps(s: Seq<char>)
    requires
        s.len() > 0,
        !is_white(s[0]),
    ensures
        trim_end(s).len() > 0,
        trim_end(s)[0] == s[0],
    decreases s.len(),
{
    if is_white(s.last()) {
        lemma_trim_end_keeps(s.drop_last());
    }
}

/// Trimming adds nothing.
pub proof fn lemma_trimmed_is_part(s: Seq<char>)
    ensures
        forall|i: int| 0 <= i < trimmed(s).len() ==> s.contains(#[trigger] trimmed(s)[i]),
{
    lemma_start_is_part(s);
    lemma_end_is_part(trim_start(s));
    let t = trim_start(s);
    assert forall|i: int| 0 <= i < trimmed(s).len() implies s.contains(#[trigger] trimmed(s)[i]) by {
        assert(t.contains(trim_end(t)[i]));
        let j = choose|j: int| 0 <= j < t.len() && t[j] == trim_end(t)[i];
        assert(s.contains(t[j]));
    }
}

proof fn lemma_start_is_part(s: Seq<char>)
    ensures
        forall|i: int| 0 <= i < trim_start(s).len() ==> s.contains(#[trigger] trim_start(s)[i]),
    decreases s.len(),
{
    if s.len() > 0 && is_white(s[0]) {
        let rest = s.drop_first();
        lemma_start_is_part(rest);
        assert forall|i: int| 0 <= i < trim_start(s).len() implies s.contains(
            #[trigger] trim_start(s)[i],
        ) by {
            assert(rest.contains(trim_start(rest)[i]));
            let j = choose|j: int| 0 <= j < rest.len() && rest[j] == trim_start(rest)[i];
            assert(s[j + 1] == rest[j]);
        }
    }
}

proof fn lemma_end_is_part(s: Seq<char>)
    ensures
        forall|i: int| 0 <= i < trim_end(s).len() ==> s.contains(#[trigger] trim_end(s)[i]),
    decreases s.len(),
{
    if s.len() > 0 && is_white(s.last()) {
        let rest = s.drop_last();
        lemma_end_is_part(rest);
        assert forall|i: int| 0 <= i < trim_end(s).len() implies s.contains(
            #[trigger] trim_end(s)[i],
        ) by {
            assert(rest.contains(trim_end(rest)[i]));
            let j = choose|j: int| 0 <= j < rest.len() && rest[j] == trim_end(rest)[i];
            assert(s[j] == rest[j]);
        }
    }
}

/// A number that is read lies between zero and the largest allowed.
pub proof fn lemma_value_in_range(s: Seq<char>, max: int)
    ensures
        unsigned_value(s, max) matches Some(n) ==> 0 <= n <= max,
{
    let t = if s.len() > 0 && s[0] == '+' {
        s.skip(1)
    } else {
        s
    };
    if is_number(t) {
        lemma_number_nonnegative(t, t.len() as int);
        assert(t.take(t.len() as int) =~= t);
    }
}

/// Cutting two texts with a separator between them cuts each by itself.
pub proof fn texts_are_cut_apart(a: Seq<char>, b: Seq<char>, sep: char)
    ensures
        pieces(a.push(sep) + b, sep) == pieces(a, sep) + pieces(b, sep),
    decreases b.len(),
{
    lemma_pieces_nonempty(b, sep);
    let first = pieces(a, sep);
    if b.len() == 0 {
        assert(a.push(sep) + b =~= a.push(sep));
        assert(a.push(sep).drop_last() =~= a);
        assert(first.push(Seq::empty()) =~= first + pieces(b, sep));
    } else {
        let fewer = b.drop_last();
        let all = a.push(sep) + b;
        lemma_pieces_nonempty(fewer, sep);
        texts_are_cut_apart(a, fewer, sep);
        assert(all.drop_last() =~= a.push(sep) + fewer);
        assert(all.last() == b.last());
        let rest = pieces(fewer, sep);
        if b.last() == sep {
            assert((first + rest).push(Seq::empty()) =~= first + rest.push(Seq::empty()));
        } else {
            assert((first + rest).last() == rest.last());
            assert((first + rest).drop_last().push(rest.last().push(b.last())) =~= first
                + rest.drop_last().push(rest.last().push(b.last())));
        }
    }
}

} // verus!
