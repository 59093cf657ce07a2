//! Text as sequences of characters: splitting, trimming, decimal numbers.

use vstd::prelude::*;

verus! {

broadcast use vstd::string::group_string_axioms;

/// `String::push`: appends one character to the end of the string.
pub assume_specification[ String::push ](s: &mut String, c: char)
    ensures
        final(s)@ == old(s)@.push(c),
;

/// The characters of a string.
pub fn to_chars(s: &str) -> (r: Vec<char>)
    ensures
        r@ == s@,
{
    let mut r: Vec<char> = Vec::new();
    for c in it: s.chars()
        invariant
            it.seq() == s@,
            r@ == s@.take(it.index() as int),
    {
        r.push(c);
    }
    r
}

/// The string made of the given characters.
pub fn from_chars(v: &Vec<char>) -> (r: String)
    ensures
        r@ == v@,
{
    let mut r = String::new();
    for i in 0..v.len()
        invariant
            r@ == v@.take(i as int),
    {
        r.push(v[i]);
    }
    r
}

/// The views of a sequence of strings.
pub open spec fn strings_view(v: Seq<String>) -> Seq<Seq<char>> {
    v.map_values(|s: String| s@)
}

/// The view of an optional string.
pub open spec fn option_view(o: Option<String>) -> Option<Seq<char>> {
    match o {
        Some(s) => Some(s@),
        None => None,
    }
}

/// A copy of a list of strings.
pub fn clone_strings(v: &Vec<String>) -> (r: Vec<String>)
    ensures
        strings_view(r@) == strings_view(v@),
{
    let mut r: Vec<String> = Vec::new();
    for i in 0..v.len()
        invariant
            r@.len() == i,
            forall|j: int| 0 <= j < i ==> (#[trigger] r@[j])@ == v@[j]@,
    {
        r.push(v[i].clone());
    }
    assert(strings_view(r@) =~= strings_view(v@));
    r
}

/// A copy of an optional string.
pub fn clone_option(o: &Option<String>) -> (r: Option<String>)
    ensures
        option_view(r) == option_view(*o),
{
    match o {
        Some(s) => Some(s.clone()),
        None => None,
    }
}

/// Whether two lists hold the same strings in the same order.
pub fn same_strings(a: &Vec<String>, b: &Vec<String>) -> (r: bool)
    ensures
        r == (strings_view(a@) == strings_view(b@)),
{
    if a.len() != b.len() {
        assert(strings_view(a@).len() != strings_view(b@).len());
        return false;
    }
    for i in 0..a.len()
        invariant
            a@.len() == b@.len(),
            forall|j: int| 0 <= j < i ==> (#[trigger] a@[j])@ == b@[j]@,
    {
        if a[i] != b[i] {
            assert(strings_view(a@)[i as int] != strings_view(b@)[i as int]);
            return false;
        }
    }
    assert(strings_view(a@) =~= strings_view(b@));
    true
}

/// Whether two optional strings are both absent or hold the same text.
pub fn same_option(a: &Option<String>, b: &Option<String>) -> (r: bool)
    ensures
        r == (option_view(*a) == option_view(*b)),
{
    match (a, b) {
        (Some(x), Some(y)) => *x == *y,
        (None, None) => true,
        _ => false,
    }
}

/// Whether `s` begins with `prefix`.
pub open spec fn starts_with(s: Seq<char>, prefix: Seq<char>) -> bool {
    prefix.is_prefix_of(s)
}

/// Whether `s` begins with `prefix`.
pub fn has_prefix(s: &Vec<char>, prefix: &str) -> (r: bool)
    ensures
        r == starts_with(s@, prefix@),
{
    let p = to_chars(prefix);
    if p.len() > s.len() {
        return false;
    }
    for i in 0..p.len()
        invariant
            p@ == prefix@,
            p@.len() <= s@.len(),
            forall|j: int| 0 <= j < i ==> p@[j] == s@[j],
    {
        if p[i] != s[i] {
            assert(s@.subrange(0, p@.len() as int)[i as int] == s@[i as int]);
            return false;
        }
    }
    assert(p@ =~= s@.subrange(0, p@.len() as int));
    true
}

/// The pieces of `s` between occurrences of `sep`; always at least one.
pub open spec fn split(s: Seq<char>, sep: char) -> Seq<Seq<char>>
    decreases s.len(),
{
    if s.len() == 0 {
        seq![Seq::<char>::empty()]
    } else {
        let before = split(s.drop_last(), sep);
        if s.last() == sep {
            before.push(Seq::<char>::empty())
        } else {
            before.drop_last().push(before.last().push(s.last()))
        }
    }
}

/// A split has at least one piece.
pub proof fn lemma_split_nonempty(s: Seq<char>, sep: char)
    ensures
        split(s, sep).len() >= 1,
    decreases s.len(),
{
    if s.len() > 0 {
        lemma_split_nonempty(s.drop_last(), sep);
    }
}

/// Splitting two texts with a separator between them gives the pieces of both.
pub proof fn law_split_joined(a: Seq<char>, b: Seq<char>, sep: char)
    ensures
        split(a.push(sep) + b, sep) == split(a, sep) + split(b, sep),
    decreases b.len(),
{
    let s = a.push(sep) + b;
    lemma_split_nonempty(b, sep);
    if b.len() == 0 {
        assert(s =~= a.push(sep));
        assert(s.drop_last() =~= a);
        assert(split(s, sep) =~= split(a, sep) + split(b, sep));
    } else {
        law_split_joined(a, b.drop_last(), sep);
        lemma_split_nonempty(b.drop_last(), sep);
        assert(s.drop_last() =~= a.push(sep) + b.drop_last());
        assert(s.last() == b.last());
        assert(split(s, sep) =~= split(a, sep) + split(b, sep));
    }
}

/// A text without the separator is one piece.
pub proof fn law_split_whole(s: Seq<char>, sep: char)
    requires
        !s.contains(sep),
    ensures
        split(s, sep) == seq![s],
    decreases s.len(),
{
    if s.len() == 0 {
        assert(s =~= Seq::<char>::empty());
    } else {
        assert(s.last() != sep) by {
            assert(s[s.len() - 1] == s.last());
        }
        assert(!s.drop_last().contains(sep)) by {
            if s.drop_last().contains(sep) {
                let i = choose|i: int| 0 <= i < s.drop_last().len() && s.drop_last()[i] == sep;
                assert(s[i] == sep);
            }
        }
        law_split_whole(s.drop_last(), sep);
        assert(s.drop_last().push(s.last()) =~= s);
        assert(split(s, sep) =~= seq![s]);
    }
}

/// The views of a list of character lists.
pub open spec fn chars_view(v: Seq<Vec<char>>) -> Seq<Seq<char>> {
    v.map_values(|c: Vec<char>| c@)
}

/// Splits at every occurrence of `sep`.
pub fn split_chars(s: &Vec<char>, sep: char) -> (r: Vec<Vec<char>>)
    ensures
        chars_view(r@) == split(s@, sep),
{
    let mut done: Vec<Vec<char>> = Vec::new();
    let mut current: Vec<char> = Vec::new();
    assert(chars_view(done@).push(current@) =~= split(s@.take(0), sep));
    for i in 0..s.len()
        invariant
            chars_view(done@).push(current@) == split(s@.take(i as int), sep),
    {
        let ghost before = split(s@.take(i as int), sep);
        proof {
            assert(s@.take(i + 1).drop_last() =~= s@.take(i as int));
            assert(s@.take(i + 1).last() == s@[i as int]);
            assert(before.drop_last() =~= chars_view(done@));
            assert(before.last() == current@);
        }
        if s[i] == sep {
            let ghost old_done = done@;
            let ghost old_current = current;
            done.push(current);
            current = Vec::new();
            proof {
                assert(chars_view(done@) =~= chars_view(old_done).push(old_current@));
                assert(current@ =~= Seq::<char>::empty());
            }
        } else {
            current.push(s[i]);
        }
    }
    assert(s@.take(s@.len() as int) =~= s@);
    let ghost last = current@;
    let ghost old_done = done@;
    done.push(current);
    assert(chars_view(done@) =~= chars_view(old_done).push(last));
    done
}

/// The line without a carriage return at its end.
pub open spec fn strip_cr(s: Seq<char>) -> Seq<char> {
    if s.len() > 0 && s.last() == '\r' {
        s.drop_last()
    } else {
        s
    }
}

/// The lines of a text: each ends at a line feed, with or without a carriage return
/// before it, and the last may lack the line feed.
pub open spec fn lines(s: Seq<char>) -> Seq<Seq<char>> {
    let pieces = split(s, '\n');
    let ended = pieces.drop_last().map_values(|p: Seq<char>| strip_cr(p));
    if pieces.last().len() > 0 {
        ended.push(pieces.last())
    } else {
        ended
    }
}

/// The lines of a text.
pub fn split_lines(s: &Vec<char>) -> (r: Vec<Vec<char>>)
    ensures
        chars_view(r@) == lines(s@),
{
    let mut pieces = split_chars(s, '\n');
    proof {
        lemma_split_nonempty(s@, '\n');
        assert(chars_view(pieces@).len() == pieces@.len());
    }
    let ghost all = chars_view(pieces@);
    let last_piece = pieces.pop();
    let mut r: Vec<Vec<char>> = Vec::new();
    for i in 0..pieces.len()
        invariant
            all.len() == pieces@.len() + 1,
            forall|j: int| 0 <= j < pieces@.len() ==> (#[trigger] pieces@[j])@ == all[j],
            r@.len() == i,
            forall|j: int| 0 <= j < i ==> (#[trigger] r@[j])@ == strip_cr(all[j]),
    {
        let mut line = clone_chars(&pieces[i], 0, pieces[i].len());
        assert(line@ =~= all[i as int]);
        let n: usize = line.len();
        if n > 0 && line[n - 1] == '\r' {
            line.pop();
            assert(line@ =~= all[i as int].drop_last());
        }
        r.push(line);
    }
    if let Some(last) = last_piece {
        if last.len() > 0 {
            r.push(last);
        }
    }
    assert(chars_view(r@) =~= lines(s@));
    r
}

/// The lines of a text up to a line feed and of the text behind it are those of the whole.
pub proof fn law_lines_joined(a: Seq<char>, b: Seq<char>)
    ensures
        lines(a.push('\n') + b) == lines(a.push('\n')) + lines(b),
{
    let empty = Seq::<char>::empty();
    law_split_joined(a, b, '\n');
    law_split_joined(a, empty, '\n');
    assert(a.push('\n') + empty =~= a.push('\n'));
    lemma_split_nonempty(a, '\n');
    lemma_split_nonempty(b, '\n');
    let (x, y) = (split(a, '\n'), split(b, '\n'));
    assert((x + y).drop_last() =~= x + y.drop_last());
    assert((x + seq![empty]).drop_last() =~= x);
    assert(lines(a.push('\n') + b) =~= lines(a.push('\n')) + lines(b));
}

/// A line feed at the end changes nothing where the last line lacks it, but for a carriage
/// return before it.
pub proof fn law_last_line_may_lack_line_feed(s: Seq<char>)
    requires
        s.len() > 0,
        s.last() != '\n',
        s.last() != '\r',
    ensures
        lines(s.push('\n')) == lines(s),
{
    let empty = Seq::<char>::empty();
    law_split_joined(s, empty, '\n');
    assert(s.push('\n') + empty =~= s.push('\n'));
    lemma_split_nonempty(s, '\n');
    let pieces = split(s, '\n');
    assert(pieces.last().last() == s.last());
    assert((pieces + seq![empty]).drop_last() =~= pieces);
    assert(lines(s.push('\n')) =~= lines(s));
}

/// A line holds no line feed.
pub proof fn law_lines_hold_no_line_feed(s: Seq<char>, i: int)
    requires
        0 <= i < lines(s).len(),
    ensures
        !lines(s)[i].contains('\n'),
{
    lemma_split_nonempty(s, '\n');
    lemma_pieces_hold_no_separator(s, '\n', i);
    let piece = split(s, '\n')[i];
    let line = lines(s)[i];
    if line.contains('\n') {
        let j = choose|j: int| 0 <= j < line.len() && line[j] == '\n';
        assert(piece[j] == '\n');
    }
}

/// A piece of a split holds no separator.
proof fn lemma_pieces_hold_no_separator(s: Seq<char>, sep: char, i: int)
    requires
        0 <= i < split(s, sep).len(),
    ensures
        !split(s, sep)[i].contains(sep),
    decreases s.len(),
{
    if s.len() > 0 {
        let before = split(s.drop_last(), sep);
        lemma_split_nonempty(s.drop_last(), sep);
        if i < before.len() {
            lemma_pieces_hold_no_separator(s.drop_last(), sep, i);
            let piece = split(s, sep)[i];
            if piece.contains(sep) {
                let j = choose|j: int| 0 <= j < piece.len() && piece[j] == sep;
                assert(before[i][j] == sep);
            }
        }
    }
}

/// The characters from `from` up to `to`.
pub fn clone_chars(v: &Vec<char>, from: usize, to: usize) -> (r: Vec<char>)
    requires
        from <= to <= v@.len(),
    ensures
        r@ == v@.subrange(from as int, to as int),
{
    let mut r: Vec<char> = Vec::new();
    for i in from..to
        invariant
            from <= to <= v@.len(),
            r@ == v@.subrange(from as int, i as int),
    {
        r.push(v[i]);
        assert(v@.subrange(from as int, i + 1) =~= v@.subrange(from as int, i as int).push(
            v@[i as int],
        ));
    }
    r
}

/// Whether `pattern` stands in `s` at position `i`.
pub open spec fn occurs_at(s: Seq<char>, pattern: Seq<char>, i: int) -> bool {
    0 <= i && i + pattern.len() <= s.len() && s.subrange(i, i + pattern.len()) == pattern
}

/// Whether `i` is the first position at which `pattern` stands in `s`.
pub open spec fn first_at(s: Seq<char>, pattern: Seq<char>, i: int) -> bool {
    occurs_at(s, pattern, i) && forall|j: int| 0 <= j < i ==> !occurs_at(s, pattern, j)
}

/// Whether `pattern` stands anywhere in `s`.
pub open spec fn contains(s: Seq<char>, pattern: Seq<char>) -> bool {
    exists|i: int| occurs_at(s, pattern, i)
}

/// The first position of `pattern` in `s` at or after `from`, if there is one.
pub fn find(s: &Vec<char>, pattern: &str, from: usize) -> (r: Option<usize>)
    requires
        from <= s@.len(),
    ensures
        match r {
            Some(i) => from <= i && occurs_at(s@, pattern@, i as int) && forall|j: int|
                from <= j < i ==> !occurs_at(s@, pattern@, j),
            None => forall|j: int| from <= j ==> !occurs_at(s@, pattern@, j),
        },
{
    let p = to_chars(pattern);
    let n: usize = s.len();
    let mut i: usize = from;
    while p.len() <= n - i
        invariant
            p@ == pattern@,
            n == s@.len(),
            from <= i <= n,
            forall|j: int| from <= j < i ==> !occurs_at(s@, pattern@, j),
        decreases n - i,
    {
        let mut k: usize = 0;
        while k < p.len() && s[i + k] == p[k]
            invariant
                p@ == pattern@,
                n == s@.len(),
                i + p@.len() <= n,
                k <= p@.len(),
                forall|m: int| 0 <= m < k ==> s@[i + m] == p@[m],
            decreases p@.len() - k,
        {
            k = k + 1;
        }
        if k == p.len() {
            assert(s@.subrange(i as int, i + p@.len()) =~= p@);
            return Some(i);
        }
        assert(!occurs_at(s@, pattern@, i as int)) by {
            assert(s@.subrange(i as int, i + p@.len())[k as int] == s@[i + k]);
        }
        i = i + 1;
    }
    None
}

/// Whether a character has the Unicode property `White_Space`.
pub open spec fn is_white_space(c: char) -> bool {
    let n = c as u32;
    ||| 0x09 <= n <= 0x0D
    ||| n == 0x20
    ||| n == 0x85
    ||| n == 0xA0
    ||| n == 0x1680
    ||| 0x2000 <= n <= 0x200A
    ||| n == 0x2028
    ||| n == 0x2029
    ||| n == 0x202F
    ||| n == 0x205F
    ||| n == 0x3000
}

/// Whether a character has the Unicode property `White_Space`.
pub fn white_space(c: char) -> (r: bool)
    ensures
        r == is_white_space(c),
{
    let n: u32 = c as u32;
    (0x09 <= n && n <= 0x0D) || n == 0x20 || n == 0x85 || n == 0xA0 || n == 0x1680 || (0x2000 <= n
        && n <= 0x200A) || n == 0x2028 || n == 0x2029 || n == 0x202F || n == 0x205F || n == 0x3000
}

/// The text without white space at its beginning.
pub open spec fn trim_start(s: Seq<char>) -> Seq<char>
    decreases s.len(),
{
    if s.len() > 0 && is_white_space(s.first()) {
        trim_start(s.drop_first())
    } else {
        s
    }
}

/// The text without white space at its end.
pub open spec fn trim_end(s: Seq<char>) -> Seq<char>
    decreases s.len(),
{
    if s.len() > 0 && is_white_space(s.last()) {
        trim_end(s.drop_last())
    } else {
        s
    }
}

/// The text without white space at either end.
pub open spec fn trim(s: Seq<char>) -> Seq<char> {
    trim_end(trim_start(s))
}

/// The text without white space at either end.
pub fn trimmed(s: &Vec<char>) -> (r: Vec<char>)
    ensures
        r@ == trim(s@),
{
    let mut from: usize = 0;
    assert(s@.subrange(0, s@.len() as int) =~= s@);
    while from < s.len() && white_space(s[from])
        invariant
            from <= s@.len(),
            trim_start(s@.subrange(from as int, s@.len() as int)) == trim_start(s@),
        decreases s@.len() - from,
    {
        assert(s@.subrange(from as int, s@.len() as int).drop_first() =~= s@.subrange(
            from + 1,
            s@.len() as int,
        ));
        from = from + 1;
    }
    let mut to: usize = s.len();
    while from < to && white_space(s[to - 1])
        invariant
            from <= to <= s@.len(),
            trim_end(s@.subrange(from as int, to as int)) == trim(s@),
        decreases to,
    {
        assert(s@.subrange(from as int, to as int).drop_last() =~= s@.subrange(
            from as int,
            to - 1,
        ));
        to = to - 1;
    }
    clone_chars(s, from, to)
}

/// Whether a character is one of the ten ASCII digits.
pub open spec fn is_digit(c: char) -> bool {
    '0' <= c <= '9'
}

/// Whether a text is made of one or more ASCII digits.
pub open spec fn all_digits(s: Seq<char>) -> bool {
    s.len() > 0 && forall|i: int| 0 <= i < s.len() ==> is_digit(#[trigger] s[i])
}

/// The number that a text of digits denotes in base ten.
pub open spec fn digits_value(s: Seq<char>) -> nat
    decreases s.len(),
{
    if s.len() == 0 {
        0
    } else {
        digits_value(s.drop_last()) * 10 + (s.last() as nat - '0' as nat) as nat
    }
}

/// The unsigned number that a text denotes: digits, with or without a plus sign before
/// them, whose value fits in 64 bits.
pub open spec fn parsed_u64(s: Seq<char>) -> Option<u64> {
    let digits = if s.len() > 0 && s[0] == '+' {
        s.drop_first()
    } else {
        s
    };
    if all_digits(digits) && digits_value(digits) <= u64::MAX {
        Some(digits_value(digits) as u64)
    } else {
        None
    }
}

/// The signed number that a text denotes: digits, with or without a sign before them,
/// whose value fits in 64 bits.
pub open spec fn parsed_i64(s: Seq<char>) -> Option<i64> {
    let negative = s.len() > 0 && s[0] == '-';
    let digits = if negative || (s.len() > 0 && s[0] == '+') {
        s.drop_first()
    } else {
        s
    };
    let value: int = if negative {
        -digits_value(digits)
    } else {
        digits_value(digits) as int
    };
    if all_digits(digits) && i64::MIN <= value <= i64::MAX {
        Some(value as i64)
    } else {
        None
    }
}

/// A prefix of digits denotes no more than the whole.
proof fn lemma_digits_value_monotonic(s: Seq<char>, n: int)
    requires
        0 <= n <= s.len(),
    ensures
        digits_value(s.take(n)) <= digits_value(s),
    decreases s.len() - n,
{
    if n < s.len() {
        lemma_digits_value_monotonic(s.drop_last(), n);
        assert(s.drop_last().take(n) =~= s.take(n));
    } else {
        assert(s.take(n) =~= s);
    }
}

/// The value of the digits from `from` on, unless something else stands there or the
/// value exceeds 64 bits.
fn parse_digits(s: &Vec<char>, from: usize) -> (r: Option<u64>)
    requires
        from <= s@.len(),
    ensures
        ({
            let digits = s@.skip(from as int);
            r == (if all_digits(digits) && digits_value(digits) <= u64::MAX {
                Some(digits_value(digits) as u64)
            } else {
                None::<u64>
            })
        }),
{
    let ghost digits = s@.skip(from as int);
    if from == s.len() {
        return None;
    }
    let mut value: u64 = 0;
    let mut i: usize = from;
    while i < s.len()
        invariant
            from <= i <= s@.len(),
            digits == s@.skip(from as int),
            value == digits_value(digits.take(i - from)),
            forall|j: int| 0 <= j < i - from ==> is_digit(#[trigger] digits[j]),
        decreases s@.len() - i,
    {
        let c = s[i];
        assert(c == digits[i - from]);
        if !('0' <= c && c <= '9') {
            return None;
        }
        let d: u64 = c as u64 - '0' as u64;
        let ghost next = digits.take(i - from + 1);
        proof {
            assert(next.drop_last() =~= digits.take(i - from));
            assert(digits_value(next) == value * 10 + d);
            lemma_digits_value_monotonic(digits, i - from + 1);
        }
        if value > (u64::MAX - d) / 10 {
            return None;
        }
        value = value * 10 + d;
        i = i + 1;
    }
    assert(digits.take(i - from) =~= digits);
    Some(value)
}

/// Reads an unsigned number.
pub fn parse_u64(s: &Vec<char>) -> (r: Option<u64>)
    ensures
        r == parsed_u64(s@),
{
    if s.len() > 0 && s[0] == '+' {
        assert(s@.skip(1) =~= s@.drop_first());
        parse_digits(s, 1)
    } else {
        assert(s@.skip(0) =~= s@);
        parse_digits(s, 0)
    }
}

/// Reads a signed number.
pub fn parse_i64(s: &Vec<char>) -> (r: Option<i64>)
    ensures
        r == parsed_i64(s@),
{
    let negative = s.len() > 0 && s[0] == '-';
    let from: usize = if negative || (s.len() > 0 && s[0] == '+') {
        1
    } else {
        0
    };
    proof {
        if from == 1 {
            assert(s@.skip(1) =~= s@.drop_first());
        } else {
            assert(s@.skip(0) =~= s@);
        }
    }
    match parse_digits(s, from) {
        Some(value) => if negative {
            if value <= 9223372036854775807 {
                Some(-(value as i64))
            } else if value == 9223372036854775808 {
                Some(i64::MIN)
            } else {
                None
            }
        } else if value <= 9223372036854775807 {
            Some(value as i64)
        } else {
            None
        },
        None => None,
    }
}

/// The character of a digit.
pub open spec fn digit_char(d: nat) -> char {
    ('0' as nat + d) as char
}

/// The shortest text that denotes a number in base ten.
pub open spec fn decimal(n: nat) -> Seq<char>
    decreases n,
{
    if n < 10 {
        seq![digit_char(n)]
    } else {
        decimal(n / 10).push(digit_char(n % 10))
    }
}

/// The decimal text of a number, with zeros before it up to `width` characters.
pub open spec fn zero_padded(n: nat, width: nat) -> Seq<char> {
    let digits = decimal(n);
    let missing = if digits.len() < width {
        (width - digits.len()) as nat
    } else {
        0
    };
    Seq::new(missing, |i: int| '0') + digits
}

/// The decimal text of a number.
pub fn decimal_chars(n: u64) -> (r: Vec<char>)
    ensures
        r@ == decimal(n as nat),
    decreases n,
{
    let mut r: Vec<char> = Vec::new();
    if n >= 10 {
        r = decimal_chars(n / 10);
    }
    let d: u8 = (n % 10) as u8;
    r.push((48 + d) as char);
    assert(r@ =~= decimal(n as nat));
    r
}

/// The decimal text of a number.
pub fn decimal_string(n: u64) -> (r: String)
    ensures
        r@ == decimal(n as nat),
{
    let chars = decimal_chars(n);
    from_chars(&chars)
}

/// The decimal text of a number, with zeros before it up to `width` characters.
pub fn zero_padded_string(n: u64, width: usize) -> (r: String)
    ensures
        r@ == zero_padded(n as nat, width as nat),
{
    let digits = decimal_chars(n);
    let mut r = String::new();
    let missing: usize = if digits.len() < width {
        width - digits.len()
    } else {
        0
    };
    for i in 0..missing
        invariant
            r@ == Seq::new(i as nat, |j: int| '0'),
    {
        r.push('0');
        assert(r@ =~= Seq::new((i + 1) as nat, |j: int| '0'));
    }
    let ghost zeros = r@;
    for i in 0..digits.len()
        invariant
            r@ == zeros + digits@.take(i as int),
    {
        r.push(digits[i]);
        assert(zeros + digits@.take(i + 1) =~= (zeros + digits@.take(i as int)).push(
            digits@[i as int],
        ));
    }
    assert(digits@.take(digits@.len() as int) =~= digits@);
    r
}

/// Reading the decimal text of a number gives the number back.
pub proof fn law_decimal_round_trip(n: nat)
    ensures
        all_digits(decimal(n)),
        digits_value(decimal(n)) == n,
    decreases n,
{
    reveal_with_fuel(digits_value, 2);
    if n >= 10 {
        law_decimal_round_trip(n / 10);
        assert(decimal(n).drop_last() =~= decimal(n / 10));
    } else {
        assert(decimal(n).drop_last() =~= Seq::<char>::empty());
    }
}

/// Zeros before a number do not change what it denotes.
pub proof fn law_zero_padded_round_trip(n: nat, width: nat)
    ensures
        all_digits(zero_padded(n, width)),
        digits_value(zero_padded(n, width)) == n,
{
    law_decimal_round_trip(n);
    let digits = decimal(n);
    let missing = if digits.len() < width {
        (width - digits.len()) as nat
    } else {
        0
    };
    lemma_leading_zeros(missing, digits);
    assert forall|i: int| 0 <= i < zero_padded(n, width).len() implies is_digit(
        #[trigger] zero_padded(n, width)[i],
    ) by {
        if i >= missing {
            assert(is_digit(digits[i - missing]));
        }
    }
}

/// Zeros before a text of digits add nothing to its value.
proof fn lemma_leading_zeros(k: nat, s: Seq<char>)
    ensures
        digits_value(Seq::new(k, |i: int| '0') + s) == digits_value(s),
    decreases k, s.len(),
{
    let zeros = Seq::new(k, |i: int| '0');
    if s.len() > 0 {
        assert((zeros + s).drop_last() =~= zeros + s.drop_last());
        lemma_leading_zeros(k, s.drop_last());
    } else if k > 0 {
        let fewer = Seq::new((k - 1) as nat, |i: int| '0');
        assert((zeros + s).drop_last() =~= fewer + s);
        lemma_leading_zeros((k - 1) as nat, s);
    } else {
        assert(zeros + s =~= s);
    }
}

/// Whether two texts agree up to a position at which the first has the lower character, or
/// ends.
pub open spec fn lower_from(a: Seq<char>, b: Seq<char>, i: int) -> bool {
    &&& 0 <= i <= a.len()
    &&& i < b.len()
    &&& forall|j: int| 0 <= j < i ==> #[trigger] a[j] == b[j]
    &&& i == a.len() || a[i] < b[i]
}

/// Whether the first text sorts before the second, character by character.
pub open spec fn sorts_before(a: Seq<char>, b: Seq<char>) -> bool {
    exists|i: int| #[trigger] lower_from(a, b, i)
}

/// Of two texts at most one sorts before the other, and none does if they are equal.
pub proof fn law_order_is_strict(a: Seq<char>, b: Seq<char>)
    ensures
        !(sorts_before(a, b) && sorts_before(b, a)),
        sorts_before(a, b) ==> a != b,
{
    if sorts_before(a, b) {
        let i = choose|i: int| #[trigger] lower_from(a, b, i);
        if sorts_before(b, a) {
            let k = choose|k: int| #[trigger] lower_from(b, a, k);
            if i < k {
                assert(b[i] == a[i]);
            }
            if k < i {
                assert(a[k] == b[k]);
            }
        }
    }
}

/// Texts that sort one before the other do so behind the same beginning.
pub proof fn lemma_sorts_behind(start: Seq<char>, a: Seq<char>, b: Seq<char>)
    requires
        sorts_before(a, b),
    ensures
        sorts_before(start + a, start + b),
{
    let i = choose|i: int| #[trigger] lower_from(a, b, i);
    assert forall|j: int| 0 <= j < start.len() + i implies #[trigger] (start + a)[j] == (start
        + b)[j] by {
        if j >= start.len() {
            assert(a[j - start.len()] == b[j - start.len()]);
        }
    }
    assert(lower_from(start + a, start + b, start.len() + i));
}

/// Texts of one length that sort one before the other do so whatever follows them.
pub proof fn lemma_sorts_followed(a: Seq<char>, b: Seq<char>, x: Seq<char>, y: Seq<char>)
    requires
        a.len() == b.len(),
        sorts_before(a, b),
    ensures
        sorts_before(a + x, b + y),
{
    let i = choose|i: int| #[trigger] lower_from(a, b, i);
    assert(lower_from(a + x, b + y, i));
}

/// Digits sort as their values do.
proof fn lemma_digits_sort(m: nat, n: nat)
    requires
        m < n < 10,
    ensures
        sorts_before(seq![digit_char(m)], seq![digit_char(n)]),
{
    assert(lower_from(seq![digit_char(m)], seq![digit_char(n)], 0));
}

/// Numbers below a hundred have two digits, with a zero before them where needed.
pub proof fn lemma_two_digits(n: nat)
    requires
        n < 100,
    ensures
        zero_padded(n, 2) == seq![digit_char(n / 10)] + seq![digit_char(n % 10)],
        zero_padded(n, 2).len() == 2,
{
    reveal_with_fuel(decimal, 2);
    assert(zero_padded(n, 2) =~= seq![digit_char(n / 10)] + seq![digit_char(n % 10)]);
}

/// Numbers below a thousand have three digits, with zeros before them where needed.
pub proof fn lemma_three_digits(n: nat)
    requires
        n < 1000,
    ensures
        zero_padded(n, 3) == zero_padded(n / 10, 2) + seq![digit_char(n % 10)],
        zero_padded(n, 3).len() == 3,
{
    reveal_with_fuel(decimal, 3);
    lemma_two_digits(n / 10);
    assert(zero_padded(n, 3) =~= zero_padded(n / 10, 2) + seq![digit_char(n % 10)]);
}

/// Numbers of two digits sort as their values do.
pub proof fn lemma_two_digits_sort(m: nat, n: nat)
    requires
        m < n < 100,
    ensures
        sorts_before(zero_padded(m, 2), zero_padded(n, 2)),
{
    lemma_two_digits(m);
    lemma_two_digits(n);
    let (a, b) = (seq![digit_char(m / 10)], seq![digit_char(n / 10)]);
    let (x, y) = (seq![digit_char(m % 10)], seq![digit_char(n % 10)]);
    if m / 10 < n / 10 {
        lemma_digits_sort(m / 10, n / 10);
        lemma_sorts_followed(a, b, x, y);
    } else {
        lemma_digits_sort(m % 10, n % 10);
        lemma_sorts_behind(a, x, y);
    }
}

/// Numbers of three digits sort as their values do.
pub proof fn lemma_three_digits_sort(m: nat, n: nat)
    requires
        m < n < 1000,
    ensures
        sorts_before(zero_padded(m, 3), zero_padded(n, 3)),
{
    lemma_three_digits(m);
    lemma_three_digits(n);
    lemma_two_digits(m / 10);
    lemma_two_digits(n / 10);
    let (a, b) = (zero_padded(m / 10, 2), zero_padded(n / 10, 2));
    let (x, y) = (seq![digit_char(m % 10)], seq![digit_char(n % 10)]);
    if m / 10 < n / 10 {
        lemma_two_digits_sort(m / 10, n / 10);
        lemma_sorts_followed(a, b, x, y);
    } else {
        lemma_digits_sort(m % 10, n % 10);
        lemma_sorts_behind(a, x, y);
    }
}

/// What is trimmed once is trimmed for good.
pub proof fn law_trim_idempotent(s: Seq<char>)
    ensures
        trim(trim(s)) == trim(s),
        trim(s).len() > 0 ==> !is_white_space(trim(s).first()) && !is_white_space(trim(s).last()),
{
    lemma_trim_start_first(s);
    lemma_trim_end_last(trim_start(s));
}

/// What is left after trimming the beginning does not begin with white space.
proof fn lemma_trim_start_first(s: Seq<char>)
    ensures
        trim_start(s).len() > 0 ==> !is_white_space(trim_start(s).first()),
    decreases s.len(),
{
    if s.len() > 0 && is_white_space(s.first()) {
        lemma_trim_start_first(s.drop_first());
    }
}

/// What is left after trimming the end does not end with white space, and keeps its
/// beginning.
proof fn lemma_trim_end_last(s: Seq<char>)
    ensures
        trim_end(s).len() > 0 ==> !is_white_space(trim_end(s).last()),
        trim_end(s).len() > 0 ==> s.len() > 0 && trim_end(s).first() == s.first(),
    decreases s.len(),
{
    if s.len() > 0 && is_white_space(s.last()) {
        lemma_trim_end_last(s.drop_last());
    }
}

/// The views of a list of strings are the texts of its strings, one for one.
pub proof fn law_views_of_strings(v: Seq<String>)
    ensures
        strings_view(v).len() == v.len(),
        forall|i: int| 0 <= i < v.len() ==> #[trigger] strings_view(v)[i] == v[i]@,
{
}

/// A number that is written in base ten is read back, as an unsigned number and, with or
/// without a sign, as a signed one.
pub proof fn law_written_numbers_are_read(n: nat)
    ensures
        n <= u64::MAX ==> parsed_u64(decimal(n)) == Some(n as u64),
        n <= i64::MAX ==> parsed_i64(decimal(n)) == Some(n as i64),
        n <= i64::MAX ==> parsed_i64(seq!['-'] + decimal(n)) == Some((-n) as i64),
        n <= u64::MAX ==> parsed_u64(seq!['+'] + decimal(n)) == Some(n as u64),
        n <= u64::MAX ==> parsed_u64(seq!['-'] + decimal(n)) is None,
{
    law_decimal_round_trip(n);
    let digits = decimal(n);
    assert(is_digit(digits[0]));
    assert((seq!['-'] + digits).drop_first() =~= digits);
    assert((seq!['+'] + digits).drop_first() =~= digits);
    assert(!is_digit((seq!['-'] + digits)[0]));
}

/// White space around a text that has none at its ends is taken away, and nothing else.
pub proof fn law_trim_takes_white_space_only(before: Seq<char>, text: Seq<char>, behind: Seq<char>)
    requires
        forall|i: int| 0 <= i < before.len() ==> is_white_space(#[trigger] before[i]),
        forall|i: int| 0 <= i < behind.len() ==> is_white_space(#[trigger] behind[i]),
        text.len() > 0 ==> !is_white_space(text.first()) && !is_white_space(text.last()),
    ensures
        trim(before + text + behind) == text,
{
    lemma_trim_start_takes(before, text + behind);
    assert(before + (text + behind) =~= before + text + behind);
    if text.len() > 0 {
        assert((text + behind).first() == text.first());
    } else {
        assert(text + behind =~= behind);
        lemma_trim_start_takes(behind, Seq::empty());
        assert(behind + Seq::<char>::empty() =~= behind);
        assert(text =~= Seq::empty());
    }
    lemma_trim_end_takes(text, behind);
}

/// White space at the beginning is taken away.
proof fn lemma_trim_start_takes(before: Seq<char>, text: Seq<char>)
    requires
        forall|i: int| 0 <= i < before.len() ==> is_white_space(#[trigger] before[i]),
    ensures
        trim_start(before + text) == trim_start(text),
    decreases before.len(),
{
    if before.len() == 0 {
        assert(before + text =~= text);
    } else {
        let rest = before.drop_first();
        assert((before + text).first() == before[0]);
        assert((before + text).drop_first() =~= rest + text);
        assert forall|i: int| 0 <= i < rest.len() implies is_white_space(#[trigger] rest[i]) by {
            assert(rest[i] == before[i + 1]);
        }
        lemma_trim_start_takes(rest, text);
    }
}

/// White space at the end is taken away.
proof fn lemma_trim_end_takes(text: Seq<char>, behind: Seq<char>)
    requires
        forall|i: int| 0 <= i < behind.len() ==> is_white_space(#[trigger] behind[i]),
    ensures
        trim_end(text + behind) == trim_end(text),
    decreases behind.len(),
{
    if behind.len() == 0 {
        assert(text + behind =~= text);
    } else {
        let rest = behind.drop_last();
        assert((text + behind).last() == behind[behind.len() - 1]);
        assert((text + behind).drop_last() =~= text + rest);
        lemma_trim_end_takes(text, rest);
    }
}

/// A text begins with another exactly where it is that text with something behind it.
pub proof fn law_beginnings(s: Seq<char>, prefix: Seq<char>, rest: Seq<char>)
    ensures
        starts_with(prefix + rest, prefix),
        starts_with(s, prefix) ==> s == prefix + s.skip(prefix.len() as int),
        starts_with(s, prefix) <==> prefix.len() <= s.len() && forall|i: int|
            0 <= i < prefix.len() ==> #[trigger] s[i] == prefix[i],
{
    let n = prefix.len() as int;
    assert((prefix + rest).subrange(0, n) =~= prefix);
    if starts_with(s, prefix) {
        assert(prefix == s.subrange(0, n));
        assert(s =~= prefix + s.skip(n));
        assert forall|i: int| 0 <= i < n implies #[trigger] s[i] == prefix[i] by {
            assert(s.subrange(0, n)[i] == s[i]);
        }
    }
    if n <= s.len() && forall|i: int| 0 <= i < n ==> #[trigger] s[i] == prefix[i] {
        assert(s.subrange(0, n) =~= prefix);
    }
}

/// A text holds another exactly where it is that text with something before and behind it,
/// and first where nothing shorter stands before it.
pub proof fn law_occurrences(a: Seq<char>, pattern: Seq<char>, b: Seq<char>, s: Seq<char>, i: int)
    ensures
        occurs_at(a + pattern + b, pattern, a.len() as int),
        contains(a + pattern + b, pattern),
        occurs_at(s, pattern, i) ==> s == s.take(i) + pattern + s.skip(i + pattern.len()),
        first_at(s, pattern, i) ==> occurs_at(s, pattern, i) && forall|j: int|
            #[trigger] occurs_at(s, pattern, j) ==> i <= j,
{
    let whole = a + pattern + b;
    let n = a.len() as int;
    assert(whole.subrange(n, n + pattern.len()) =~= pattern);
    assert(occurs_at(whole, pattern, n));
    if occurs_at(s, pattern, i) {
        assert(s =~= s.take(i) + s.subrange(i, i + pattern.len()) + s.skip(i + pattern.len()));
    }
}

/// A line ends at a line feed, with or without a carriage return before it, or at the end of
/// the text, and an empty text has none.
pub proof fn law_ends_of_lines(line: Seq<char>)
    requires
        !line.contains('\n'),
    ensures
        lines(Seq::empty()).len() == 0,
        line.len() > 0 ==> lines(line) == seq![line],
        line.len() == 0 || line.last() != '\r' ==> lines(line.push('\n')) == seq![line],
        lines(line.push('\r').push('\n')) == seq![line],
{
    let empty = Seq::<char>::empty();
    let returned = line.push('\r');
    law_split_whole(line, '\n');
    law_split_whole(empty, '\n');
    assert(!returned.contains('\n')) by {
        if returned.contains('\n') {
            let i = choose|i: int| 0 <= i < returned.len() && returned[i] == '\n';
            assert(line[i] == '\n');
        }
    }
    law_split_whole(returned, '\n');
    law_split_joined(line, empty, '\n');
    law_split_joined(returned, empty, '\n');
    assert(line.push('\n') + empty =~= line.push('\n'));
    assert(returned.push('\n') + empty =~= returned.push('\n'));
    assert(split(line.push('\n'), '\n') =~= seq![line, empty]);
    assert(split(returned.push('\n'), '\n') =~= seq![returned, empty]);
    assert(returned.drop_last() =~= line);
    assert(lines(empty) =~= Seq::empty());
    if line.len() > 0 {
        assert(lines(line) =~= seq![line]);
    }
    if line.len() == 0 || line.last() != '\r' {
        assert(lines(line.push('\n')) =~= seq![line]);
    }
    assert(lines(returned.push('\n')) =~= seq![line]);
}

} // verus!
