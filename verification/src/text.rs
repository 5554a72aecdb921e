//! Character-level text handling used by the portal protocol: trimming,
//! splitting, decimal numbers and safe excerpts of server replies.
use vstd::prelude::*;
use vstd::string::StringExecFns;

verus! {

/// `char::is_whitespace`: the Unicode `White_Space` property.
pub open spec fn is_whitespace(c: char) -> bool {
    let v = c as u32;
    ||| 0x09 <= v <= 0x0d
    ||| v == 0x20
    ||| v == 0x85
    ||| v == 0xa0
    ||| v == 0x1680
    ||| 0x2000 <= v <= 0x200a
    ||| v == 0x2028
    ||| v == 0x2029
    ||| v == 0x202f
    ||| v == 0x205f
    ||| v == 0x3000
}

/// `char::is_control`: the Unicode general category `Cc`.
pub open spec fn is_control(c: char) -> bool {
    let v = c as u32;
    v <= 0x1f || (0x7f <= v <= 0x9f)
}

/// The text with leading whitespace removed.
pub open spec fn trim_start(s: Seq<char>) -> Seq<char>
    decreases s.len(),
{
    if s.len() > 0 && is_whitespace(s[0]) {
        trim_start(s.drop_first())
    } else {
        s
    }
}

/// The text with trailing whitespace removed.
pub open spec fn trim_end(s: Seq<char>) -> Seq<char>
    decreases s.len(),
{
    if s.len() > 0 && is_whitespace(s.last()) {
        trim_end(s.drop_last())
    } else {
        s
    }
}

/// `str::trim`: whitespace removed from both ends.
pub open spec fn trim(s: Seq<char>) -> Seq<char> {
    trim_end(trim_start(s))
}

pub fn is_whitespace_char(c: char) -> (r: bool)
    ensures
        r == is_whitespace(c),
{
    let v: u32 = c as u32;
    (0x09 <= v && v <= 0x0d) || v == 0x20 || v == 0x85 || v == 0xa0 || v == 0x1680 || (0x2000
        <= v && v <= 0x200a) || v == 0x2028 || v == 0x2029 || v == 0x202f || v == 0x205f || v
        == 0x3000
}

/// The bounds `(start, end)` of `s` with surrounding whitespace removed.
pub fn trim_bounds(s: &Vec<char>) -> (r: (usize, usize))
    ensures
        r.0 <= r.1 <= s@.len(),
        s@.subrange(r.0 as int, r.1 as int) == trim(s@),
{
    let n: usize = s.len();
    let mut i: usize = 0;
    assert(s@.subrange(0, n as int) =~= s@);
    while i < n && is_whitespace_char(s[i])
        invariant
            i <= n == s@.len(),
            trim_start(s@) == trim_start(s@.subrange(i as int, n as int)),
        decreases n - i,
    {
        assert(s@.subrange(i as int, n as int).drop_first() =~= s@.subrange(i + 1, n as int));
        i = i + 1;
    }
    assert(trim_start(s@.subrange(i as int, n as int)) == s@.subrange(i as int, n as int));
    let mut j: usize = n;
    while j > i && is_whitespace_char(s[j - 1])
        invariant
            i <= j <= n == s@.len(),
            trim(s@) == trim_end(s@.subrange(i as int, j as int)),
        decreases j,
    {
        assert(s@.subrange(i as int, j as int).drop_last() =~= s@.subrange(i as int, j - 1));
        j = j - 1;
    }
    (i, j)
}


/// `String::push`: appends one character at the end.
#[verifier::external_body]
pub(crate) fn push_char(s: &mut String, c: char)
    ensures
        final(s)@ == old(s)@.push(c),
{
    s.push(c)
}

/// The characters of `s`, in order.
pub fn chars_of(s: &str) -> (v: Vec<char>)
    ensures
        v@ == s@,
{
    let mut v: Vec<char> = Vec::new();
    for c in it: s.chars()
        invariant
            v@ == it.seq().take(it.index() as int),
    {
        v.push(c);
    }
    v
}

/// A `String` holding `chars[start..end]`.
pub fn string_of(chars: &Vec<char>, start: usize, end: usize) -> (r: String)
    requires
        start <= end <= chars@.len(),
    ensures
        r@ == chars@.subrange(start as int, end as int),
{
    let mut r = String::new();
    let mut i: usize = start;
    while i < end
        invariant
            start <= i <= end <= chars@.len(),
            r@ == chars@.subrange(start as int, i as int),
        decreases end - i,
    {
        push_char(&mut r, chars[i]);
        assert(r@ =~= chars@.subrange(start as int, i + 1));
        i = i + 1;
    }
    r
}


/// `str::split` on a single separator character: the pieces between
/// separators, in order; text without a separator is one piece.
pub open spec fn split_on(s: Seq<char>, sep: char) -> Seq<Seq<char>>
    decreases s.len(),
{
    if s.len() == 0 {
        seq![Seq::empty()]
    } else {
        let prev = split_on(s.drop_last(), sep);
        if s.last() == sep {
            prev.push(Seq::empty())
        } else {
            prev.update(prev.len() - 1, prev.last().push(s.last()))
        }
    }
}

/// The views of a sequence of character vectors.
pub open spec fn views_of(v: Seq<Vec<char>>) -> Seq<Seq<char>> {
    v.map_values(|x: Vec<char>| x@)
}

/// The pieces of `chars[start..end]` between occurrences of `sep`.
pub fn split_chars(chars: &Vec<char>, start: usize, end: usize, sep: char) -> (r: Vec<Vec<char>>)
    requires
        start <= end <= chars@.len(),
    ensures
        views_of(r@) == split_on(chars@.subrange(start as int, end as int), sep),
{
    let mut done: Vec<Vec<char>> = Vec::new();
    let mut cur: Vec<char> = Vec::new();
    let mut i: usize = start;
    assert(chars@.subrange(start as int, start as int) =~= Seq::<char>::empty());
    assert(views_of(done@).push(cur@) =~= seq![Seq::<char>::empty()]);
    while i < end
        invariant
            start <= i <= end <= chars@.len(),
            views_of(done@).push(cur@) == split_on(chars@.subrange(start as int, i as int), sep),
        decreases end - i,
    {
        let c = chars[i];
        let ghost prefix = chars@.subrange(start as int, i + 1);
        let ghost before = views_of(done@).push(cur@);
        assert(prefix.drop_last() =~= chars@.subrange(start as int, i as int));
        if c == sep {
            done.push(cur);
            cur = Vec::new();
        } else {
            cur.push(c);
        }
        assert(views_of(done@).push(cur@) =~= split_on(prefix, sep));
        i = i + 1;
    }
    done.push(cur);
    assert(views_of(done@) =~= split_on(chars@.subrange(start as int, end as int), sep));
    done
}


/// The character of the decimal digit `d`.
pub open spec fn digit_char(d: nat) -> char {
    (d + 48) as char
}

/// The decimal representation of `n`, as `u64::to_string` writes it.
pub open spec fn decimal(n: nat) -> Seq<char>
    decreases n,
{
    if n < 10 {
        seq![digit_char(n)]
    } else {
        decimal(n / 10).push(digit_char(n % 10))
    }
}

/// Appends the decimal representation of `n` to `s`.
pub fn push_decimal(s: &mut String, n: u64)
    ensures
        final(s)@ == old(s)@ + decimal(n as nat),
    decreases n,
{
    if n >= 10 {
        push_decimal(s, n / 10);
    }
    let d: u8 = (n % 10) as u8;
    let c: char = (48u8 + d) as char;
    push_char(s, c);
    assert(final(s)@ =~= old(s)@ + decimal(n as nat));
}

/// The decimal representation of `n`.
pub fn decimal_string(n: u64) -> (r: String)
    ensures
        r@ == decimal(n as nat),
{
    let mut r = String::new();
    push_decimal(&mut r, n);
    assert(r@ =~= decimal(n as nat));
    r
}

pub open spec fn is_digit(c: char) -> bool {
    48 <= (c as u32) <= 57
}

pub open spec fn all_digits(s: Seq<char>) -> bool {
    forall|i: int| 0 <= i < s.len() ==> is_digit(#[trigger] s[i])
}

/// The number that the decimal digits `s` spell.
pub open spec fn digits_value(s: Seq<char>) -> nat
    decreases s.len(),
{
    if s.len() == 0 {
        0
    } else {
        digits_value(s.drop_last()) * 10 + ((s.last() as u32) - 48) as nat
    }
}

/// The digits that an unsigned number's text holds after an optional `+`.
pub open spec fn unsigned_digits(s: Seq<char>) -> Seq<char> {
    if s.len() > 0 && s[0] == '+' {
        s.drop_first()
    } else {
        s
    }
}

/// `u64::from_str`: an optional `+`, then at least one decimal digit, and
/// a value that fits.
pub open spec fn parse_u64(s: Seq<char>) -> Option<u64> {
    let d = unsigned_digits(s);
    if d.len() > 0 && all_digits(d) && digits_value(d) <= u64::MAX {
        Some(digits_value(d) as u64)
    } else {
        None
    }
}

/// `i64::from_str`: an optional sign, then at least one decimal digit, and
/// a value that fits.
pub open spec fn parse_i64(s: Seq<char>) -> Option<i64> {
    if s.len() > 0 && s[0] == '-' {
        let d = s.drop_first();
        if d.len() > 0 && all_digits(d) && digits_value(d) <= 0x8000_0000_0000_0000 {
            Some((0 - digits_value(d)) as i64)
        } else {
            None
        }
    } else {
        let d = unsigned_digits(s);
        if d.len() > 0 && all_digits(d) && digits_value(d) <= i64::MAX {
            Some(digits_value(d) as i64)
        } else {
            None
        }
    }
}

proof fn lemma_digits_value_prefix(s: Seq<char>, k: int)
    requires
        0 <= k <= s.len(),
        all_digits(s),
    ensures
        digits_value(s.take(k)) <= digits_value(s),
    decreases s.len(),
{
    if k < s.len() {
        let t = s.drop_last();
        assert(t.take(k) =~= s.take(k));
        assert(all_digits(t)) by {
            assert forall|i: int| 0 <= i < t.len() implies is_digit(#[trigger] t[i]) by {
                assert(t[i] == s[i]);
            }
        }
        lemma_digits_value_prefix(t, k);
    } else {
        assert(s.take(k) =~= s);
    }
}

/// The value of the decimal digits `chars[start..end]`, or `None` when a
/// character is not a digit or the value does not fit in a `u64`.
fn digits_to_u64(chars: &Vec<char>, start: usize, end: usize) -> (r: Option<u64>)
    requires
        start <= end <= chars@.len(),
    ensures
        ({
            let d = chars@.subrange(start as int, end as int);
            r == (if all_digits(d) && digits_value(d) <= u64::MAX {
                Some(digits_value(d) as u64)
            } else {
                None::<u64>
            })
        }),
{
    let ghost d = chars@.subrange(start as int, end as int);
    let mut acc: u64 = 0;
    let mut i: usize = start;
    assert(d.take(0) =~= Seq::<char>::empty());
    while i < end
        invariant
            start <= i <= end <= chars@.len(),
            d == chars@.subrange(start as int, end as int),
            all_digits(d.take(i - start)),
            acc as nat == digits_value(d.take(i - start)),
        decreases end - i,
    {
        let c = chars[i];
        let ghost next = d.take(i - start + 1);
        assert(next.drop_last() =~= d.take(i - start));
        assert(next.last() == c);
        let v: u32 = c as u32;
        if v < 48 || v > 57 {
            assert(!is_digit(d[i - start]));
            return None;
        }
        let digit: u64 = (v - 48) as u64;
        match acc.checked_mul(10) {
            None => {
                proof {
                    if all_digits(d) {
                        lemma_digits_value_prefix(d, i - start + 1);
                    }
                }
                return None;
            },
            Some(m) => match m.checked_add(digit) {
                None => {
                    proof {
                        if all_digits(d) {
                            lemma_digits_value_prefix(d, i - start + 1);
                        }
                    }
                    return None;
                },
                Some(a) => {
                    acc = a;
                },
            },
        }
        assert(all_digits(next)) by {
            assert forall|j: int| 0 <= j < next.len() implies is_digit(#[trigger] next[j]) by {
                if j < next.len() - 1 {
                    assert(next[j] == d.take(i - start)[j]);
                }
            }
        }
        i = i + 1;
    }
    assert(d.take(end - start) =~= d);
    Some(acc)
}

/// `u64::from_str` on `chars[start..end]`.
pub fn parse_u64_chars(chars: &Vec<char>, start: usize, end: usize) -> (r: Option<u64>)
    requires
        start <= end <= chars@.len(),
    ensures
        r == parse_u64(chars@.subrange(start as int, end as int)),
{
    let ghost s = chars@.subrange(start as int, end as int);
    let mut from: usize = start;
    if start < end && chars[start] == '+' {
        from = start + 1;
        assert(s.drop_first() =~= chars@.subrange(from as int, end as int));
    } else {
        assert(s =~= chars@.subrange(from as int, end as int));
    }
    if from == end {
        return None;
    }
    digits_to_u64(chars, from, end)
}

/// `i64::from_str` on `chars[start..end]`.
pub fn parse_i64_chars(chars: &Vec<char>, start: usize, end: usize) -> (r: Option<i64>)
    requires
        start <= end <= chars@.len(),
    ensures
        r == parse_i64(chars@.subrange(start as int, end as int)),
{
    let ghost s = chars@.subrange(start as int, end as int);
    if start < end && chars[start] == '-' {
        assert(s.drop_first() =~= chars@.subrange(start + 1, end as int));
        if start + 1 == end {
            return None;
        }
        match digits_to_u64(chars, start + 1, end) {
            None => None,
            Some(m) => {
                if m <= 0x8000_0000_0000_0000 {
                    if m == 0x8000_0000_0000_0000 {
                        Some(i64::MIN)
                    } else {
                        let p: i64 = m as i64;
                        Some(-p)
                    }
                } else {
                    None
                }
            },
        }
    } else {
        let mut from: usize = start;
        if start < end && chars[start] == '+' {
            from = start + 1;
            assert(s.drop_first() =~= chars@.subrange(from as int, end as int));
        } else {
            assert(s =~= chars@.subrange(from as int, end as int));
        }
        if from == end {
            return None;
        }
        match digits_to_u64(chars, from, end) {
            None => None,
            Some(m) => {
                if m <= 0x7fff_ffff_ffff_ffff {
                    Some(m as i64)
                } else {
                    None
                }
            },
        }
    }
}


/// What follows the first occurrence of `c` in `s` (`str::split_once`),
/// or `None` when `c` does not occur.
pub open spec fn after_first(s: Seq<char>, c: char) -> Option<Seq<char>>
    decreases s.len(),
{
    if s.len() == 0 {
        None
    } else if s[0] == c {
        Some(s.drop_first())
    } else {
        after_first(s.drop_first(), c)
    }
}

/// The index just past the first `c` in `chars[start..end]`, if any.
pub fn find_after(chars: &Vec<char>, start: usize, end: usize, c: char) -> (r: Option<usize>)
    requires
        start <= end <= chars@.len(),
    ensures
        ({
            let s = chars@.subrange(start as int, end as int);
            &&& r is None <==> after_first(s, c) is None
            &&& r matches Some(k) ==> k <= end && after_first(s, c) == Some(
                chars@.subrange(k as int, end as int),
            )
        }),
{
    let mut i: usize = start;
    while i < end
        invariant
            start <= i <= end <= chars@.len(),
            after_first(chars@.subrange(start as int, end as int), c) == after_first(
                chars@.subrange(i as int, end as int),
                c,
            ),
        decreases end - i,
    {
        assert(chars@.subrange(i as int, end as int).drop_first() =~= chars@.subrange(
            i + 1,
            end as int,
        ));
        if chars[i] == c {
            return Some(i + 1);
        }
        i = i + 1;
    }
    None
}

/// Whether `s` begins with the two characters `a` and `b`.
pub open spec fn starts_with_pair(s: Seq<char>, a: char, b: char) -> bool {
    s.len() >= 2 && s[0] == a && s[1] == b
}

/// The message shown when the server sends no details.
pub open spec fn no_details_message() -> Seq<char> {
    "服务器未返回错误详情"@
}

/// At most the first 200 characters of the trimmed text, control characters
/// replaced by spaces; a fixed message when nothing is left.
pub open spec fn excerpt(s: Seq<char>) -> Seq<char> {
    let t = trim(s);
    let k = if t.len() <= 200 { t } else { t.take(200) };
    if k.len() == 0 {
        no_details_message()
    } else {
        k.map_values(|c: char| if is_control(c) { ' ' } else { c })
    }
}

/// A short, printable excerpt of a server reply.
pub fn safe_excerpt(body: &str) -> (r: String)
    ensures
        r@ == excerpt(body@),
{
    let chars = chars_of(body);
    assert(chars@.subrange(0, chars@.len() as int) =~= chars@);
    safe_excerpt_chars(&chars, 0, chars.len())
}

/// `safe_excerpt` on `chars[start..end]`.
pub fn safe_excerpt_chars(chars: &Vec<char>, start: usize, end: usize) -> (r: String)
    requires
        start <= end <= chars@.len(),
    ensures
        r@ == excerpt(chars@.subrange(start as int, end as int)),
{
    let part = slice_vec(chars, start, end);
    let (i, j) = trim_bounds(&part);
    let ghost t = part@.subrange(i as int, j as int);
    let stop: usize = if j - i <= 200 { j } else { i + 200 };
    let ghost k = if t.len() <= 200 { t } else { t.take(200) };
    assert(k =~= part@.subrange(i as int, stop as int));
    if stop == i {
        proof {
            reveal_strlit("服务器未返回错误详情");
        }
        return String::from_str("服务器未返回错误详情");
    }
    let mut r = String::new();
    let mut p: usize = i;
    while p < stop
        invariant
            i <= p <= stop <= j <= part@.len(),
            k == part@.subrange(i as int, stop as int),
            r@ =~= k.take(p - i).map_values(|c: char| if is_control(c) { ' ' } else { c }),
        decreases stop - p,
    {
        let c = part[p];
        let v: u32 = c as u32;
        let shown: char = if v <= 0x1f || (0x7f <= v && v <= 0x9f) { ' ' } else { c };
        push_char(&mut r, shown);
        assert(k.take(p + 1 - i) =~= k.take(p - i).push(c));
        p = p + 1;
    }
    assert(k.take(stop - i) =~= k);
    r
}

/// A copy of `chars[start..end]`.
pub fn slice_vec(chars: &Vec<char>, start: usize, end: usize) -> (r: Vec<char>)
    requires
        start <= end <= chars@.len(),
    ensures
        r@ == chars@.subrange(start as int, end as int),
{
    let mut r: Vec<char> = Vec::new();
    let mut i: usize = start;
    while i < end
        invariant
            start <= i <= end <= chars@.len(),
            r@ == chars@.subrange(start as int, i as int),
        decreases end - i,
    {
        r.push(chars[i]);
        assert(r@ =~= chars@.subrange(start as int, i + 1));
        i = i + 1;
    }
    r
}


/// `str::trim_end_matches` with a single character: every trailing `c`
/// removed.
pub open spec fn trim_end_char(s: Seq<char>, c: char) -> Seq<char>
    decreases s.len(),
{
    if s.len() > 0 && s.last() == c {
        trim_end_char(s.drop_last(), c)
    } else {
        s
    }
}

/// `s` without its trailing `c` characters.
pub fn trim_end_matches_char(s: &str, c: char) -> (r: String)
    ensures
        r@ == trim_end_char(s@, c),
{
    let chars = chars_of(s);
    let mut end: usize = chars.len();
    assert(chars@.subrange(0, end as int) =~= chars@);
    while end > 0 && chars[end - 1] == c
        invariant
            end <= chars@.len(),
            trim_end_char(s@, c) == trim_end_char(chars@.subrange(0, end as int), c),
        decreases end,
    {
        assert(chars@.subrange(0, end as int).drop_last() =~= chars@.subrange(0, end - 1));
        end = end - 1;
    }
    string_of(&chars, 0, end)
}


/// Whether `s` begins with `prefix` (`str::starts_with`).
pub fn starts_with(s: &str, prefix: &str) -> (r: bool)
    ensures
        r == prefix@.is_prefix_of(s@),
{
    let a = chars_of(s);
    let b = chars_of(prefix);
    if b.len() > a.len() {
        return false;
    }
    let mut i: usize = 0;
    while i < b.len()
        invariant
            i <= b@.len() <= a@.len(),
            a@ == s@,
            b@ == prefix@,
            forall|j: int| 0 <= j < i ==> a@[j] == b@[j],
        decreases b@.len() - i,
    {
        if a[i] != b[i] {
            return false;
        }
        i = i + 1;
    }
    assert(b@ =~= a@.subrange(0, b@.len() as int));
    true
}


/// An excerpt is never empty, holds at most 200 characters and no control
/// character.
pub proof fn lemma_excerpt_is_printable(s: Seq<char>)
    ensures
        0 < excerpt(s).len() <= 200,
        forall|i: int| 0 <= i < excerpt(s).len() ==> !is_control(#[trigger] excerpt(s)[i]),
{
    reveal_strlit("服务器未返回错误详情");
    let t = trim(s);
    let k = if t.len() <= 200 { t } else { t.take(200) };
    if k.len() > 0 {
        let m = k.map_values(|c: char| if is_control(c) { ' ' } else { c });
        assert forall|i: int| 0 <= i < m.len() implies !is_control(#[trigger] m[i]) by {
            if is_control(k[i]) {
                assert(m[i] == ' ');
            }
        }
    }
}

/// The result of removing trailing `c` characters does not end with `c`.
pub proof fn lemma_trim_end_char_done(s: Seq<char>, c: char)
    ensures
        trim_end_char(s, c).len() == 0 || trim_end_char(s, c).last() != c,
        trim_end_char(trim_end_char(s, c), c) == trim_end_char(s, c),
    decreases s.len(),
{
    if s.len() > 0 && s.last() == c {
        lemma_trim_end_char_done(s.drop_last(), c);
    }
}


proof fn lemma_split_on_bounds(s: Seq<char>, sep: char)
    ensures
        1 <= split_on(s, sep).len() <= s.len() + 1,
    decreases s.len(),
{
    if s.len() > 0 {
        lemma_split_on_bounds(s.drop_last(), sep);
    }
}

/// Splitting `a`, a separator and `b` gives the pieces of `a` followed by
/// the pieces of `b`.
pub proof fn lemma_split_on_concat(a: Seq<char>, b: Seq<char>, sep: char)
    ensures
        split_on(a + seq![sep] + b, sep) == split_on(a, sep) + split_on(b, sep),
    decreases b.len(),
{
    let s = a + seq![sep] + b;
    lemma_split_on_bounds(a, sep);
    if b.len() == 0 {
        assert(s =~= a + seq![sep]);
        assert((a + seq![sep]).drop_last() =~= a);
        assert(split_on(b, sep) =~= seq![Seq::<char>::empty()]);
        assert(split_on(s, sep) =~= split_on(a, sep) + split_on(b, sep));
    } else {
        assert(s.drop_last() =~= a + seq![sep] + b.drop_last());
        lemma_split_on_concat(a, b.drop_last(), sep);
        lemma_split_on_bounds(b.drop_last(), sep);
        assert(s.last() == b.last());
        assert(split_on(s, sep) =~= split_on(a, sep) + split_on(b, sep));
    }
}

/// The number of pieces is at most one more than the length.
pub proof fn lemma_split_on_count(s: Seq<char>, sep: char)
    ensures
        1 <= split_on(s, sep).len() <= s.len() + 1,
{
    lemma_split_on_bounds(s, sep);
}

proof fn lemma_trim_start_shorter(s: Seq<char>)
    ensures
        trim_start(s).len() <= s.len(),
        s.len() > 0 && is_whitespace(s[0]) ==> trim_start(s).len() < s.len(),
        s.len() > 0 && !is_whitespace(s[0]) ==> trim_start(s) == s,
    decreases s.len(),
{
    if s.len() > 0 && is_whitespace(s[0]) {
        lemma_trim_start_shorter(s.drop_first());
    }
}

proof fn lemma_trim_end_shorter(s: Seq<char>)
    ensures
        trim_end(s).len() <= s.len(),
        s.len() > 0 && is_whitespace(s.last()) ==> trim_end(s).len() < s.len(),
        s.len() > 0 && !is_whitespace(s.last()) ==> trim_end(s) == s,
    decreases s.len(),
{
    if s.len() > 0 && is_whitespace(s.last()) {
        lemma_trim_end_shorter(s.drop_last());
    }
}

/// Text that equals its own trim has no whitespace at either end.
pub proof fn lemma_trimmed_ends(s: Seq<char>)
    requires
        trim(s) == s,
        s.len() > 0,
    ensures
        !is_whitespace(s[0]),
        !is_whitespace(s.last()),
{
    lemma_trim_start_shorter(s);
    lemma_trim_end_shorter(trim_start(s));
    if !is_whitespace(s[0]) {
        lemma_trim_end_shorter(s);
    }
}

/// Text with no whitespace at either end equals its own trim.
pub proof fn lemma_trim_of_trimmed(s: Seq<char>)
    requires
        s.len() > 0,
        !is_whitespace(s[0]),
        !is_whitespace(s.last()),
    ensures
        trim(s) == s,
{
    lemma_trim_start_shorter(s);
    lemma_trim_end_shorter(s);
}

} // verus!
