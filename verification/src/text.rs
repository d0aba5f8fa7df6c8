//! Text as sequences of characters: the searches, splits and rewrites that the
//! rest of the library is built from. Every contract speaks of `Seq<char>`.

use vstd::prelude::*;

verus! {

/// `String::push` of std appends one character to the string.
pub assume_specification[ String::push ](s: &mut String, c: char)
    ensures
        final(s)@ == old(s)@.push(c),
;

/// `String::pop` of std takes the last character off the string and
/// returns it, or returns `None` and leaves an empty string empty.
pub assume_specification[ String::pop ](s: &mut String) -> (r: Option<char>)
    ensures
        old(s)@.len() > 0 ==> r == Some(old(s)@.last()) && final(s)@ == old(s)@.drop_last(),
        old(s)@.len() == 0 ==> r is None && final(s)@ == old(s)@,
;

/// Whether `c` has the Unicode property White_Space, as `char::is_whitespace`
/// of std reports it.
pub uninterp spec fn white_space(c: char) -> bool;

/// `char::is_whitespace` of std: the answer is the White_Space property of
/// the character, which this library leaves unstated.
pub assume_specification[ char::is_whitespace ](c: char) -> (r: bool)
    ensures
        r == white_space(c),
;

/// What `str::to_lowercase` of std makes of a text.
pub uninterp spec fn lowercase_of(s: Seq<char>) -> Seq<char>;

/// `str::to_lowercase` of std: the lowercase equivalent of the text, by the
/// Unicode rules that std follows; the contract only names it.
pub assume_specification[ str::to_lowercase ](s: &str) -> (r: String)
    ensures
        r@ == lowercase_of(s@),
;

/// The characters of `s`, in order.
pub fn chars_of(s: &str) -> (r: Vec<char>)
    ensures
        r@ == s@,
{
    let mut out: Vec<char> = Vec::new();
    for c in it: s.chars()
        invariant
            it.seq() == s@,
            out@ == s@.take(it.index() as int),
    {
        out.push(c);
        assert(s@.take(it.index() + 1) =~= s@.take(it.index() as int).push(c));
    }
    assert(s@.take(s@.len() as int) =~= s@);
    out
}

/// The string whose characters are `cs`.
pub fn string_of(cs: &Vec<char>) -> (r: String)
    ensures
        r@ == cs@,
{
    let mut out = String::new();
    let mut i: usize = 0;
    while i < cs.len()
        invariant
            i <= cs.len(),
            out@ == cs@.take(i as int),
        decreases cs.len() - i,
    {
        out.push(cs[i]);
        assert(cs@.take(i + 1) =~= cs@.take(i as int).push(cs@[i as int]));
        i += 1;
    }
    assert(cs@.take(cs@.len() as int) =~= cs@);
    out
}

/// A string of its own with the characters of `s`.
pub fn owned(s: &str) -> (r: String)
    ensures
        r@ == s@,
{
    s.to_owned()
}

/// Appends the characters of `src` to `dst`.
pub fn push_all(dst: &mut Vec<char>, src: &Vec<char>)
    ensures
        final(dst)@ == old(dst)@ + src@,
{
    let mut i: usize = 0;
    while i < src.len()
        invariant
            i <= src.len(),
            dst@ == old(dst)@ + src@.take(i as int),
        decreases src.len() - i,
    {
        dst.push(src[i]);
        assert(src@.take(i + 1) =~= src@.take(i as int).push(src@[i as int]));
        assert(dst@ =~= old(dst)@ + src@.take(i + 1));
        i += 1;
    }
    assert(src@.take(src@.len() as int) =~= src@);
}

/// Whether two texts hold the same characters.
pub fn same_text(a: &Vec<char>, b: &Vec<char>) -> (r: bool)
    ensures
        r == (a@ == b@),
{
    if a.len() != b.len() {
        return false;
    }
    let mut i: usize = 0;
    while i < a.len()
        invariant
            i <= a.len(),
            a.len() == b.len(),
            a@.take(i as int) == b@.take(i as int),
        decreases a.len() - i,
    {
        if a[i] != b[i] {
            return false;
        }
        assert(a@.take(i + 1) =~= a@.take(i as int).push(a@[i as int]));
        assert(b@.take(i + 1) =~= b@.take(i as int).push(b@[i as int]));
        i += 1;
    }
    assert(a@.take(a@.len() as int) =~= a@);
    assert(b@.take(b@.len() as int) =~= b@);
    true
}

/// `p` stands in `s` at position `i`.
pub open spec fn occurs_at(s: Seq<char>, p: Seq<char>, i: int) -> bool {
    0 <= i && i + p.len() <= s.len() && s.subrange(i, i + p.len()) == p
}

/// `p` stands somewhere in `s`.
pub open spec fn contains_text(s: Seq<char>, p: Seq<char>) -> bool {
    exists|i: int| occurs_at(s, p, i)
}

/// Whether `p` stands in `s` at position `i`.
pub fn occurs(s: &Vec<char>, p: &Vec<char>, i: usize) -> (r: bool)
    ensures
        r == occurs_at(s@, p@, i as int),
{
    if i > s.len() || p.len() > s.len() - i {
        return false;
    }
    let mut k: usize = 0;
    while k < p.len()
        invariant
            k <= p.len(),
            i + p.len() <= s.len(),
            s@.subrange(i as int, i + k) == p@.take(k as int),
        decreases p.len() - k,
    {
        if s[i + k] != p[k] {
            assert(s@.subrange(i as int, i + p.len())[k as int] != p@[k as int]);
            return false;
        }
        assert(s@.subrange(i as int, i + k + 1) =~= s@.subrange(i as int, i + k).push(
            s@[i + k],
        ));
        assert(p@.take(k + 1) =~= p@.take(k as int).push(p@[k as int]));
        k += 1;
    }
    assert(p@.take(p@.len() as int) =~= p@);
    true
}

/// Whether `s` begins with `p`.
pub fn starts_with(s: &Vec<char>, p: &Vec<char>) -> (r: bool)
    ensures
        r == occurs_at(s@, p@, 0),
{
    occurs(s, p, 0)
}

/// Whether `s` ends with `p`.
pub fn ends_with(s: &Vec<char>, p: &Vec<char>) -> (r: bool)
    ensures
        r == (p@.len() <= s@.len() && occurs_at(s@, p@, s@.len() - p@.len())),
{
    if p.len() > s.len() {
        return false;
    }
    occurs(s, p, s.len() - p.len())
}

/// The first position at or after `from` where `p` stands in `s`.
pub fn find_from(s: &Vec<char>, p: &Vec<char>, from: usize) -> (r: Option<usize>)
    ensures
        match r {
            Some(i) => from <= i && occurs_at(s@, p@, i as int) && forall|j: int|
                from <= j < i ==> !occurs_at(s@, p@, j),
            None => forall|j: int| from <= j ==> !occurs_at(s@, p@, j),
        },
{
    let mut i: usize = from;
    while i <= s.len()
        invariant
            from <= i,
            forall|j: int| from <= j < i ==> !occurs_at(s@, p@, j),
        decreases s.len() + 1 - i,
    {
        if occurs(s, p, i) {
            return Some(i);
        }
        if i == s.len() {
            return None;
        }
        i += 1;
    }
    None
}

/// Whether `p` stands somewhere in `s`.
pub fn contains(s: &Vec<char>, p: &Vec<char>) -> (r: bool)
    ensures
        r == contains_text(s@, p@),
{
    find_from(s, p, 0).is_some()
}

/// `s` with every `from` turned into `to`.
pub open spec fn with_char_replaced(s: Seq<char>, from: char, to: char) -> Seq<char> {
    Seq::new(s.len(), |i: int| if s[i] == from { to } else { s[i] })
}

/// `s` with every `from` turned into `to`.
pub fn replace_char(s: &Vec<char>, from: char, to: char) -> (r: Vec<char>)
    ensures
        r@ == with_char_replaced(s@, from, to),
{
    let mut out: Vec<char> = Vec::new();
    let mut i: usize = 0;
    while i < s.len()
        invariant
            i <= s.len(),
            out@ == with_char_replaced(s@, from, to).take(i as int),
        decreases s.len() - i,
    {
        let c = s[i];
        out.push(if c == from { to } else { c });
        assert(out@ =~= with_char_replaced(s@, from, to).take(i + 1));
        i += 1;
    }
    assert(out@ =~= with_char_replaced(s@, from, to));
    out
}

/// The characters of `s` from position `from` up to, not including, `to`.
pub fn slice_of(s: &Vec<char>, from: usize, to: usize) -> (r: Vec<char>)
    requires
        from <= to <= s.len(),
    ensures
        r@ == s@.subrange(from as int, to as int),
{
    let mut out: Vec<char> = Vec::new();
    let mut i: usize = from;
    while i < to
        invariant
            from <= i <= to <= s.len(),
            out@ == s@.subrange(from as int, i as int),
        decreases to - i,
    {
        out.push(s[i]);
        assert(out@ =~= s@.subrange(from as int, i + 1));
        i += 1;
    }
    out
}

/// How many characters at the front of `s` satisfy `f`.
pub open spec fn leading_run(s: Seq<char>, f: spec_fn(char) -> bool) -> int
    decreases s.len(),
{
    if s.len() == 0 || !f(s[0]) {
        0
    } else {
        1 + leading_run(s.drop_first(), f)
    }
}

/// How many characters at the back of `s` satisfy `f`.
pub open spec fn trailing_run(s: Seq<char>, f: spec_fn(char) -> bool) -> int
    decreases s.len(),
{
    if s.len() == 0 || !f(s.last()) {
        0
    } else {
        1 + trailing_run(s.drop_last(), f)
    }
}

/// A run of `n` characters that satisfy `f`, ended by the end of the text or
/// by a character that does not, is the leading run.
pub proof fn lemma_leading_run(s: Seq<char>, f: spec_fn(char) -> bool, n: int)
    requires
        0 <= n <= s.len(),
        forall|j: int| 0 <= j < n ==> f(#[trigger] s[j]),
        n == s.len() || !f(s[n]),
    ensures
        leading_run(s, f) == n,
    decreases s.len(),
{
    if n > 0 {
        let t = s.drop_first();
        assert forall|j: int| 0 <= j < n - 1 implies f(#[trigger] t[j]) by {
            assert(t[j] == s[j + 1]);
        }
        lemma_leading_run(t, f, n - 1);
    }
}

/// The same for the run at the back: it starts at position `s.len() - n`.
pub proof fn lemma_trailing_run(s: Seq<char>, f: spec_fn(char) -> bool, n: int)
    requires
        0 <= n <= s.len(),
        forall|j: int| s.len() - n <= j < s.len() ==> f(#[trigger] s[j]),
        n == s.len() || !f(s[s.len() - n - 1]),
    ensures
        trailing_run(s, f) == n,
    decreases s.len(),
{
    if n > 0 {
        let t = s.drop_last();
        assert forall|j: int| t.len() - (n - 1) <= j < t.len() implies f(#[trigger] t[j]) by {
            assert(t[j] == s[j]);
        }
        lemma_trailing_run(t, f, n - 1);
    }
}

/// `s` without the white space at its two ends.
pub open spec fn trimmed(s: Seq<char>) -> Seq<char> {
    let a = leading_run(s, is_space());
    if a == s.len() {
        Seq::empty()
    } else {
        s.subrange(a, s.len() - trailing_run(s, is_space()))
    }
}

/// `s` without the white space at its two ends.
pub fn trim(s: &Vec<char>) -> (r: Vec<char>)
    ensures
        r@ == trimmed(s@),
{
    let mut a: usize = 0;
    while a < s.len() && s[a].is_whitespace()
        invariant
            a <= s.len(),
            forall|j: int| 0 <= j < a ==> white_space(#[trigger] s@[j]),
        decreases s.len() - a,
    {
        a += 1;
    }
    proof {
        lemma_leading_run(s@, is_space(), a as int);
    }
    if a == s.len() {
        return Vec::new();
    }
    let mut b: usize = s.len();
    while b > a && s[b - 1].is_whitespace()
        invariant
            a <= b <= s.len(),
            a < s.len(),
            !white_space(s@[a as int]),
            forall|j: int| b <= j < s.len() ==> white_space(#[trigger] s@[j]),
        decreases b,
    {
        b -= 1;
    }
    proof {
        lemma_trailing_run(s@, is_space(), s.len() - b);
    }
    slice_of(s, a, b)
}

/// The test that a character is `c`.
pub open spec fn is_char(c: char) -> spec_fn(char) -> bool {
    |x: char| x == c
}

/// The test that a character is not `c`.
pub open spec fn is_not_char(c: char) -> spec_fn(char) -> bool {
    |x: char| x != c
}

/// The test that a character is white space.
pub open spec fn is_space() -> spec_fn(char) -> bool {
    |x: char| white_space(x)
}

/// The texts that a vector of character vectors holds.
pub open spec fn texts(v: Seq<Vec<char>>) -> Seq<Seq<char>> {
    Seq::new(v.len(), |i: int| v[i]@)
}

/// `s` without the run of `c` at its front.
pub open spec fn without_leading_char(s: Seq<char>, c: char) -> Seq<char> {
    s.skip(leading_run(s, is_char(c)))
}

/// `s` without the run of `c` at its back.
pub open spec fn without_trailing_char(s: Seq<char>, c: char) -> Seq<char> {
    s.take(s.len() - trailing_run(s, is_char(c)))
}

/// `s` without the run of `c` at its front.
pub fn strip_leading_char(s: &Vec<char>, c: char) -> (r: Vec<char>)
    ensures
        r@ == without_leading_char(s@, c),
{
    let mut a: usize = 0;
    while a < s.len() && s[a] == c
        invariant
            a <= s.len(),
            forall|j: int| 0 <= j < a ==> #[trigger] s@[j] == c,
        decreases s.len() - a,
    {
        a += 1;
    }
    proof {
        lemma_leading_run(s@, is_char(c), a as int);
    }
    slice_of(s, a, s.len())
}

/// `s` without the run of `c` at its back.
pub fn strip_trailing_char(s: &Vec<char>, c: char) -> (r: Vec<char>)
    ensures
        r@ == without_trailing_char(s@, c),
{
    let mut b: usize = s.len();
    while b > 0 && s[b - 1] == c
        invariant
            b <= s.len(),
            forall|j: int| b <= j < s.len() ==> #[trigger] s@[j] == c,
        decreases b,
    {
        b -= 1;
    }
    proof {
        lemma_trailing_run(s@, is_char(c), s.len() - b);
    }
    slice_of(s, 0, b)
}

/// `s` after `p` has been taken from its front as often as it stands there.
/// An empty `p` takes nothing.
pub open spec fn without_leading_text(s: Seq<char>, p: Seq<char>) -> Seq<char>
    decreases s.len(),
{
    if p.len() > 0 && occurs_at(s, p, 0) {
        without_leading_text(s.skip(p.len() as int), p)
    } else {
        s
    }
}

/// `s` after `p` has been taken from its front as often as it stands there.
pub fn strip_leading_text(s: &Vec<char>, p: &Vec<char>) -> (r: Vec<char>)
    ensures
        r@ == without_leading_text(s@, p@),
{
    let mut a: usize = 0;
    assert(s@.skip(0) =~= s@);
    if p.len() > 0 {
        while occurs(s, p, a)
            invariant
                a <= s.len(),
                p.len() > 0,
                without_leading_text(s@, p@) == without_leading_text(s@.skip(a as int), p@),
            decreases s.len() - a,
        {
            proof {
                let t = s@.skip(a as int);
                assert(t.subrange(0, p.len() as int) =~= s@.subrange(a as int, a + p.len()));
                assert(t.skip(p.len() as int) =~= s@.skip(a + p.len()));
            }
            a += p.len();
        }
        proof {
            let t = s@.skip(a as int);
            if occurs_at(t, p@, 0) {
                assert(t.subrange(0, p.len() as int) =~= s@.subrange(a as int, a + p.len()));
            }
        }
    }
    slice_of(s, a, s.len())
}

/// `s` with each occurrence of `from`, found from left to right and not
/// overlapping the one before, turned into `to`. An empty `from` changes nothing.
pub open spec fn with_text_replaced(s: Seq<char>, from: Seq<char>, to: Seq<char>) -> Seq<char>
    decreases s.len(),
{
    if from.len() == 0 || s.len() == 0 {
        s
    } else if occurs_at(s, from, 0) {
        to + with_text_replaced(s.skip(from.len() as int), from, to)
    } else {
        seq![s[0]] + with_text_replaced(s.drop_first(), from, to)
    }
}

/// `s` with each occurrence of `from` turned into `to`.
pub fn replace_text(s: &Vec<char>, from: &Vec<char>, to: &Vec<char>) -> (r: Vec<char>)
    ensures
        r@ == with_text_replaced(s@, from@, to@),
{
    let mut out: Vec<char> = Vec::new();
    let mut i: usize = 0;
    assert(s@.skip(0) =~= s@);
    if from.len() == 0 {
        push_all(&mut out, s);
        assert(out@ =~= s@);
        return out;
    }
    while i < s.len()
        invariant
            i <= s.len(),
            from.len() > 0,
            with_text_replaced(s@, from@, to@) == out@ + with_text_replaced(
                s@.skip(i as int),
                from@,
                to@,
            ),
        decreases s.len() - i,
    {
        let ghost t = s@.skip(i as int);
        let ghost before = out@;
        if occurs(s, from, i) {
            proof {
                assert(t.subrange(0, from.len() as int) =~= s@.subrange(i as int, i + from.len()));
                assert(t.skip(from.len() as int) =~= s@.skip(i + from.len()));
            }
            push_all(&mut out, to);
            i += from.len();
            assert(with_text_replaced(s@, from@, to@) =~= out@ + with_text_replaced(
                s@.skip(i as int),
                from@,
                to@,
            ));
        } else {
            proof {
                if occurs_at(t, from@, 0) {
                    assert(t.subrange(0, from.len() as int) =~= s@.subrange(
                        i as int,
                        i + from.len(),
                    ));
                }
                assert(t.drop_first() =~= s@.skip(i + 1));
            }
            out.push(s[i]);
            i += 1;
            assert(with_text_replaced(s@, from@, to@) =~= out@ + with_text_replaced(
                s@.skip(i as int),
                from@,
                to@,
            ));
        }
    }
    assert(out@ + Seq::<char>::empty() =~= out@);
    out
}

/// The position of the first `c` in `s`, or the length of `s` where there is none.
pub open spec fn first_index(s: Seq<char>, c: char) -> int {
    leading_run(s, is_not_char(c))
}

/// A line without the carriage return that may end it.
pub open spec fn without_cr(line: Seq<char>) -> Seq<char> {
    if line.len() > 0 && line.last() == '\r' {
        line.drop_last()
    } else {
        line
    }
}

/// The lines of a text. A line ends with a line feed, or with a carriage
/// return and a line feed; neither belongs to the line. What follows the last
/// line feed is a line of its own unless it is empty, and keeps a carriage
/// return at its end.
pub open spec fn lines_of(s: Seq<char>) -> Seq<Seq<char>>
    decreases s.len(),
{
    if s.len() == 0 {
        Seq::empty()
    } else {
        let n = first_index(s, '\n');
        if 0 <= n < s.len() {
            seq![without_cr(s.take(n))] + lines_of(s.skip(n + 1))
        } else {
            seq![s]
        }
    }
}

/// The pieces of `s` between the occurrences of `c`; there is always one
/// piece more than there are occurrences.
pub open spec fn pieces_of(s: Seq<char>, c: char) -> Seq<Seq<char>>
    decreases s.len(),
{
    let n = first_index(s, c);
    if 0 <= n < s.len() {
        seq![s.take(n)] + pieces_of(s.skip(n + 1), c)
    } else {
        seq![s]
    }
}

/// The texts of `parts` in a row, with `sep` between each two.
pub open spec fn joined(parts: Seq<Seq<char>>, sep: Seq<char>) -> Seq<char>
    decreases parts.len(),
{
    if parts.len() == 0 {
        Seq::empty()
    } else if parts.len() == 1 {
        parts[0]
    } else {
        joined(parts.drop_last(), sep) + sep + parts.last()
    }
}

/// In a text whose part from `start` to `i` holds no `c`, the first `c` after
/// `start` is at `i`, where one stands there, and the rest holds none where
/// `i` is the end.
proof fn lemma_first_index_from(s: Seq<char>, c: char, start: int, i: int)
    requires
        0 <= start <= i <= s.len(),
        forall|j: int| start <= j < i ==> #[trigger] s[j] != c,
        i == s.len() || s[i] == c,
    ensures
        first_index(s.skip(start), c) == i - start,
{
    let t = s.skip(start);
    assert forall|j: int| 0 <= j < i - start implies is_not_char(c)(#[trigger] t[j]) by {
        assert(t[j] == s[start + j]);
    }
    lemma_leading_run(t, is_not_char(c), i - start);
}

/// The lines of `s`.
pub fn split_lines(s: &Vec<char>) -> (r: Vec<Vec<char>>)
    ensures
        texts(r@) == lines_of(s@),
{
    let mut out: Vec<Vec<char>> = Vec::new();
    let mut cur: Vec<char> = Vec::new();
    let mut i: usize = 0;
    let ghost mut start: int = 0;
    assert(s@.skip(0) =~= s@);
    assert(texts(out@) =~= Seq::<Seq<char>>::empty());
    while i < s.len()
        invariant
            0 <= start <= i <= s.len(),
            cur@ == s@.subrange(start, i as int),
            forall|j: int| start <= j < i ==> #[trigger] s@[j] != '\n',
            lines_of(s@) == texts(out@) + lines_of(s@.skip(start)),
        decreases s.len() - i,
    {
        let c = s[i];
        if c == '\n' {
            proof {
                lemma_first_index_from(s@, '\n', start, i as int);
                let t = s@.skip(start);
                assert(t.take(i - start) =~= s@.subrange(start, i as int));
                assert(t.skip(i - start + 1) =~= s@.skip(i + 1));
            }
            let ghost line = cur@;
            let ghost before = texts(out@);
            if cur.len() > 0 && cur[cur.len() - 1] == '\r' {
                cur.pop();
                assert(cur@ =~= without_cr(line));
            }
            out.push(cur);
            cur = Vec::new();
            i += 1;
            proof {
                start = i as int;
                assert(texts(out@) =~= before.push(without_cr(line)));
                assert(cur@ =~= s@.subrange(start, i as int));
                assert(lines_of(s@) =~= texts(out@) + lines_of(s@.skip(start)));
            }
        } else {
            cur.push(c);
            i += 1;
            assert(cur@ =~= s@.subrange(start, i as int));
        }
    }
    proof {
        lemma_first_index_from(s@, '\n', start, i as int);
        assert(s@.skip(start) =~= s@.subrange(start, i as int));
    }
    if cur.len() > 0 {
        let ghost before = texts(out@);
        out.push(cur);
        assert(texts(out@) =~= before.push(s@.skip(start)));
        assert(lines_of(s@) =~= texts(out@));
    } else {
        assert(lines_of(s@) =~= texts(out@));
    }
    out
}

/// The pieces of `s` between the occurrences of `c`.
pub fn split_on(s: &Vec<char>, c: char) -> (r: Vec<Vec<char>>)
    ensures
        texts(r@) == pieces_of(s@, c),
{
    let mut out: Vec<Vec<char>> = Vec::new();
    let mut cur: Vec<char> = Vec::new();
    let mut i: usize = 0;
    let ghost mut start: int = 0;
    assert(s@.skip(0) =~= s@);
    assert(texts(out@) =~= Seq::<Seq<char>>::empty());
    while i < s.len()
        invariant
            0 <= start <= i <= s.len(),
            cur@ == s@.subrange(start, i as int),
            forall|j: int| start <= j < i ==> #[trigger] s@[j] != c,
            pieces_of(s@, c) == texts(out@) + pieces_of(s@.skip(start), c),
        decreases s.len() - i,
    {
        let x = s[i];
        if x == c {
            proof {
                lemma_first_index_from(s@, c, start, i as int);
                let t = s@.skip(start);
                assert(t.take(i - start) =~= s@.subrange(start, i as int));
                assert(t.skip(i - start + 1) =~= s@.skip(i + 1));
            }
            let ghost piece = cur@;
            let ghost before = texts(out@);
            out.push(cur);
            cur = Vec::new();
            i += 1;
            proof {
                start = i as int;
                assert(texts(out@) =~= before.push(piece));
                assert(cur@ =~= s@.subrange(start, i as int));
                assert(pieces_of(s@, c) =~= texts(out@) + pieces_of(s@.skip(start), c));
            }
        } else {
            cur.push(x);
            i += 1;
            assert(cur@ =~= s@.subrange(start, i as int));
        }
    }
    proof {
        lemma_first_index_from(s@, c, start, i as int);
        assert(s@.skip(start) =~= s@.subrange(start, i as int));
    }
    let ghost before = texts(out@);
    out.push(cur);
    assert(texts(out@) =~= before.push(s@.skip(start)));
    assert(pieces_of(s@, c) =~= texts(out@));
    out
}

/// The texts of `parts` in a row, with `sep` between each two.
pub fn join(parts: &Vec<Vec<char>>, sep: &Vec<char>) -> (r: Vec<char>)
    ensures
        r@ == joined(texts(parts@), sep@),
{
    let mut out: Vec<char> = Vec::new();
    let mut i: usize = 0;
    let ghost all = texts(parts@);
    assert(all.take(0) =~= Seq::<Seq<char>>::empty());
    while i < parts.len()
        invariant
            i <= parts.len(),
            all == texts(parts@),
            out@ == joined(all.take(i as int), sep@),
        decreases parts.len() - i,
    {
        if i > 0 {
            push_all(&mut out, sep);
        }
        push_all(&mut out, &parts[i]);
        proof {
            let next = all.take(i + 1);
            assert(next.drop_last() =~= all.take(i as int));
            assert(next.last() == parts@[i as int]@);
            if i == 0 {
                assert(out@ =~= next[0]);
            }
        }
        i += 1;
    }
    assert(all.take(parts.len() as int) =~= all);
    out
}

/// The character that stands for the digit `d`.
pub open spec fn digit_char(d: int) -> char {
    if d == 0 {
        '0'
    } else if d == 1 {
        '1'
    } else if d == 2 {
        '2'
    } else if d == 3 {
        '3'
    } else if d == 4 {
        '4'
    } else if d == 5 {
        '5'
    } else if d == 6 {
        '6'
    } else if d == 7 {
        '7'
    } else if d == 8 {
        '8'
    } else {
        '9'
    }
}

/// The decimal numeral of `n`, without leading zeros.
pub open spec fn decimal_of(n: nat) -> Seq<char>
    decreases n,
{
    if n < 10 {
        seq![digit_char(n as int)]
    } else {
        decimal_of(n / 10).push(digit_char((n % 10) as int))
    }
}

/// The decimal numeral of `n`.
pub fn decimal(n: usize) -> (r: Vec<char>)
    ensures
        r@ == decimal_of(n as nat),
    decreases n,
{
    let d: usize = n % 10;
    let c = if d == 0 {
        '0'
    } else if d == 1 {
        '1'
    } else if d == 2 {
        '2'
    } else if d == 3 {
        '3'
    } else if d == 4 {
        '4'
    } else if d == 5 {
        '5'
    } else if d == 6 {
        '6'
    } else if d == 7 {
        '7'
    } else if d == 8 {
        '8'
    } else {
        '9'
    };
    if n < 10 {
        let mut out: Vec<char> = Vec::new();
        out.push(c);
        assert(out@ =~= seq![digit_char(n as int)]);
        out
    } else {
        let mut out = decimal(n / 10);
        out.push(c);
        out
    }
}

/// The strings of the texts in `lines`.
pub fn strings_of(lines: &Vec<Vec<char>>) -> (r: Vec<String>)
    ensures
        r.deep_view() == texts(lines@),
{
    let mut out: Vec<String> = Vec::new();
    let mut i: usize = 0;
    while i < lines.len()
        invariant
            i <= lines.len(),
            out.deep_view() == texts(lines@).take(i as int),
        decreases lines.len() - i,
    {
        let ghost before = out.deep_view();
        let line = string_of(&lines[i]);
        out.push(line);
        assert(out.deep_view() =~= before.push(line@));
        assert(out.deep_view() =~= texts(lines@).take(i + 1));
        i += 1;
    }
    assert(out.deep_view() =~= texts(lines@));
    out
}

/// Each of `parts` without the white space at its two ends.
pub open spec fn each_trimmed(parts: Seq<Seq<char>>) -> Seq<Seq<char>> {
    Seq::new(parts.len(), |i: int| trimmed(parts[i]))
}

/// Each of `parts` without the white space at its two ends.
pub fn trim_each(parts: &Vec<Vec<char>>) -> (r: Vec<Vec<char>>)
    ensures
        texts(r@) == each_trimmed(texts(parts@)),
{
    let mut out: Vec<Vec<char>> = Vec::new();
    let mut i: usize = 0;
    while i < parts.len()
        invariant
            i <= parts.len(),
            texts(out@) == each_trimmed(texts(parts@)).take(i as int),
        decreases parts.len() - i,
    {
        let ghost before = texts(out@);
        let part = trim(&parts[i]);
        out.push(part);
        assert(texts(out@) =~= before.push(part@));
        assert(texts(out@) =~= each_trimmed(texts(parts@)).take(i + 1));
        i += 1;
    }
    assert(texts(out@) =~= each_trimmed(texts(parts@)));
    out
}

} // verus!
