//! Character-level helpers shared by the string-processing parts of the library.
//!
//! Everything here is stated over `Seq<char>`, the view of `str` and `String`.

use vstd::prelude::*;
use vstd::string::*;

verus! {

/// The characters that carry the Unicode `White_Space` property.
pub open spec fn is_whitespace(c: char) -> bool {
    let n = c as u32;
    ||| 0x09 <= n <= 0x0D
    ||| n == 0x20
    ||| n == 0x85
    ||| n == 0xA0
    ||| n == 0x1680
    ||| 0x2000 <= n <= 0x200A
    ||| n == 0x2028
    ||| n == 0x2029
    ||| n == 0x202F
    ||| n == 0x205F
    ||| n == 0x3000
}

/// A set of characters, as the scanning functions need it.
#[derive(Clone, Copy, Debug)]
pub enum CharClass {
    /// White space.
    Space,
    /// The one character given.
    Only(char),
    /// Every character but the one given.
    Except(char),
}

impl CharClass {
    /// Whether `c` belongs to the class.
    pub open spec fn has(self, c: char) -> bool {
        match self {
            CharClass::Space => is_whitespace(c),
            CharClass::Only(d) => c == d,
            CharClass::Except(d) => c != d,
        }
    }

    /// Whether `c` belongs to the class.
    pub fn holds(self, c: char) -> (b: bool)
        ensures
            b == self.has(c),
    {
        match self {
            CharClass::Space => is_space(c),
            CharClass::Only(d) => c == d,
            CharClass::Except(d) => c != d,
        }
    }
}

/// Number of characters at the front of `s` that belong to `class`.
pub open spec fn leading(s: Seq<char>, class: CharClass) -> nat
    decreases s.len(),
{
    if s.len() > 0 && class.has(s[0]) {
        1 + leading(s.drop_first(), class)
    } else {
        0
    }
}

/// Number of characters at the back of `s` that belong to `class`.
pub open spec fn trailing(s: Seq<char>, class: CharClass) -> nat
    decreases s.len(),
{
    if s.len() > 0 && class.has(s.last()) {
        1 + trailing(s.drop_last(), class)
    } else {
        0
    }
}

/// `s` without its leading white space.
pub open spec fn trim_start(s: Seq<char>) -> Seq<char> {
    s.skip(leading(s, CharClass::Space) as int)
}

/// `s` without its trailing white space.
pub open spec fn trim_end(s: Seq<char>) -> Seq<char> {
    s.take(s.len() - trailing(s, CharClass::Space))
}

/// `s` without leading and trailing white space.
pub open spec fn trim(s: Seq<char>) -> Seq<char> {
    trim_end(trim_start(s))
}

/// `s` without any trailing occurrence of `c`.
pub open spec fn strip_trailing(s: Seq<char>, c: char) -> Seq<char> {
    s.take(s.len() - trailing(s, CharClass::Only(c)))
}

/// Position of the first `c` in `s`, or `s.len()` where there is none.
pub open spec fn find_char(s: Seq<char>, c: char) -> nat {
    leading(s, CharClass::Except(c))
}

/// The pieces of `s` between occurrences of `sep`. There is always at least one piece;
/// a separator at the very end is followed by an empty piece.
pub open spec fn split_on(s: Seq<char>, sep: char) -> Seq<Seq<char>>
    decreases s.len(),
{
    let i = find_char(s, sep) as int;
    if i >= s.len() {
        seq![s]
    } else {
        seq![s.take(i)] + split_on(s.skip(i + 1), sep)
    }
}

/// `parts` concatenated, with `sep` between neighbours.
pub open spec fn join(parts: Seq<Seq<char>>, sep: Seq<char>) -> Seq<char>
    decreases parts.len(),
{
    if parts.len() == 0 {
        Seq::empty()
    } else if parts.len() == 1 {
        parts[0]
    } else {
        join(parts.drop_last(), sep) + sep + parts.last()
    }
}

/// Whether `pat` occurs in `s` as a contiguous run of characters.
pub open spec fn contains(s: Seq<char>, pat: Seq<char>) -> bool {
    exists|i: int| 0 <= i <= s.len() - pat.len() && #[trigger] s.subrange(i, i + pat.len()) == pat
}

/// The view of a string that may be absent.
pub open spec fn opt_view(s: Option<String>) -> Option<Seq<char>> {
    match s {
        Some(s) => Some(s@),
        None => None,
    }
}

/// The views of a sequence of strings.
pub open spec fn views(v: Seq<String>) -> Seq<Seq<char>> {
    Seq::new(v.len(), |i: int| v[i]@)
}

/// The leading run stays inside `s`, consists of members of `class`, and ends before a
/// character that is none.
pub proof fn lemma_leading_bound(s: Seq<char>, class: CharClass)
    ensures
        leading(s, class) <= s.len(),
        forall|i: int| 0 <= i < leading(s, class) ==> class.has(#[trigger] s[i]),
        leading(s, class) < s.len() ==> !class.has(s[leading(s, class) as int]),
    decreases s.len(),
{
    if s.len() > 0 && class.has(s[0]) {
        let rest = s.drop_first();
        lemma_leading_bound(rest, class);
        assert forall|i: int| 0 <= i < leading(s, class) implies class.has(#[trigger] s[i]) by {
            if i > 0 {
                assert(s[i] == rest[i - 1]);
            }
        }
        if leading(s, class) < s.len() {
            assert(s[leading(s, class) as int] == rest[leading(rest, class) as int]);
        }
    }
}

/// A run of `k` members of `class` followed by a character that is none (or by the end) is
/// the leading run.
pub proof fn lemma_leading_is(s: Seq<char>, class: CharClass, k: nat)
    requires
        k <= s.len(),
        forall|i: int| 0 <= i < k ==> class.has(#[trigger] s[i]),
        k < s.len() ==> !class.has(s[k as int]),
    ensures
        leading(s, class) == k,
    decreases k,
{
    if k > 0 {
        let rest = s.drop_first();
        assert forall|i: int| 0 <= i < k - 1 implies class.has(#[trigger] rest[i]) by {
            assert(rest[i] == s[i + 1]);
        }
        lemma_leading_is(rest, class, (k - 1) as nat);
    }
}

/// A run of `k` members of `class` at the back, preceded by a character that is none (or by
/// the start), is the trailing run.
pub proof fn lemma_trailing_is(s: Seq<char>, class: CharClass, k: nat)
    requires
        k <= s.len(),
        forall|i: int| s.len() - k <= i < s.len() ==> class.has(#[trigger] s[i]),
        k < s.len() ==> !class.has(s[s.len() - k - 1]),
    ensures
        trailing(s, class) == k,
    decreases k,
{
    if k > 0 {
        let rest = s.drop_last();
        assert forall|i: int| rest.len() - (k - 1) <= i < rest.len() implies class.has(
            #[trigger] rest[i],
        ) by {
            assert(rest[i] == s[i]);
        }
        lemma_trailing_is(rest, class, (k - 1) as nat);
    }
}

/// From two parts on, a joined text is its first part, the separator, and the rest joined.
pub proof fn lemma_join_front(parts: Seq<Seq<char>>, sep: Seq<char>)
    requires
        parts.len() >= 2,
    ensures
        join(parts, sep) == parts[0] + sep + join(parts.drop_first(), sep),
    decreases parts.len(),
{
    let init = parts.drop_last();
    let tail = parts.drop_first();
    if parts.len() == 2 {
        assert(init.len() == 1 && tail.len() == 1);
        assert(join(init, sep) == parts[0]);
        assert(join(tail, sep) == parts[1]);
    } else {
        lemma_join_front(init, sep);
        assert(init.drop_first() =~= tail.drop_last());
        assert(join(parts, sep) =~= parts[0] + sep + join(tail, sep));
    }
}

/// The first piece of a split text ends at the first separator; the other pieces are
/// those of what follows that separator.
pub proof fn lemma_split_on_unfold(s: Seq<char>, sep: char)
    ensures
        find_char(s, sep) <= s.len(),
        split_on(s, sep).len() >= 1,
        split_on(s, sep)[0] == s.take(find_char(s, sep) as int),
        split_on(s, sep).drop_first() == if find_char(s, sep) >= s.len() {
            Seq::<Seq<char>>::empty()
        } else {
            split_on(s.skip(find_char(s, sep) as int + 1), sep)
        },
{
    lemma_leading_bound(s, CharClass::Except(sep));
    let i = find_char(s, sep) as int;
    if i >= s.len() {
        assert(s.take(i) =~= s);
        assert(split_on(s, sep).drop_first() =~= Seq::<Seq<char>>::empty());
    } else {
        assert(split_on(s, sep).drop_first() =~= split_on(s.skip(i + 1), sep));
    }
}

/// Pushing a string pushes its view.
pub proof fn lemma_views_push(v: Seq<String>, s: String)
    ensures
        views(v.push(s)) == views(v).push(s@),
{
    assert(views(v.push(s)) =~= views(v).push(s@));
}

/// Whether `c` is white space.
pub fn is_space(c: char) -> (b: bool)
    ensures
        b == is_whitespace(c),
{
    let n: u32 = c as u32;
    (0x09 <= n && n <= 0x0D) || n == 0x20 || n == 0x85 || n == 0xA0 || n == 0x1680 || (0x2000 <= n
        && n <= 0x200A) || n == 0x2028 || n == 0x2029 || n == 0x202F || n == 0x205F || n == 0x3000
}

/// Collects the characters of `s` into a vector.
pub fn chars_of(s: &str) -> (v: Vec<char>)
    ensures
        v@ == s@,
{
    let mut v: Vec<char> = Vec::new();
    for c in it: s.chars()
        invariant
            v@ == it.seq().take(it.index()),
            it.seq() == s@,
    {
        v.push(c);
    }
    v
}

/// First position in `from..to` whose character is outside `class`, or `to`.
pub fn skip_forward(chars: &Vec<char>, from: usize, to: usize, class: CharClass) -> (r: usize)
    requires
        from <= to <= chars.len(),
    ensures
        from <= r <= to,
        r == from + leading(chars@.subrange(from as int, to as int), class),
{
    let ghost s = chars@.subrange(from as int, to as int);
    let mut r: usize = from;
    while r < to && class.holds(chars[r])
        invariant
            from <= r <= to <= chars.len(),
            s == chars@.subrange(from as int, to as int),
            forall|i: int| 0 <= i < r - from ==> class.has(#[trigger] s[i]),
        decreases to - r,
    {
        r += 1;
    }
    proof {
        lemma_leading_is(s, class, (r - from) as nat);
    }
    r
}

/// End of what is left of `from..to` when the trailing members of `class` are dropped.
pub fn skip_backward(chars: &Vec<char>, from: usize, to: usize, class: CharClass) -> (r: usize)
    requires
        from <= to <= chars.len(),
    ensures
        from <= r <= to,
        r == to - trailing(chars@.subrange(from as int, to as int), class),
{
    let ghost s = chars@.subrange(from as int, to as int);
    let mut r: usize = to;
    while r > from && class.holds(chars[r - 1])
        invariant
            from <= r <= to <= chars.len(),
            s == chars@.subrange(from as int, to as int),
            forall|i: int| r - from <= i < s.len() ==> class.has(#[trigger] s[i]),
        decreases r,
    {
        r -= 1;
    }
    proof {
        lemma_trailing_is(s, class, (to - r) as nat);
    }
    r
}

/// The part of `from..to` that is left when the white space at both ends is dropped.
pub fn trim_range(chars: &Vec<char>, from: usize, to: usize) -> (r: (usize, usize))
    requires
        from <= to <= chars.len(),
    ensures
        from <= r.0 <= r.1 <= to,
        chars@.subrange(r.0 as int, r.1 as int) == trim(chars@.subrange(from as int, to as int)),
{
    let a: usize = skip_forward(chars, from, to, CharClass::Space);
    let b: usize = skip_backward(chars, a, to, CharClass::Space);
    proof {
        let s = chars@.subrange(from as int, to as int);
        assert(trim_start(s) =~= chars@.subrange(a as int, to as int));
        assert(trim_end(chars@.subrange(a as int, to as int)) =~= chars@.subrange(
            a as int,
            b as int,
        ));
    }
    (a, b)
}

/// Whether `pat` stands in `hay` at position `at`.
pub fn matches_at(hay: &Vec<char>, at: usize, pat: &Vec<char>) -> (b: bool)
    requires
        at + pat.len() <= hay.len(),
    ensures
        b == (hay@.subrange(at as int, at + pat.len()) == pat@),
{
    let ghost window = hay@.subrange(at as int, at + pat.len());
    let mut k: usize = 0;
    while k < pat.len()
        invariant
            k <= pat.len(),
            at + pat.len() <= hay.len(),
            window == hay@.subrange(at as int, at + pat.len()),
            forall|j: int| 0 <= j < k ==> window[j] == pat@[j],
        decreases pat.len() - k,
    {
        if hay[at + k] != pat[k] {
            assert(window[k as int] != pat@[k as int]);
            return false;
        }
        k += 1;
    }
    assert(window =~= pat@);
    true
}

/// Whether `pat` occurs somewhere in `hay`.
pub fn contains_chars(hay: &Vec<char>, pat: &Vec<char>) -> (b: bool)
    ensures
        b == contains(hay@, pat@),
{
    if pat.len() > hay.len() {
        return false;
    }
    let last: usize = hay.len() - pat.len();
    let mut at: usize = 0;
    loop
        invariant
            last == hay.len() - pat.len(),
            at <= last,
            forall|i: int| 0 <= i < at ==> #[trigger] hay@.subrange(i, i + pat.len()) != pat@,
        decreases last - at,
    {
        if matches_at(hay, at, pat) {
            return true;
        }
        if at == last {
            return false;
        }
        at += 1;
    }
}

/// Whether two texts are the same.
pub fn same_text(a: &str, b: &str) -> (same: bool)
    ensures
        same == (a@ == b@),
{
    let x = chars_of(a);
    let y = chars_of(b);
    if x.len() != y.len() {
        return false;
    }
    let same = matches_at(&x, 0, &y);
    assert(x@.subrange(0, 0 + y.len()) =~= x@);
    same
}

} // verus!
