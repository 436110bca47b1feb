//! Text as sequences of characters: the searches, replacements and renderings that the rest of
//! the library is stated in.

use vstd::prelude::*;

verus! {

/// `String::push`: appends one character to the end of the string.
pub assume_specification[ String::push ](s: &mut String, c: char)
    ensures
        final(s)@ == old(s)@.push(c),
;

/// `p` stands in `s` at position `i`.
pub open spec fn occurs_at(s: Seq<char>, p: Seq<char>, i: int) -> bool {
    &&& 0 <= i
    &&& i + p.len() <= s.len()
    &&& s.subrange(i, i + p.len()) == p
}

/// `p` stands somewhere in `s`.
pub open spec fn contains(s: Seq<char>, p: Seq<char>) -> bool {
    exists|i: int| occurs_at(s, p, i)
}

/// `i` is the first position at which `p` stands in `s`.
pub open spec fn first_at(s: Seq<char>, p: Seq<char>, i: int) -> bool {
    &&& occurs_at(s, p, i)
    &&& forall|j: int| 0 <= j < i ==> !occurs_at(s, p, j)
}

/// The first position at which `p` stands in `s`, `None` where it does not.
pub open spec fn position(s: Seq<char>, p: Seq<char>) -> Option<int> {
    if exists|i: int| first_at(s, p, i) {
        Some(choose|i: int| first_at(s, p, i))
    } else {
        None
    }
}

/// What stands between two texts stands in the whole.
pub(crate) proof fn lemma_middle(front: Seq<char>, middle: Seq<char>, back: Seq<char>)
    ensures
        contains(front + middle + back, middle),
{
    let whole = front + middle + back;
    let n = front.len() as int;
    assert(whole.subrange(n, n + middle.len()) =~= middle);
    assert(occurs_at(whole, middle, n));
}

/// `s` with every `from` turned into `to`.
pub open spec fn replaced(s: Seq<char>, from: char, to: char) -> Seq<char> {
    s.map_values(|c: char| if c == from { to } else { c })
}

/// The characters of `s`.
pub(crate) fn chars_of(s: &str) -> (r: Vec<char>)
    ensures
        r@ == s@,
{
    let mut r: Vec<char> = Vec::new();
    for c in it: s.chars()
        invariant
            r@ == it.seq().take(it.index() as int),
            it.seq() == s@,
    {
        r.push(c);
    }
    r
}

/// The text made of the characters of `cs` from position `from` up to `to`.
pub(crate) fn text_between(cs: &Vec<char>, from: usize, to: usize) -> (r: String)
    requires
        from <= to <= cs@.len(),
    ensures
        r@ == cs@.subrange(from as int, to as int),
{
    let mut r: String = String::new();
    let mut i: usize = from;
    while i < to
        invariant
            from <= i <= to <= cs@.len(),
            r@ == cs@.subrange(from as int, i as int),
        decreases to - i,
    {
        r.push(cs[i]);
        i = i + 1;
    }
    r
}

/// Whether `p` stands in `s` at position `i`.
pub(crate) fn is_at(s: &Vec<char>, p: &Vec<char>, i: usize) -> (r: bool)
    ensures
        r == occurs_at(s@, p@, i as int),
{
    if p.len() > s.len() || i > s.len() - p.len() {
        return false;
    }
    let mut k: usize = 0;
    while k < p.len()
        invariant
            k <= p@.len(),
            i + p@.len() <= s@.len() <= usize::MAX,
            forall|j: int| 0 <= j < k ==> s@[i + j] == p@[j],
        decreases p@.len() - k,
    {
        if s[i + k] != p[k] {
            assert(s@.subrange(i as int, i + p@.len())[k as int] != p@[k as int]);
            return false;
        }
        k = k + 1;
    }
    assert(s@.subrange(i as int, i + p@.len()) =~= p@);
    true
}

/// Two first positions are one.
pub(crate) proof fn lemma_first_is_position(s: Seq<char>, p: Seq<char>, i: int)
    requires
        first_at(s, p, i),
    ensures
        position(s, p) == Some(i),
{
    let k = choose|k: int| first_at(s, p, k);
    assert(first_at(s, p, k));
    if k < i {
        assert(!occurs_at(s, p, k));
    } else if i < k {
        assert(!occurs_at(s, p, i));
    }
}

/// The first position of `p` in `s`, if it stands there at all.
pub(crate) fn find(s: &Vec<char>, p: &Vec<char>) -> (r: Option<usize>)
    ensures
        match r {
            Some(i) => {
                &&& position(s@, p@) == Some(i as int)
                &&& occurs_at(s@, p@, i as int)
                &&& i + p.len() <= s.len()
            },
            None => position(s@, p@) is None && !contains(s@, p@),
        },
{
    if p.len() > s.len() {
        return None;
    }
    let last: usize = s.len() - p.len();
    let mut i: usize = 0;
    loop
        invariant
            p@.len() <= s@.len(),
            last == s@.len() - p@.len(),
            i <= last,
            forall|j: int| 0 <= j < i ==> !occurs_at(s@, p@, j),
        decreases last - i,
    {
        if is_at(s, p, i) {
            proof {
                lemma_first_is_position(s@, p@, i as int);
            }
            return Some(i);
        }
        if i == last {
            return None;
        }
        i = i + 1;
    }
}

/// The characters of `cs` from position `from` on.
pub(crate) fn tail(cs: &Vec<char>, from: usize) -> (r: Vec<char>)
    requires
        from <= cs@.len(),
    ensures
        r@ == cs@.skip(from as int),
{
    let mut r: Vec<char> = Vec::new();
    let mut i: usize = from;
    while i < cs.len()
        invariant
            from <= i <= cs@.len(),
            r@ == cs@.subrange(from as int, i as int),
        decreases cs@.len() - i,
    {
        r.push(cs[i]);
        i = i + 1;
    }
    r
}

/// The text made of all the characters of `cs`.
pub(crate) fn text_of(cs: &Vec<char>) -> (r: String)
    ensures
        r@ == cs@,
{
    let r = text_between(cs, 0, cs.len());
    assert(r@ =~= cs@);
    r
}

/// `s` with every `from` turned into `to`.
pub(crate) fn replace_char(s: &str, from: char, to: char) -> (r: Vec<char>)
    ensures
        r@ == replaced(s@, from, to),
{
    let cs = chars_of(s);
    let mut r: Vec<char> = Vec::new();
    let mut i: usize = 0;
    while i < cs.len()
        invariant
            i <= cs@.len(),
            cs@ == s@,
            r@ == replaced(s@.take(i as int), from, to),
        decreases cs@.len() - i,
    {
        let c = cs[i];
        if c == from {
            r.push(to);
        } else {
            r.push(c);
        }
        i = i + 1;
        assert(r@ =~= replaced(s@.take(i as int), from, to));
    }
    assert(s@.take(i as int) =~= s@);
    r
}

/// Whether `s` begins with `p`.
pub(crate) fn starts_with(s: &Vec<char>, p: &str) -> (r: bool)
    ensures
        r == p@.is_prefix_of(s@),
{
    let mark = chars_of(p);
    is_at(s, &mark, 0)
}

/// Whether `s` ends in `p`.
pub(crate) fn ends_with(s: &Vec<char>, p: &str) -> (r: bool)
    ensures
        r == p@.is_suffix_of(s@),
{
    let mark = chars_of(p);
    if mark.len() > s.len() {
        return false;
    }
    is_at(s, &mark, s.len() - mark.len())
}

/// Whether the two texts are the same.
pub(crate) fn same_text(a: &str, b: &str) -> (r: bool)
    ensures
        r == (a@ == b@),
{
    let s = chars_of(a);
    let p = chars_of(b);
    let r = s.len() == p.len() && is_at(&s, &p, 0);
    assert(s@.len() == p@.len() ==> s@.subrange(0, p@.len() as int) =~= s@);
    r
}

/// The lower-case form of an ASCII letter; every other character stays.
pub open spec fn ascii_lower(c: char) -> char {
    if 'A' <= c && c <= 'Z' {
        (c as int + 32) as char
    } else {
        c
    }
}

/// `s` with its ASCII letters in lower case.
pub open spec fn lowered(s: Seq<char>) -> Seq<char> {
    s.map_values(|c: char| ascii_lower(c))
}

/// The lower-case form of an ASCII letter; every other character stays.
pub(crate) fn lower_char(c: char) -> (r: char)
    ensures
        r == ascii_lower(c),
{
    if 'A' <= c && c <= 'Z' {
        (c as u8 + 32) as char
    } else {
        c
    }
}

/// `s` with its ASCII letters in lower case.
pub(crate) fn lower_chars(s: &Vec<char>) -> (r: Vec<char>)
    ensures
        r@ == lowered(s@),
{
    let mut r: Vec<char> = Vec::new();
    let mut i: usize = 0;
    while i < s.len()
        invariant
            i <= s@.len(),
            r@ == lowered(s@.take(i as int)),
        decreases s@.len() - i,
    {
        r.push(lower_char(s[i]));
        i = i + 1;
        assert(r@ =~= lowered(s@.take(i as int)));
    }
    assert(s@.take(i as int) =~= s@);
    r
}

/// Whether the two texts are the same but for the case of ASCII letters.
pub(crate) fn same_folded(a: &str, b: &str) -> (r: bool)
    ensures
        r == (lowered(a@) == lowered(b@)),
{
    let s = lower_chars(&chars_of(a));
    let p = lower_chars(&chars_of(b));
    let r = s.len() == p.len() && is_at(&s, &p, 0);
    assert(s@.len() == p@.len() ==> s@.subrange(0, p@.len() as int) =~= s@);
    r
}

/// The character that stands for one decimal digit.
pub open spec fn digit(d: nat) -> char {
    ('0' as int + d) as char
}

/// `n` in decimal, without leading zeros.
pub open spec fn decimal(n: nat) -> Seq<char>
    decreases n,
{
    if n < 10 {
        seq![digit(n)]
    } else {
        decimal(n / 10).push(digit(n % 10))
    }
}

/// Appends `n` in decimal.
pub(crate) fn push_decimal(s: &mut String, n: u64)
    ensures
        final(s)@ == old(s)@ + decimal(n as nat),
    decreases n,
{
    if n >= 10 {
        push_decimal(s, n / 10);
    }
    let d: u8 = (n % 10) as u8;
    s.push((48 + d) as char);
    assert(s@ =~= old(s)@ + decimal(n as nat));
}

/// White space as Unicode's White_Space property has it.
pub open spec fn is_white(c: char) -> bool {
    ||| '\u{9}' <= c && c <= '\u{d}'
    ||| c == ' '
    ||| c == '\u{85}'
    ||| c == '\u{a0}'
    ||| c == '\u{1680}'
    ||| '\u{2000}' <= c && c <= '\u{200a}'
    ||| c == '\u{2028}'
    ||| c == '\u{2029}'
    ||| c == '\u{202f}'
    ||| c == '\u{205f}'
    ||| c == '\u{3000}'
}

/// Whether `c` is white space by Unicode's White_Space property.
pub fn is_white_space(c: char) -> (r: bool)
    ensures
        r == is_white(c),
{
    ('\u{9}' <= c && c <= '\u{d}') || c == ' ' || c == '\u{85}' || c == '\u{a0}' || c == '\u{1680}'
        || ('\u{2000}' <= c && c <= '\u{200a}') || c == '\u{2028}' || c == '\u{2029}' || c
        == '\u{202f}' || c == '\u{205f}' || c == '\u{3000}'
}

/// `s` without the white space at its beginning.
pub open spec fn trimmed_start(s: Seq<char>) -> Seq<char>
    decreases s.len(),
{
    if s.len() > 0 && is_white(s[0]) {
        trimmed_start(s.drop_first())
    } else {
        s
    }
}

/// `s` without the white space at its end.
pub open spec fn trimmed_end(s: Seq<char>) -> Seq<char>
    decreases s.len(),
{
    if s.len() > 0 && is_white(s.last()) {
        trimmed_end(s.drop_last())
    } else {
        s
    }
}

/// `s` without the white space at its two ends.
pub open spec fn trimmed(s: Seq<char>) -> Seq<char> {
    trimmed_end(trimmed_start(s))
}

/// The text without the white space at its two ends.
pub(crate) fn trim(s: &Vec<char>) -> (r: String)
    ensures
        r@ == trimmed(s@),
{
    let mut from: usize = 0;
    let mut to: usize = s.len();
    assert(s@.subrange(0, to as int) =~= s@);
    while from < to && is_white_space(s[from])
        invariant
            from <= to == s@.len(),
            trimmed_start(s@) == trimmed_start(s@.subrange(from as int, to as int)),
        decreases to - from,
    {
        assert(s@.subrange(from as int, to as int).drop_first() =~= s@.subrange(
            from + 1,
            to as int,
        ));
        from = from + 1;
    }
    while from < to && is_white_space(s[to - 1])
        invariant
            from <= to <= s@.len(),
            trimmed(s@) == trimmed_end(s@.subrange(from as int, to as int)),
        decreases to - from,
    {
        assert(s@.subrange(from as int, to as int).drop_last() =~= s@.subrange(
            from as int,
            to - 1,
        ));
        to = to - 1;
    }
    text_between(s, from, to)
}

/// The lines of `s`: its parts between line feeds.
pub open spec fn lines_of(s: Seq<char>) -> Seq<Seq<char>>
    decreases s.len(),
{
    if s.len() == 0 {
        seq![Seq::<char>::empty()]
    } else {
        let before = lines_of(s.drop_last());
        if s.last() == '\n' {
            before.push(Seq::<char>::empty())
        } else {
            before.drop_last().push(before.last().push(s.last()))
        }
    }
}

/// The lines of `s`, each without the white space at its ends; empty ones are left out.
pub open spec fn trimmed_lines(s: Seq<char>) -> Seq<Seq<char>> {
    lines_of(s).map_values(|line: Seq<char>| trimmed(line)).filter(
        |line: Seq<char>| line.len() > 0,
    )
}

/// What `filter` makes of a sequence with one more item.
pub(crate) proof fn lemma_filter_push<A>(s: Seq<A>, keep: spec_fn(A) -> bool, x: A)
    ensures
        s.push(x).filter(keep) == if keep(x) {
            s.filter(keep).push(x)
        } else {
            s.filter(keep)
        },
{
    reveal(Seq::filter);
    assert(s.push(x).drop_last() =~= s);
}

/// The number that decimal digits stand for.
pub open spec fn value_of(digits: Seq<char>) -> int
    decreases digits.len(),
{
    if digits.len() == 0 {
        0
    } else {
        value_of(digits.drop_last()) * 10 + (digits.last() as int - '0' as int)
    }
}

/// A number in decimal is made of digits alone, has no leading zero but for zero itself, and reads
/// back as the number.
pub proof fn law_decimal_reads_back(n: nat)
    ensures
        value_of(decimal(n)) == n,
        decimal(n).len() > 0,
        forall|i: int| 0 <= i < decimal(n).len() ==> '0' <= #[trigger] decimal(n)[i] <= '9',
        n > 0 ==> decimal(n)[0] != '0',
        n == 0 ==> decimal(n) == seq!['0'],
    decreases n,
{
    if n < 10 {
        let text = decimal(n);
        assert(text.drop_last() =~= Seq::empty());
        assert(value_of(Seq::empty()) == 0);
        assert(text.last() == digit(n));
        assert(value_of(text) == value_of(text.drop_last()) * 10 + n);
    } else {
        law_decimal_reads_back(n / 10);
        let text = decimal(n);
        assert(text.drop_last() =~= decimal(n / 10));
        assert(text.last() == digit(n % 10));
        assert(text[0] == decimal(n / 10)[0]);
    }
}

/// Lower-casing turns the 26 capitals of ASCII into their small letters and nothing else.
pub proof fn law_lower_case(c: char)
    ensures
        65 <= c as int <= 90 ==> ascii_lower(c) as int == c as int + 32,
        !(65 <= c as int <= 90) ==> ascii_lower(c) == c,
        forall|s: Seq<char>, i: int|
            0 <= i < s.len() ==> #[trigger] lowered(s)[i] == ascii_lower(s[i]),
        forall|s: Seq<char>| #[trigger] lowered(s).len() == s.len(),
{
}

/// A replacement changes every occurrence of the one character and nothing else.
pub proof fn law_replacement(s: Seq<char>, from: char, to: char, i: int)
    requires
        0 <= i < s.len(),
    ensures
        replaced(s, from, to).len() == s.len(),
        s[i] == from ==> replaced(s, from, to)[i] == to,
        s[i] != from ==> replaced(s, from, to)[i] == s[i],
{
}

/// `s` is made of white space.
pub open spec fn is_blank(s: Seq<char>) -> bool {
    forall|i: int| 0 <= i < s.len() ==> is_white(#[trigger] s[i])
}

proof fn lemma_trimmed_start(s: Seq<char>)
    ensures
        exists|n: int|
            #![trigger s.skip(n)]
            0 <= n <= s.len() && trimmed_start(s) == s.skip(n) && is_blank(s.take(n)),
        trimmed_start(s).len() > 0 ==> !is_white(trimmed_start(s)[0]),
    decreases s.len(),
{
    if s.len() > 0 && is_white(s[0]) {
        let rest = s.drop_first();
        lemma_trimmed_start(rest);
        let n = choose|n: int|
            #![trigger rest.skip(n)]
            0 <= n <= rest.len() && trimmed_start(rest) == rest.skip(n) && is_blank(rest.take(n));
        assert(rest.skip(n) =~= s.skip(n + 1));
        assert forall|i: int| 0 <= i < s.take(n + 1).len() implies is_white(
            #[trigger] s.take(n + 1)[i],
        ) by {
            if i > 0 {
                assert(rest.take(n)[i - 1] == s[i]);
            }
        }
    } else {
        assert(s.skip(0) =~= s);
        assert(is_blank(s.take(0)));
    }
}

proof fn lemma_trimmed_end(s: Seq<char>)
    ensures
        exists|n: int|
            #![trigger s.take(n)]
            0 <= n <= s.len() && trimmed_end(s) == s.take(n) && is_blank(s.skip(n)),
        trimmed_end(s).len() > 0 ==> !is_white(trimmed_end(s).last()),
    decreases s.len(),
{
    if s.len() > 0 && is_white(s.last()) {
        let rest = s.drop_last();
        lemma_trimmed_end(rest);
        let n = choose|n: int|
            #![trigger rest.take(n)]
            0 <= n <= rest.len() && trimmed_end(rest) == rest.take(n) && is_blank(rest.skip(n));
        assert(rest.take(n) =~= s.take(n));
        assert forall|i: int| 0 <= i < s.skip(n).len() implies is_white(
            #[trigger] s.skip(n)[i],
        ) by {
            if i < rest.len() - n {
                assert(rest.skip(n)[i] == s[n + i]);
            }
        }
    } else {
        assert(s.take(s.len() as int) =~= s);
        assert(is_blank(s.skip(s.len() as int)));
    }
}

/// Trimming takes away white space at the two ends, all of it, and nothing else.
pub proof fn law_trimmed(s: Seq<char>)
    ensures
        exists|lead: Seq<char>, tail: Seq<char>|
            s == #[trigger] (lead + trimmed(s) + tail) && is_blank(lead) && is_blank(tail),
        trimmed(s).len() > 0 ==> !is_white(trimmed(s)[0]) && !is_white(trimmed(s).last()),
{
    lemma_trimmed_start(s);
    let mid = trimmed_start(s);
    lemma_trimmed_end(mid);
    let n = choose|n: int|
        #![trigger s.skip(n)]
        0 <= n <= s.len() && mid == s.skip(n) && is_blank(s.take(n));
    let m = choose|m: int|
        #![trigger mid.take(m)]
        0 <= m <= mid.len() && trimmed_end(mid) == mid.take(m) && is_blank(mid.skip(m));
    let lead = s.take(n);
    let tail = mid.skip(m);
    assert(s =~= lead + trimmed(s) + tail);
    if trimmed(s).len() > 0 {
        assert(trimmed(s)[0] == mid[0]);
    }
}

proof fn lemma_lines_nonempty(s: Seq<char>)
    ensures
        lines_of(s).len() > 0,
    decreases s.len(),
{
    if s.len() > 0 {
        lemma_lines_nonempty(s.drop_last());
    }
}

proof fn lemma_lines_split(first: Seq<char>, rest: Seq<char>)
    ensures
        lines_of(first + seq!['\n'] + rest) == lines_of(first) + lines_of(rest),
    decreases rest.len(),
{
    let all = first + seq!['\n'] + rest;
    if rest.len() == 0 {
        assert(all.drop_last() =~= first);
        assert(lines_of(rest) =~= seq![Seq::<char>::empty()]);
        assert(lines_of(first).push(Seq::<char>::empty()) =~= lines_of(first) + lines_of(rest));
    } else {
        let shorter = rest.drop_last();
        lemma_lines_split(first, shorter);
        lemma_lines_nonempty(shorter);
        assert(all.drop_last() =~= first + seq!['\n'] + shorter);
        assert(all.last() == rest.last());
        let before = lines_of(first) + lines_of(shorter);
        assert(before.last() == lines_of(shorter).last());
        assert(before.drop_last() =~= lines_of(first) + lines_of(shorter).drop_last());
        if rest.last() == '\n' {
            assert(before.push(Seq::<char>::empty()) =~= lines_of(first) + lines_of(shorter).push(
                Seq::<char>::empty(),
            ));
        } else {
            let grown = lines_of(shorter).last().push(rest.last());
            assert(before.drop_last().push(grown) =~= lines_of(first) + lines_of(
                shorter,
            ).drop_last().push(grown));
        }
    }
}

/// Lines are listed one after another: what stands behind a line feed does not bear on what stands
/// in front of it.
pub proof fn law_lines_split(first: Seq<char>, rest: Seq<char>)
    ensures
        trimmed_lines(first + seq!['\n'] + rest) == trimmed_lines(first) + trimmed_lines(rest),
{
    let cut = |line: Seq<char>| trimmed(line);
    let keep = |line: Seq<char>| line.len() > 0;
    lemma_lines_split(first, rest);
    let a = lines_of(first).map_values(cut);
    let b = lines_of(rest).map_values(cut);
    assert((lines_of(first) + lines_of(rest)).map_values(cut) =~= a + b);
    Seq::filter_distributes_over_add(a, b, keep);
}

/// A text without a line feed is one line: it is listed without the white space around it, unless
/// it is blank.
pub proof fn law_one_line(line: Seq<char>)
    requires
        !line.contains('\n'),
    ensures
        trimmed_lines(line) == if trimmed(line).len() > 0 {
            seq![trimmed(line)]
        } else {
            Seq::empty()
        },
{
    lemma_one_line(line);
    let cut = |line: Seq<char>| trimmed(line);
    let keep = |line: Seq<char>| line.len() > 0;
    assert(lines_of(line).map_values(cut) =~= Seq::empty().push(trimmed(line)));
    lemma_filter_push(Seq::empty(), keep, trimmed(line));
    reveal(Seq::filter);
    assert(Seq::<Seq<char>>::empty().filter(keep) =~= Seq::empty());
}

proof fn lemma_one_line(line: Seq<char>)
    requires
        !line.contains('\n'),
    ensures
        lines_of(line) == seq![line],
    decreases line.len(),
{
    if line.len() > 0 {
        let rest = line.drop_last();
        assert forall|i: int| 0 <= i < rest.len() implies rest[i] != '\n' by {
            assert(line.contains(line[i]));
        }
        lemma_one_line(rest);
        assert(line.contains(line.last()));
        assert(rest.push(line.last()) =~= line);
        assert(seq![rest].drop_last().push(line) =~= seq![line]);
    } else {
        assert(line =~= Seq::empty());
    }
}

/// The texts behind strings.
pub open spec fn texts(v: Seq<String>) -> Seq<Seq<char>> {
    v.map_values(|t: String| t@)
}

/// Appends `line`, without the white space at its ends, unless nothing is left of it.
fn push_trimmed(out: &mut Vec<String>, line: &Vec<char>, Ghost(before): Ghost<Seq<Seq<char>>>)
    requires
        texts(old(out)@) == before.map_values(|l: Seq<char>| trimmed(l)).filter(
            |l: Seq<char>| l.len() > 0,
        ),
    ensures
        texts(final(out)@) == before.push(line@).map_values(|l: Seq<char>| trimmed(l)).filter(
            |l: Seq<char>| l.len() > 0,
        ),
{
    let t = trim(line);
    proof {
        let cut = |l: Seq<char>| trimmed(l);
        let keep = |l: Seq<char>| l.len() > 0;
        assert(before.push(line@).map_values(cut) =~= before.map_values(cut).push(t@));
        lemma_filter_push(before.map_values(cut), keep, t@);
    }
    let ghost out_before = out@;
    let ghost t_text = t@;
    if !t.as_str().is_empty() {
        out.push(t);
        assert(texts(out@) =~= texts(out_before).push(t_text));
    }
}

/// The lines of `s`, each without the white space at its ends; empty ones are left out.
pub(crate) fn list_trimmed_lines(s: &str) -> (r: Vec<String>)
    ensures
        texts(r@) == trimmed_lines(s@),
{
    let cs = chars_of(s);
    let mut out: Vec<String> = Vec::new();
    let mut line: Vec<char> = Vec::new();
    let mut i: usize = 0;
    proof {
        reveal(Seq::filter);
        assert(s@.take(0) =~= Seq::<char>::empty());
        assert(texts(out@) =~= Seq::<Seq<char>>::empty());
        assert(lines_of(s@.take(0)).drop_last() =~= Seq::<Seq<char>>::empty());
        assert(Seq::<Seq<char>>::empty().map_values(|l: Seq<char>| trimmed(l)) =~= Seq::<
            Seq<char>,
        >::empty());
    }
    while i < cs.len()
        invariant
            i <= cs@.len(),
            cs@ == s@,
            lines_of(s@.take(i as int)).len() > 0,
            line@ == lines_of(s@.take(i as int)).last(),
            texts(out@) == lines_of(s@.take(i as int)).drop_last().map_values(
                |l: Seq<char>| trimmed(l),
            ).filter(|l: Seq<char>| l.len() > 0),
        decreases cs@.len() - i,
    {
        let ghost before = lines_of(s@.take(i as int));
        assert(s@.take(i + 1).drop_last() =~= s@.take(i as int));
        if cs[i] == '\n' {
            push_trimmed(&mut out, &line, Ghost(before.drop_last()));
            assert(before.drop_last().push(line@) =~= before);
            assert(before.push(Seq::<char>::empty()).drop_last() =~= before);
            line = Vec::new();
        } else {
            line.push(cs[i]);
            assert(before.drop_last().push(line@).drop_last() =~= before.drop_last());
        }
        i = i + 1;
    }
    let ghost before = lines_of(s@);
    assert(s@.take(i as int) =~= s@);
    push_trimmed(&mut out, &line, Ghost(before.drop_last()));
    assert(before.drop_last().push(line@) =~= before);
    out
}

} // verus!
