//! Which stale files a start of the program sweeps away.

use crate::text::{
    ascii_lower, chars_of, contains, ends_with, find, lemma_filter_push, lower_chars, lowered,
    occurs_at, starts_with,
};
use vstd::prelude::*;

verus! {

/// The name of a file that a cleaner or uninstaller could not delete at once and renamed
/// instead. The marks are those of:
///
/// - IObit: `_IObitDel`, possibly several times over;
/// - Revo Uninstaller: `_rbu` at the end of the name or of a part of it before a dot;
/// - FileASSASSIN and MoveFile: one of the extensions `.$$$`, `.$$` and `.$`;
/// - old Windows Installer clean-ups: `~` in front.
///
/// Letters count in either case. (Lower-casing turns no character outside ASCII into a letter
/// of these marks next to another one, so only ASCII letters need folding.)
pub open spec fn is_cleaner_mark(name: Seq<char>) -> bool {
    let lower = lowered(name);
    ||| contains(lower, "iobitdel"@)
    ||| contains(lower, "_rbu."@)
    ||| "_rbu"@.is_suffix_of(lower)
    ||| ".$$$"@.is_suffix_of(lower)
    ||| ".$$"@.is_suffix_of(lower)
    ||| ".$"@.is_suffix_of(lower)
    ||| "~"@.is_prefix_of(name)
}

/// Whether a file of this name was left behind by a cleaner tool.
pub fn is_cleaner_temp(name: &str) -> (r: bool)
    ensures
        r == is_cleaner_mark(name@),
{
    let cs = chars_of(name);
    let lower = lower_chars(&cs);
    find(&lower, &chars_of("iobitdel")).is_some() || find(&lower, &chars_of("_rbu.")).is_some()
        || ends_with(&lower, "_rbu") || ends_with(&lower, ".$$$") || ends_with(&lower, ".$$")
        || ends_with(&lower, ".$") || starts_with(&cs, "~")
}

/// The name of a file that a crash or a write cut short left in the data directory.
pub open spec fn is_temp_name(name: Seq<char>) -> bool {
    let lower = lowered(name);
    ".json.tmp"@.is_suffix_of(lower) || ".tmp"@.is_suffix_of(lower)
}

/// Whether a directory entry is a stale temporary file of the program itself.
pub fn is_app_temp(is_file: bool, name: &str) -> (r: bool)
    ensures
        r == (is_file && is_temp_name(name@)),
{
    if !is_file {
        return false;
    }
    let lower = lower_chars(&chars_of(name));
    ends_with(&lower, ".json.tmp") || ends_with(&lower, ".tmp")
}

/// `c` is the letter `small` in either case.
pub open spec fn is_letter(c: char, small: char) -> bool {
    c == small || c as int + 32 == small as int
}

/// A name is that of a temporary file if and only if its last four characters are a dot and the
/// letters of `tmp`, in either case. So no name with another ending is swept, whatever else is in
/// it.
pub proof fn law_temporary_names_end_in_tmp(name: Seq<char>)
    ensures
        is_temp_name(name) <==> {
            let n = name.len() as int;
            &&& n >= 4
            &&& name[n - 4] == '.'
            &&& is_letter(name[n - 3], 't')
            &&& is_letter(name[n - 2], 'm')
            &&& is_letter(name[n - 1], 'p')
        },
{
    let lower = lowered(name);
    let n = name.len() as int;
    reveal_strlit(".tmp");
    reveal_strlit(".json.tmp");
    assert(lower.len() == n);
    if n >= 4 {
        let tail = lower.subrange(n - 4, n);
        assert(tail[0] == ascii_lower(name[n - 4]));
        assert(tail[1] == ascii_lower(name[n - 3]));
        assert(tail[2] == ascii_lower(name[n - 2]));
        assert(tail[3] == ascii_lower(name[n - 1]));
        if ".json.tmp"@.is_suffix_of(lower) {
            let long = lower.subrange(n - 9, n);
            assert(long[5] == tail[0] && long[6] == tail[1] && long[7] == tail[2] && long[8]
                == tail[3]);
        }
        if tail[0] == '.' && tail[1] == 't' && tail[2] == 'm' && tail[3] == 'p' {
            assert(tail =~= ".tmp"@);
        }
    }
}

/// A name with `.tmp` behind it is always that of a temporary file, and a name that ends in a
/// letter which `tmp` does not end in never is.
pub proof fn law_tmp_makes_a_temporary_name(front: Seq<char>, last: char)
    ensures
        is_temp_name(front + ".tmp"@),
        is_temp_name(front + ".json.tmp"@),
        !is_letter(last, 'p') ==> !is_temp_name(front.push(last)),
{
    reveal_strlit(".tmp");
    reveal_strlit(".json.tmp");
    law_temporary_names_end_in_tmp(front + ".tmp"@);
    law_temporary_names_end_in_tmp(front + ".json.tmp"@);
    law_temporary_names_end_in_tmp(front.push(last));
}

/// An entry of a directory.
pub struct DirEntry {
    pub is_file: bool,
    pub name: String,
}

/// `picked` lists, in order and once each, the positions below `len` that `wanted` holds of.
pub open spec fn picks(picked: Seq<usize>, len: int, wanted: spec_fn(int) -> bool) -> bool {
    &&& forall|a: int, b: int| 0 <= a < b < picked.len() ==> picked[a] < picked[b]
    &&& forall|a: int|
        0 <= a < picked.len() ==> picked[a] < len && wanted(#[trigger] picked[a] as int)
    &&& forall|i: int|
        0 <= i < len && #[trigger] wanted(i) ==> exists|a: int|
            0 <= a < picked.len() && #[trigger] picked[a] == i
}

/// Which entries of the library directory to remove, by their positions: those that a cleaner
/// tool left behind.
pub fn cleanup_cleaner_temp_files(names: &Vec<String>) -> (r: Vec<usize>)
    ensures
        picks(r@, names@.len() as int, |i: int| is_cleaner_mark(names@[i]@)),
{
    let mut r: Vec<usize> = Vec::new();
    let mut i: usize = 0;
    let ghost wanted = |i: int| is_cleaner_mark(names@[i]@);
    while i < names.len()
        invariant
            i <= names@.len(),
            wanted == (|i: int| is_cleaner_mark(names@[i]@)),
            picks(r@, i as int, wanted),
        decreases names@.len() - i,
    {
        let ghost before = r@;
        if is_cleaner_temp(names[i].as_str()) {
            r.push(i);
        }
        proof {
            lemma_picks_next(before, r@, i, wanted);
        }
        i = i + 1;
    }
    r
}

/// Which entries of the data directory to remove, by their positions: the stale temporary
/// files.
pub fn cleanup_app_temp_files(entries: &Vec<DirEntry>) -> (r: Vec<usize>)
    ensures
        picks(
            r@,
            entries@.len() as int,
            |i: int| entries@[i].is_file && is_temp_name(entries@[i].name@),
        ),
{
    let mut r: Vec<usize> = Vec::new();
    let mut i: usize = 0;
    let ghost wanted = |i: int| entries@[i].is_file && is_temp_name(entries@[i].name@);
    while i < entries.len()
        invariant
            i <= entries@.len(),
            wanted == (|i: int| entries@[i].is_file && is_temp_name(entries@[i].name@)),
            picks(r@, i as int, wanted),
        decreases entries@.len() - i,
    {
        let ghost before = r@;
        if is_app_temp(entries[i].is_file, entries[i].name.as_str()) {
            r.push(i);
        }
        proof {
            lemma_picks_next(before, r@, i, wanted);
        }
        i = i + 1;
    }
    r
}

/// One more position, taken where it is wanted.
proof fn lemma_picks_next(
    before: Seq<usize>,
    after: Seq<usize>,
    i: usize,
    wanted: spec_fn(int) -> bool,
)
    requires
        picks(before, i as int, wanted),
        after == if wanted(i as int) {
            before.push(i)
        } else {
            before
        },
    ensures
        picks(after, i + 1, wanted),
{
    assert forall|k: int| 0 <= k < i + 1 && #[trigger] wanted(k) implies exists|a: int|
        0 <= a < after.len() && #[trigger] after[a] == k by {
        if k == i {
            assert(after[after.len() - 1] == k);
        } else {
            let a = choose|a: int| 0 <= a < before.len() && #[trigger] before[a] == k;
            assert(after[a] == k);
        }
    }
}

/// What an entry of a directory is: a file with its bytes, or a directory with its entries.
pub enum Node {
    File(Seq<u8>),
    Dir(Seq<Item>),
}

/// An entry of a directory.
pub struct Item {
    pub name: Seq<char>,
    pub node: Node,
}

/// Whether an entry goes when its removal is tried as that of a file: a directory never does, and
/// `can` tells which files can be removed at all.
pub open spec fn goes(item: Item, can: spec_fn(Item) -> bool) -> bool {
    item.node is File && can(item)
}

/// The positions that are gone once the removal of each picked entry was tried, one after
/// another.
pub open spec fn gone(items: Seq<Item>, picked: Seq<usize>, can: spec_fn(Item) -> bool) -> Set<int>
    decreases picked.len(),
{
    if picked.len() == 0 {
        Set::empty()
    } else {
        let before = gone(items, picked.drop_last(), can);
        let at = picked.last() as int;
        if goes(items[at], can) {
            before.insert(at)
        } else {
            before
        }
    }
}

/// The first `n` entries but for those at the positions in `out`.
pub open spec fn kept(items: Seq<Item>, out: Set<int>, n: nat) -> Seq<Item>
    decreases n,
{
    if n == 0 {
        Seq::empty()
    } else {
        let before = kept(items, out, (n - 1) as nat);
        if out.contains(n - 1) {
            before
        } else {
            before.push(items[n - 1])
        }
    }
}

/// What is left of a directory once the removal of each picked entry was tried.
pub open spec fn left_over(
    items: Seq<Item>,
    picked: Seq<usize>,
    can: spec_fn(Item) -> bool,
) -> Seq<Item> {
    kept(items, gone(items, picked, can), items.len())
}

proof fn lemma_gone(items: Seq<Item>, picked: Seq<usize>, can: spec_fn(Item) -> bool, i: int)
    ensures
        gone(items, picked, can).contains(i) <==> goes(items[i], can) && exists|a: int|
            0 <= a < picked.len() && #[trigger] picked[a] == i,
    decreases picked.len(),
{
    if picked.len() > 0 {
        let rest = picked.drop_last();
        lemma_gone(items, rest, can, i);
        if exists|a: int| 0 <= a < picked.len() && #[trigger] picked[a] == i {
            let a = choose|a: int| 0 <= a < picked.len() && #[trigger] picked[a] == i;
            if a < rest.len() {
                assert(rest[a] == i);
            }
        }
        if exists|a: int| 0 <= a < rest.len() && #[trigger] rest[a] == i {
            let a = choose|a: int| 0 <= a < rest.len() && #[trigger] rest[a] == i;
            assert(picked[a] == i);
        }
        if picked.last() == i {
            assert(picked[picked.len() - 1] == i);
        }
    }
}

/// What is left is what a look at each entry by itself leaves: no removal, failed or not, has
/// a bearing on another.
proof fn lemma_kept(
    items: Seq<Item>,
    picked: Seq<usize>,
    can: spec_fn(Item) -> bool,
    wanted: spec_fn(Item) -> bool,
    n: nat,
)
    requires
        picks(picked, items.len() as int, |i: int| wanted(items[i])),
        n <= items.len(),
    ensures
        kept(items, gone(items, picked, can), n) == items.take(n as int).filter(
            |item: Item| !(wanted(item) && goes(item, can)),
        ),
    decreases n,
{
    let stays = |item: Item| !(wanted(item) && goes(item, can));
    let at_wanted = |i: int| wanted(items[i]);
    if n == 0 {
        reveal(Seq::filter);
        assert(items.take(0) =~= Seq::empty());
    } else {
        let last = n - 1;
        lemma_kept(items, picked, can, wanted, last as nat);
        lemma_gone(items, picked, can, last);
        assert(items.take(n as int) =~= items.take(last).push(items[last]));
        lemma_filter_push(items.take(last), stays, items[last]);
        if wanted(items[last]) {
            assert(at_wanted(last));
        }
        if exists|a: int| 0 <= a < picked.len() && #[trigger] picked[a] == last {
            let a = choose|a: int| 0 <= a < picked.len() && #[trigger] picked[a] == last;
            assert(at_wanted(picked[a] as int));
        }
    }
}

/// A sequence that is all to be kept is kept whole.
proof fn lemma_filter_all(items: Seq<Item>, stays: spec_fn(Item) -> bool)
    requires
        forall|i: int| 0 <= i < items.len() ==> stays(#[trigger] items[i]),
    ensures
        items.filter(stays) == items,
    decreases items.len(),
{
    reveal(Seq::filter);
    if items.len() > 0 {
        let rest = items.drop_last();
        assert forall|i: int| 0 <= i < rest.len() implies stays(#[trigger] rest[i]) by {
            assert(rest[i] == items[i]);
        }
        lemma_filter_all(rest, stays);
        assert(stays(items[items.len() - 1]));
        assert(rest.push(items.last()) =~= items);
    }
}

/// The names that were listed are those of the entries.
pub open spec fn lists(names: Seq<String>, items: Seq<Item>) -> bool {
    &&& names.len() == items.len()
    &&& forall|i: int| 0 <= i < names.len() ==> (#[trigger] names[i])@ == items[i].name
}

/// What is wanted beyond the end of a list is of no account.
proof fn lemma_picks_same(
    picked: Seq<usize>,
    len: int,
    wanted: spec_fn(int) -> bool,
    other: spec_fn(int) -> bool,
)
    requires
        picks(picked, len, wanted),
        forall|i: int| 0 <= i < len ==> #[trigger] wanted(i) == other(i),
    ensures
        picks(picked, len, other),
{
    assert forall|a: int| 0 <= a < picked.len() implies picked[a] < len && other(
        #[trigger] picked[a] as int,
    ) by {
        assert(wanted(picked[a] as int));
    }
    assert forall|i: int| 0 <= i < len && #[trigger] other(i) implies exists|a: int|
        0 <= a < picked.len() && #[trigger] picked[a] == i by {
        assert(wanted(i));
    }
}

/// What a sweep of the library directory leaves: everything but the files with a mark of a
/// cleaner tool that can be removed. A directory stays whatever its name is, with all that is
/// below it, and so does a file without a mark; a file that cannot be removed keeps no other one
/// from going. Where nothing is listed, the directory being missing or unreadable, nothing
/// changes.
pub proof fn law_sweep_takes_marked_files_only(
    items: Seq<Item>,
    names: Seq<String>,
    picked: Seq<usize>,
    can: spec_fn(Item) -> bool,
)
    requires
        lists(names, items),
        picks(picked, names.len() as int, |i: int| is_cleaner_mark(names[i]@)),
    ensures
        left_over(items, picked, can) == items.filter(
            |item: Item| !(is_cleaner_mark(item.name) && item.node is File && can(item)),
        ),
        forall|item: Item|
            #![trigger items.contains(item)]
            items.contains(item) && (item.node is Dir || !is_cleaner_mark(item.name))
                ==> left_over(items, picked, can).contains(item),
        items.len() == 0 ==> left_over(items, picked, can) == items,
{
    let wanted = |item: Item| is_cleaner_mark(item.name);
    let stays = |item: Item| !(wanted(item) && goes(item, can));
    let plain = |item: Item| !(is_cleaner_mark(item.name) && item.node is File && can(item));
    let listed = |i: int| is_cleaner_mark(names[i]@);
    let there = |i: int| wanted(items[i]);
    assert forall|i: int| 0 <= i < items.len() implies #[trigger] listed(i) == there(i) by {
        assert(names[i]@ == items[i].name);
    }
    lemma_picks_same(picked, items.len() as int, listed, there);
    lemma_kept(items, picked, can, wanted, items.len());
    assert(items.take(items.len() as int) =~= items);
    assert(stays =~= plain);
    assert forall|item: Item|
        #![trigger items.contains(item)]
        items.contains(item) && (item.node is Dir || !is_cleaner_mark(item.name)) implies left_over(
        items,
        picked,
        can,
    ).contains(item) by {
        let i = choose|i: int| 0 <= i < items.len() && items[i] == item;
        items.lemma_filter_contains(stays, i);
    }
    if items.len() == 0 {
        lemma_filter_all(items, stays);
    }
}

/// A second sweep removes nothing more: what the first one has left stays as it is, as long as
/// the same files can be removed.
pub proof fn law_second_sweep_finds_nothing(
    items: Seq<Item>,
    names: Seq<String>,
    picked: Seq<usize>,
    names_again: Seq<String>,
    picked_again: Seq<usize>,
    can: spec_fn(Item) -> bool,
)
    requires
        lists(names, items),
        picks(picked, names.len() as int, |i: int| is_cleaner_mark(names[i]@)),
        lists(names_again, left_over(items, picked, can)),
        picks(
            picked_again,
            names_again.len() as int,
            |i: int| is_cleaner_mark(names_again[i]@),
        ),
    ensures
        left_over(left_over(items, picked, can), picked_again, can) == left_over(
            items,
            picked,
            can,
        ),
{
    let left = left_over(items, picked, can);
    let plain = |item: Item| !(is_cleaner_mark(item.name) && item.node is File && can(item));
    law_sweep_takes_marked_files_only(items, names, picked, can);
    law_sweep_takes_marked_files_only(left, names_again, picked_again, can);
    assert forall|i: int| 0 <= i < left.len() implies plain(#[trigger] left[i]) by {
        items.lemma_filter_pred(plain, i);
    }
    lemma_filter_all(left, plain);
}

/// What a sweep of the data directory leaves: everything but the files whose names end in `.tmp`
/// and that can be removed. Directories stay, and so does every file with another name.
pub proof fn law_app_sweep_takes_temporary_files_only(
    items: Seq<Item>,
    entries: Seq<DirEntry>,
    picked: Seq<usize>,
    can: spec_fn(Item) -> bool,
)
    requires
        entries.len() == items.len(),
        forall|i: int|
            0 <= i < entries.len() ==> (#[trigger] entries[i]).name@ == items[i].name
                && entries[i].is_file == (items[i].node is File),
        picks(
            picked,
            entries.len() as int,
            |i: int| entries[i].is_file && is_temp_name(entries[i].name@),
        ),
    ensures
        left_over(items, picked, can) == items.filter(
            |item: Item| !(is_temp_name(item.name) && item.node is File && can(item)),
        ),
{
    let wanted = |item: Item| item.node is File && is_temp_name(item.name);
    let stays = |item: Item| !(wanted(item) && goes(item, can));
    let plain = |item: Item| !(is_temp_name(item.name) && item.node is File && can(item));
    let listed = |i: int| entries[i].is_file && is_temp_name(entries[i].name@);
    let there = |i: int| wanted(items[i]);
    assert forall|i: int| 0 <= i < items.len() implies #[trigger] listed(i) == there(i) by {
        assert(entries[i].name@ == items[i].name);
    }
    lemma_picks_same(picked, items.len() as int, listed, there);
    lemma_kept(items, picked, can, wanted, items.len());
    assert(items.take(items.len() as int) =~= items);
    assert(stays =~= plain);
}

/// `word` stands in `name` at position `i`, the case of letters apart.
pub open spec fn has_word_at(name: Seq<char>, word: Seq<char>, i: int) -> bool {
    &&& 0 <= i <= name.len() - word.len()
    &&& forall|j: int|
        0 <= j < word.len() ==> ascii_lower(#[trigger] name[i + j]) == word[j]
}

/// A name ends in a dot and then `n` dollar signs.
pub open spec fn ends_in_dollars(name: Seq<char>, n: int) -> bool {
    &&& name.len() > n
    &&& name[name.len() - n - 1] == '.'
    &&& forall|j: int| name.len() - n <= j < name.len() ==> #[trigger] name[j] == '$'
}

proof fn lemma_word(name: Seq<char>, word: Seq<char>, i: int)
    ensures
        occurs_at(lowered(name), word, i) <==> has_word_at(name, word, i),
{
    let lower = lowered(name);
    if occurs_at(lower, word, i) {
        assert forall|j: int| 0 <= j < word.len() implies ascii_lower(#[trigger] name[i + j])
            == word[j] by {
            assert(lower.subrange(i, i + word.len())[j] == lower[i + j]);
        }
    }
    if has_word_at(name, word, i) {
        assert forall|j: int| 0 <= j < word.len() implies lower.subrange(
            i,
            i + word.len(),
        )[j] == word[j] by {
            assert(lower[i + j] == ascii_lower(name[i + j]));
        }
        assert(lower.subrange(i, i + word.len()) =~= word);
    }
}

proof fn lemma_dollars(name: Seq<char>)
    ensures
        ".$"@.is_suffix_of(lowered(name)) <==> ends_in_dollars(name, 1),
        ".$$"@.is_suffix_of(lowered(name)) <==> ends_in_dollars(name, 2),
        ".$$$"@.is_suffix_of(lowered(name)) <==> ends_in_dollars(name, 3),
{
    reveal_strlit(".$");
    reveal_strlit(".$$");
    reveal_strlit(".$$$");
    lemma_suffix_of_dollars(name, ".$"@, 1);
    lemma_suffix_of_dollars(name, ".$$"@, 2);
    lemma_suffix_of_dollars(name, ".$$$"@, 3);
}

proof fn lemma_suffix_of_dollars(name: Seq<char>, mark: Seq<char>, n: int)
    requires
        1 <= n,
        mark.len() == n + 1,
        mark[0] == '.',
        forall|j: int| 1 <= j <= n ==> mark[j] == '$',
    ensures
        mark.is_suffix_of(lowered(name)) <==> ends_in_dollars(name, n),
{
    let lower = lowered(name);
    let len = name.len() as int;
    if len > n {
        let from = len - n - 1;
        let tail = lower.subrange(from, len);
        assert forall|j: int| 0 <= j <= n implies tail[j] == ascii_lower(name[from + j]) by {}
        if mark.is_suffix_of(lower) {
            assert(tail =~= mark);
            assert(tail[0] == '.');
            assert forall|j: int| len - n <= j < len implies #[trigger] name[j] == '$' by {
                assert(tail[j - from] == mark[j - from]);
            }
        }
        if ends_in_dollars(name, n) {
            assert forall|j: int| 0 <= j <= n implies tail[j] == mark[j] by {
                if j > 0 {
                    assert(name[from + j] == '$');
                }
            }
            assert(tail =~= mark);
        }
    }
}

/// A name bears the mark of a cleaner tool if and only if it has `iobitdel` in it, or `_rbu` at
/// its end or in front of a dot, the case of letters apart, or ends in a dot and one to three
/// dollar signs, or begins with a tilde.
pub proof fn law_marks_of_cleaner_tools(name: Seq<char>)
    ensures
        is_cleaner_mark(name) <==> {
            ||| exists|i: int| #[trigger] has_word_at(name, "iobitdel"@, i)
            ||| exists|i: int| #[trigger]
                has_word_at(name, "_rbu"@, i) && (i + 4 == name.len() || name[i + 4] == '.')
            ||| exists|n: int| 1 <= n <= 3 && #[trigger] ends_in_dollars(name, n)
            ||| name.len() > 0 && name[0] == '~'
        },
{
    let lower = lowered(name);
    let len = name.len() as int;
    reveal_strlit("_rbu.");
    reveal_strlit("_rbu");
    reveal_strlit("~");
    lemma_dollars(name);
    assert forall|i: int| occurs_at(lower, "iobitdel"@, i) <==> #[trigger] has_word_at(
        name,
        "iobitdel"@,
        i,
    ) by {
        lemma_word(name, "iobitdel"@, i);
    }
    if contains(lower, "iobitdel"@) {
        let i = choose|i: int| occurs_at(lower, "iobitdel"@, i);
        assert(has_word_at(name, "iobitdel"@, i));
    }
    if exists|i: int| #[trigger] has_word_at(name, "iobitdel"@, i) {
        let i = choose|i: int| #[trigger] has_word_at(name, "iobitdel"@, i);
        assert(occurs_at(lower, "iobitdel"@, i));
    }
    if contains(lower, "_rbu."@) {
        let i = choose|i: int| occurs_at(lower, "_rbu."@, i);
        lemma_word(name, "_rbu."@, i);
        assert forall|j: int| 0 <= j < 4 implies ascii_lower(#[trigger] name[i + j])
            == "_rbu"@[j] by {
            assert(ascii_lower(name[i + j]) == "_rbu."@[j]);
        }
        assert(ascii_lower(name[i + 4]) == "_rbu."@[4]);
        assert(has_word_at(name, "_rbu"@, i) && name[i + 4] == '.');
    }
    if "_rbu"@.is_suffix_of(lower) {
        lemma_word(name, "_rbu"@, len - 4);
        assert(has_word_at(name, "_rbu"@, len - 4));
    }
    if exists|i: int| #[trigger]
        has_word_at(name, "_rbu"@, i) && (i + 4 == name.len() || name[i + 4] == '.') {
        let i = choose|i: int| #[trigger]
            has_word_at(name, "_rbu"@, i) && (i + 4 == name.len() || name[i + 4] == '.');
        if i + 4 == len {
            lemma_word(name, "_rbu"@, i);
        } else {
            assert forall|j: int| 0 <= j < 5 implies ascii_lower(#[trigger] name[i + j])
                == "_rbu."@[j] by {
                if j < 4 {
                    assert(ascii_lower(name[i + j]) == "_rbu"@[j]);
                }
            }
            lemma_word(name, "_rbu."@, i);
            assert(occurs_at(lower, "_rbu."@, i));
        }
    }
    if exists|n: int| 1 <= n <= 3 && #[trigger] ends_in_dollars(name, n) {
        let n = choose|n: int| 1 <= n <= 3 && #[trigger] ends_in_dollars(name, n);
        assert(n == 1 || n == 2 || n == 3);
    }
    if ".$"@.is_suffix_of(lower) {
        assert(ends_in_dollars(name, 1));
    }
    if ".$$"@.is_suffix_of(lower) {
        assert(ends_in_dollars(name, 2));
    }
    if ".$$$"@.is_suffix_of(lower) {
        assert(ends_in_dollars(name, 3));
    }
    if name.len() > 0 {
        assert(name.subrange(0, 1)[0] == name[0]);
        if name[0] == '~' {
            assert(name.subrange(0, 1) =~= "~"@);
        }
    }
}

/// `name` with the mark of IObit behind it, `times` times over.
pub open spec fn renamed_by_iobit(name: Seq<char>, times: nat) -> Seq<char>
    decreases times,
{
    if times == 0 {
        name
    } else {
        renamed_by_iobit(name, (times - 1) as nat) + "_IObitDel"@
    }
}

/// A file that IObit renamed is swept away, whatever its name was and however often the tool
/// came by.
pub proof fn law_iobit_copies_are_swept(name: Seq<char>, times: nat)
    requires
        times > 0,
    ensures
        is_cleaner_mark(renamed_by_iobit(name, times)),
{
    let front = renamed_by_iobit(name, (times - 1) as nat);
    let whole = front + "_IObitDel"@;
    reveal_strlit("_IObitDel");
    reveal_strlit("iobitdel");
    let at = front.len() as int + 1;
    assert(lowered(whole).subrange(at, at + 8) =~= "iobitdel"@);
    assert(occurs_at(lowered(whole), "iobitdel"@, at));
}

/// Whether a name is swept away does not depend on the case of its letters.
pub proof fn law_case_is_of_no_account(a: Seq<char>, b: Seq<char>)
    requires
        lowered(a) == lowered(b),
    ensures
        is_cleaner_mark(a) == is_cleaner_mark(b),
        is_temp_name(a) == is_temp_name(b),
{
    reveal_strlit("~");
    assert(a.len() == lowered(a).len() && b.len() == lowered(b).len());
    if a.len() > 0 {
        assert(ascii_lower(a[0]) == lowered(a)[0] && ascii_lower(b[0]) == lowered(b)[0]);
        assert(a[0] == '~' <==> b[0] == '~');
        assert(a.subrange(0, 1) =~= seq![a[0]]);
        assert(b.subrange(0, 1) =~= seq![b[0]]);
        assert("~"@ =~= seq!['~']);
        assert(seq![a[0]][0] == a[0] && seq![b[0]][0] == b[0]);
    }
}

/// A name without any of the marks' special characters, such as that of an ordinary library, is
/// never swept away.
pub proof fn law_ordinary_names_stay(name: Seq<char>)
    requires
        !name.contains('_'),
        !name.contains('$'),
        !name.contains('~'),
        !contains(lowered(name), "iobitdel"@),
    ensures
        !is_cleaner_mark(name),
{
    let lower = lowered(name);
    reveal_strlit("_rbu.");
    reveal_strlit("_rbu");
    reveal_strlit(".$$$");
    reveal_strlit(".$$");
    reveal_strlit(".$");
    reveal_strlit("~");
    assert forall|i: int| 0 <= i < lower.len() implies lower[i] != '_' && lower[i] != '$' by {
        assert(name.contains(name[i]));
    }
    if contains(lower, "_rbu."@) {
        let i = choose|i: int| occurs_at(lower, "_rbu."@, i);
        assert(lower.subrange(i, i + 5)[0] == lower[i]);
    }
    let n = lower.len() as int;
    if "_rbu"@.is_suffix_of(lower) {
        assert(lower.subrange(n - 4, n)[0] == lower[n - 4]);
    }
    if ".$$$"@.is_suffix_of(lower) {
        assert(lower.subrange(n - 4, n)[3] == lower[n - 1]);
    }
    if ".$$"@.is_suffix_of(lower) {
        assert(lower.subrange(n - 3, n)[2] == lower[n - 1]);
    }
    if ".$"@.is_suffix_of(lower) {
        assert(lower.subrange(n - 2, n)[1] == lower[n - 1]);
    }
    if "~"@.is_prefix_of(name) {
        assert(name.subrange(0, 1)[0] == name[0]);
        assert(name.contains(name[0]));
    }
}

} // verus!
