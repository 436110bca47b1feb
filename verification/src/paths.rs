//! Paths as they are stored, and paths as people read them.

use crate::text::{
    ascii_lower, chars_of, contains, find, first_at, lemma_first_is_position, lowered, occurs_at,
    position, replace_char, replaced, same_folded, starts_with, tail, text_between, text_of,
};
use vstd::prelude::*;
use vstd::string::StringExecFns;

verus! {

/// The kind of system that a path belongs to.
#[derive(Clone, Copy, PartialEq, Eq, Structural, Debug)]
pub enum Platform {
    Windows,
    Other,
}

/// A path for user-facing display: on Windows without the verbatim prefix, which file access
/// needs on long paths but which looks alien in a dialog.
pub open spec fn shown_path(path: Seq<char>, platform: Platform) -> Seq<char> {
    if platform == Platform::Windows && "\\\\?\\UNC\\"@.is_prefix_of(path) {
        "\\\\"@ + path.skip("\\\\?\\UNC\\"@.len() as int)
    } else if platform == Platform::Windows && "\\\\?\\"@.is_prefix_of(path) {
        path.skip("\\\\?\\"@.len() as int)
    } else {
        path
    }
}

/// Renders a path for display. On Windows `\\?\C:\x` becomes `C:\x` and `\\?\UNC\srv\s`
/// becomes `\\srv\s`; every other path is shown as it is.
pub fn display_path(path: &str, platform: Platform) -> (r: String)
    ensures
        r@ == shown_path(path@, platform),
{
    match platform {
        Platform::Windows => {
            let cs = chars_of(path);
            proof {
                reveal_strlit("\\\\?\\UNC\\");
                reveal_strlit("\\\\?\\");
            }
            if starts_with(&cs, "\\\\?\\UNC\\") {
                let rest = text_between(&cs, 8, cs.len());
                let mut shown = String::from_str("\\\\");
                shown.append(rest.as_str());
                shown
            } else if starts_with(&cs, "\\\\?\\") {
                text_between(&cs, 4, cs.len())
            } else {
                path.to_owned()
            }
        },
        Platform::Other => path.to_owned(),
    }
}

/// The verbatim form of a path on Windows: the prefix, and only backslashes behind it.
pub open spec fn verbatim_form(path: Seq<char>) -> Seq<char> {
    "\\\\?\\"@ + replaced(path, '/', '\\')
}

/// The verbatim form of the absolute path of the data directory on Windows, which lifts the
/// legacy limit on the length of a path; `None` where the path has that form already.
pub fn verbatim_root(path: &str) -> (r: Option<String>)
    ensures
        match r {
            Some(text) => !"\\\\?\\"@.is_prefix_of(path@) && text@ == verbatim_form(path@),
            None => "\\\\?\\"@.is_prefix_of(path@),
        },
{
    let cs = chars_of(path);
    if starts_with(&cs, "\\\\?\\") {
        None
    } else {
        let body = replace_char(path, '/', '\\');
        let mut text = String::from_str("\\\\?\\");
        text.append(text_of(&body).as_str());
        Some(text)
    }
}

/// A path that was given the verbatim form is shown as it was, with backslashes for slashes.
/// The exception is a path that itself begins with `UNC\`.
pub proof fn law_display_undoes_verbatim(path: Seq<char>)
    requires
        !"UNC\\"@.is_prefix_of(replaced(path, '/', '\\')),
    ensures
        shown_path(verbatim_form(path), Platform::Windows) == replaced(path, '/', '\\'),
{
    let body = replaced(path, '/', '\\');
    let whole = verbatim_form(path);
    reveal_strlit("\\\\?\\UNC\\");
    reveal_strlit("\\\\?\\");
    reveal_strlit("UNC\\");
    if "\\\\?\\UNC\\"@.is_prefix_of(whole) {
        assert forall|k: int| 0 <= k < 4 implies "UNC\\"@[k] == body[k] by {
            assert("\\\\?\\UNC\\"@[k + 4] == whole.subrange(0, 8)[k + 4]);
        }
        assert("UNC\\"@ =~= body.subrange(0, 4));
    }
    assert("\\\\?\\"@ =~= whole.subrange(0, 4));
    assert(whole.skip(4) =~= body);
}

/// On Windows the verbatim prefix is taken off whatever stands behind it, and that of a share
/// leaves the two backslashes that a share begins with.
pub proof fn law_verbatim_prefix_is_taken_off(rest: Seq<char>)
    ensures
        !"UNC\\"@.is_prefix_of(rest) ==> shown_path("\\\\?\\"@ + rest, Platform::Windows) == rest,
        shown_path("\\\\?\\UNC\\"@ + rest, Platform::Windows) == "\\\\"@ + rest,
{
    reveal_strlit("\\\\?\\UNC\\");
    reveal_strlit("\\\\?\\");
    reveal_strlit("UNC\\");
    let whole = "\\\\?\\"@ + rest;
    if "\\\\?\\UNC\\"@.is_prefix_of(whole) {
        assert forall|k: int| 0 <= k < 4 implies "UNC\\"@[k] == rest[k] by {
            assert("\\\\?\\UNC\\"@[k + 4] == whole.subrange(0, 8)[k + 4]);
        }
        assert("UNC\\"@ =~= rest.subrange(0, 4));
    }
    assert("\\\\?\\"@ =~= whole.subrange(0, 4));
    assert(whole.skip(4) =~= rest);
    let share = "\\\\?\\UNC\\"@ + rest;
    assert("\\\\?\\UNC\\"@ =~= share.subrange(0, 8));
    assert(share.skip(8) =~= rest);
}

/// The verbatim form is the prefix and then the path, character by character, but for backslashes
/// in place of slashes.
pub proof fn law_verbatim_form(path: Seq<char>, i: int)
    requires
        0 <= i < path.len(),
    ensures
        verbatim_form(path).len() == path.len() + 4,
        "\\\\?\\"@.is_prefix_of(verbatim_form(path)),
        verbatim_form(path)[i + 4] == (if path[i] == '/' {
            '\\'
        } else {
            path[i]
        }),
{
    reveal_strlit("\\\\?\\");
    assert("\\\\?\\"@ =~= verbatim_form(path).subrange(0, 4));
}

/// A path without the verbatim prefix is shown as it is, and so is every path on other systems.
pub proof fn law_display_keeps_ordinary_paths(path: Seq<char>, platform: Platform)
    requires
        platform == Platform::Windows ==> !"\\\\?\\"@.is_prefix_of(path),
    ensures
        shown_path(path, platform) == path,
{
    reveal_strlit("\\\\?\\UNC\\");
    reveal_strlit("\\\\?\\");
    if "\\\\?\\UNC\\"@.is_prefix_of(path) {
        assert forall|k: int| 0 <= k < 4 implies "\\\\?\\"@[k] == path[k] by {
            assert("\\\\?\\UNC\\"@[k] == path.subrange(0, 8)[k]);
        }
        assert("\\\\?\\"@ =~= path.subrange(0, 4));
    }
}

/// The part of a panic location worth showing. A location inside the registry of a package
/// manager, `.../registry/src/<hash>/<crate>/...`, is cut to what follows the hash; any other
/// one is kept. Either way its separators are slashes.
pub open spec fn clean_location(location: Seq<char>) -> Seq<char> {
    let path = replaced(location, '\\', '/');
    match position(path, "/registry/src/"@) {
        Some(i) => {
            let after = path.skip(i + "/registry/src/"@.len());
            match position(after, "/"@) {
                Some(k) => after.skip(k + 1),
                None => path,
            }
        },
        None => path,
    }
}

/// Trims a panic location to its crate-relative tail for display, so that it names the crate
/// without the noise of the registry.
pub fn clean_panic_location(location: &str) -> (r: String)
    ensures
        r@ == clean_location(location@),
{
    let path = replace_char(location, '\\', '/');
    let mark = chars_of("/registry/src/");
    let slash = chars_of("/");
    if let Some(at) = find(&path, &mark) {
        let after = tail(&path, at + mark.len());
        if let Some(k) = find(&after, &slash) {
            assert(k < after@.len()) by {
                reveal_strlit("/");
            }
            return text_between(&after, k + 1, after.len());
        }
    }
    text_of(&path)
}

/// A shown location has no backslash, whatever separators the location came with.
pub proof fn law_clean_location_has_slashes_only(location: Seq<char>)
    ensures
        !clean_location(location).contains('\\'),
{
    let path = replaced(location, '\\', '/');
    assert forall|i: int| 0 <= i < path.len() implies path[i] != '\\' by {}
    lemma_clean_location_is_suffix(location);
    let clean = clean_location(location);
    if clean.contains('\\') {
        let i = choose|i: int| 0 <= i < clean.len() && clean[i] == '\\';
        assert(path[path.len() - clean.len() + i] == '\\');
    }
}

/// A shown location is a tail of the location, separators apart: nothing is made up.
pub proof fn lemma_clean_location_is_suffix(location: Seq<char>)
    ensures
        clean_location(location).is_suffix_of(replaced(location, '\\', '/')),
{
    let path = replaced(location, '\\', '/');
    let mark = "/registry/src/"@;
    reveal_strlit("/");
    assert(path.subrange(0, path.len() as int) =~= path);
    if let Some(i) = position(path, mark) {
        assert(first_at(path, mark, i));
        let after = path.skip(i + mark.len());
        if let Some(k) = position(after, "/"@) {
            assert(first_at(after, "/"@, k));
            let from = i + mark.len() + k + 1;
            assert(after.skip(k + 1) =~= path.subrange(from, path.len() as int));
        }
    }
}

/// A location of one's own code, outside any registry, is kept whole.
pub proof fn law_own_code_is_kept(location: Seq<char>)
    requires
        !contains(replaced(location, '\\', '/'), "/registry/src/"@),
    ensures
        clean_location(location) == replaced(location, '\\', '/'),
{
    let path = replaced(location, '\\', '/');
    if exists|i: int| first_at(path, "/registry/src/"@, i) {
        let i = choose|i: int| first_at(path, "/registry/src/"@, i);
        assert(occurs_at(path, "/registry/src/"@, i));
    }
}

/// A location in the registry is cut to the part from the crate's directory on, whatever its
/// separators are, whatever stands in front of the registry and whatever its hash is. That part
/// is shown with slashes. Only a front that leads into a registry itself is left out.
pub proof fn law_registry_is_cut(
    front: Seq<char>,
    mark: Seq<char>,
    hash: Seq<char>,
    separator: char,
    crate_part: Seq<char>,
)
    requires
        !contains(replaced(front, '\\', '/') + "/"@, "/registry/src/"@),
        replaced(mark, '\\', '/') == "/registry/src/"@,
        !hash.contains('/') && !hash.contains('\\'),
        separator == '/' || separator == '\\',
    ensures
        clean_location(front + mark + hash + seq![separator] + crate_part) == replaced(
            crate_part,
            '\\',
            '/',
        ),
{
    let location = front + mark + hash + seq![separator] + crate_part;
    let path = replaced(location, '\\', '/');
    let head = replaced(front, '\\', '/');
    let shown = replaced(crate_part, '\\', '/');
    let target = "/registry/src/"@;
    reveal_strlit("/registry/src/");
    reveal_strlit("/");
    assert(mark.len() == replaced(mark, '\\', '/').len());
    assert forall|i: int| 0 <= i < hash.len() implies hash[i] != '\\' && hash[i] != '/' by {
        assert(hash.contains(hash[i]));
    }
    assert(path =~= head + target + hash + "/"@ + shown) by {
        assert forall|i: int| 0 <= i < mark.len() implies path[front.len() + i] == target[i] by {
            assert(replaced(mark, '\\', '/')[i] == target[i]);
        }
    }
    let n = head.len() as int;
    assert(path.subrange(n, n + 14) =~= target);
    assert forall|j: int| 0 <= j < n implies !occurs_at(path, target, j) by {
        if occurs_at(path, target, j) {
            let found = path.subrange(j, j + 14);
            let lead = head + "/"@;
            if j + 14 <= n + 1 {
                assert(lead.subrange(j, j + 14) =~= found);
                assert(occurs_at(lead, target, j));
            } else {
                assert(found[n - j] == path[n] && path[n] == target[0]);
                assert(n - j == 9);
                assert(found[10] == path[n + 1] && path[n + 1] == target[1]);
            }
        }
    }
    lemma_first_is_position(path, target, n);
    let after = path.skip(n + 14);
    assert(after =~= hash + "/"@ + shown);
    let m = hash.len() as int;
    assert(after.subrange(m, m + 1) =~= "/"@);
    assert forall|j: int| 0 <= j < m implies !occurs_at(after, "/"@, j) by {
        if occurs_at(after, "/"@, j) {
            assert(after.subrange(j, j + 1)[0] == hash[j]);
        }
    }
    lemma_first_is_position(after, "/"@, m);
    assert(after.skip(m + 1) =~= shown);
}

/// A location that ends inside the registry, before any crate, is kept whole.
pub proof fn law_registry_without_a_crate_is_kept(
    front: Seq<char>,
    mark: Seq<char>,
    rest: Seq<char>,
)
    requires
        replaced(mark, '\\', '/') == "/registry/src/"@,
        !rest.contains('/') && !rest.contains('\\'),
        !contains(replaced(front, '\\', '/') + "/"@, "/registry/src/"@),
    ensures
        clean_location(front + mark + rest) == replaced(front, '\\', '/')
            + "/registry/src/"@ + rest,
{
    let location = front + mark + rest;
    let path = replaced(location, '\\', '/');
    let head = replaced(front, '\\', '/');
    let target = "/registry/src/"@;
    reveal_strlit("/registry/src/");
    reveal_strlit("/");
    assert forall|i: int| 0 <= i < rest.len() implies rest[i] != '\\' && rest[i] != '/' by {
        assert(rest.contains(rest[i]));
    }
    assert(mark.len() == replaced(mark, '\\', '/').len());
    assert(path =~= head + target + rest) by {
        assert forall|i: int| 0 <= i < mark.len() implies path[front.len() + i] == target[i] by {
            assert(replaced(mark, '\\', '/')[i] == target[i]);
        }
    }
    let n = head.len() as int;
    assert(path.subrange(n, n + 14) =~= target);
    assert forall|j: int| 0 <= j < n implies !occurs_at(path, target, j) by {
        if occurs_at(path, target, j) {
            let found = path.subrange(j, j + 14);
            let lead = head + "/"@;
            if j + 14 <= n + 1 {
                assert(lead.subrange(j, j + 14) =~= found);
                assert(occurs_at(lead, target, j));
            } else {
                assert(found[n - j] == path[n] && path[n] == target[0]);
                assert(n - j == 9);
                assert(found[10] == path[n + 1] && path[n + 1] == target[1]);
            }
        }
    }
    lemma_first_is_position(path, target, n);
    let after = path.skip(n + 14);
    assert(after =~= rest);
    if exists|j: int| first_at(after, "/"@, j) {
        let j = choose|j: int| first_at(after, "/"@, j);
        assert(occurs_at(after, "/"@, j));
        assert(after.subrange(j, j + 1)[0] == rest[j]);
    }
}

/// What a path has in front of its last part.
#[derive(Clone, Copy, PartialEq, Eq, Structural, Debug)]
pub enum ParentDir {
    /// There is no parent: the path is a root.
    Missing,
    /// The parent is the empty path: the path is a bare name.
    Empty,
    /// The parent is a directory.
    Named,
}

/// Where the project lies that was asked for on the command line.
#[derive(Clone, Copy, PartialEq, Eq, Structural, Debug)]
pub enum ProjectRoot {
    /// At the path itself.
    Given,
    /// In the directory that holds the path.
    Parent,
    /// In the current directory.
    CurrentDir,
}

/// A path names a project file if it is a file with the extension `koharuproj`, in letters of
/// either case.
pub open spec fn is_project_file(is_file: bool, extension: Option<Seq<char>>) -> bool {
    is_file && extension is Some && lowered(extension->0) == lowered("koharuproj"@)
}

/// A path names a project file if and only if it is a file and its extension has the ten letters
/// of `koharuproj` in order, each in either case.
pub proof fn law_project_files(is_file: bool, extension: Seq<char>)
    ensures
        is_project_file(is_file, Some(extension)) <==> {
            &&& is_file
            &&& extension.len() == 10
            &&& forall|i: int|
                0 <= i < 10 ==> {
                    ||| #[trigger] extension[i] == "koharuproj"@[i]
                    ||| extension[i] as int + 32 == "koharuproj"@[i] as int
                }
        },
        !is_project_file(is_file, None),
{
    reveal_strlit("koharuproj");
    let word = "koharuproj"@;
    assert(lowered(word) =~= word);
    if lowered(extension) == word {
        assert(lowered(extension).len() == extension.len());
        assert forall|i: int| 0 <= i < 10 implies {
            ||| #[trigger] extension[i] == word[i]
            ||| extension[i] as int + 32 == word[i] as int
        } by {
            assert(lowered(extension)[i] == ascii_lower(extension[i]));
        }
    }
    if extension.len() == 10 && forall|i: int|
        0 <= i < 10 ==> {
            ||| #[trigger] extension[i] == word[i]
            ||| extension[i] as int + 32 == word[i] as int
        } {
        assert forall|i: int| 0 <= i < 10 implies lowered(extension)[i] == word[i] by {
            assert(lowered(extension)[i] == ascii_lower(extension[i]));
            assert(extension[i] == word[i] || extension[i] as int + 32 == word[i] as int);
        }
        assert(lowered(extension) =~= word);
    }
}

/// Where to open the project that was asked for: next to a project file, else at the path. A
/// bare file name lies in the current directory, if that is known.
pub fn project_root(
    is_file: bool,
    extension: Option<&str>,
    parent: ParentDir,
    current_dir_known: bool,
) -> (r: ProjectRoot)
    ensures
        r == (if is_project_file(
            is_file,
            match extension {
                Some(e) => Some(e@),
                None => None,
            },
        ) {
            match parent {
                ParentDir::Named => ProjectRoot::Parent,
                _ => if current_dir_known {
                    ProjectRoot::CurrentDir
                } else {
                    ProjectRoot::Given
                },
            }
        } else {
            ProjectRoot::Given
        }),
{
    let is_project = match extension {
        Some(e) => is_file && same_folded(e, "koharuproj"),
        None => false,
    };
    if !is_project {
        return ProjectRoot::Given;
    }
    match parent {
        ParentDir::Named => ProjectRoot::Parent,
        _ => if current_dir_known {
            ProjectRoot::CurrentDir
        } else {
            ProjectRoot::Given
        },
    }
}

} // verus!
