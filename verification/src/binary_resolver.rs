//! Finding a standalone Oxlint or Oxfmt among the project directories that
//! the resolver script reports.
use vstd::prelude::*;
use crate::json::{Json, JsonValue, member_or_null};

verus! {

/// `package[key][name]` is a non-empty string.
pub open spec fn declares_under(package: JsonValue, key: Seq<char>, name: Seq<char>) -> bool {
    member_or_null(member_or_null(package, key), name) matches JsonValue::Str(v) && v.len() > 0
}

/// A package manifest declares `name` as a dependency or a dev-dependency,
/// with a version.
pub open spec fn spec_declares_package(package: JsonValue, name: Seq<char>) -> bool {
    declares_under(package, "dependencies"@, name) || declares_under(package, "devDependencies"@, name)
}

fn declares_under_key(package: &Json, key: &str, name: &str) -> (r: bool)
    ensures
        r == declares_under(package@, key@, name@),
{
    match package.get(key) {
        Some(deps) => match deps.get(name) {
            Some(version) => match version.as_str() {
                Some(v) => !v.is_empty(),
                None => false,
            },
            None => false,
        },
        None => false,
    }
}

pub fn declares_package(package: &Json, name: &str) -> (r: bool)
    ensures
        r == spec_declares_package(package@, name@),
{
    declares_under_key(package, "dependencies", name) || declares_under_key(
        package,
        "devDependencies",
        name,
    )
}

/// The directory record `dir` is that of a package that declares `name`.
pub open spec fn dir_declares(dir: JsonValue, name: Seq<char>) -> bool {
    spec_declares_package(member_or_null(dir, "package"@), name)
}

/// The standalone executable that the directory record `dir` names, if any.
pub open spec fn dir_standalone(dir: JsonValue) -> Option<Seq<char>> {
    match member_or_null(dir, "standalone"@) {
        JsonValue::Str(s) => Some(s),
        _ => None,
    }
}

/// `i` is the first of `dirs` that declares `name`.
pub open spec fn first_declaring(dirs: Seq<JsonValue>, name: Seq<char>, i: int) -> bool {
    &&& 0 <= i < dirs.len()
    &&& dir_declares(dirs[i], name)
    &&& forall|k: int| 0 <= k < i ==> !dir_declares(#[trigger] dirs[k], name)
}

/// `j` is the first of `dirs` from `i` on that names a standalone executable.
pub open spec fn first_standalone_from(dirs: Seq<JsonValue>, i: int, j: int) -> bool {
    &&& i <= j < dirs.len()
    &&& dir_standalone(dirs[j]) is Some
    &&& forall|k: int| i <= k < j ==> dir_standalone(#[trigger] dirs[k]) is None
}

/// The contents of a list of JSON values.
pub open spec fn values_view(dirs: Seq<Json>) -> Seq<JsonValue> {
    dirs.map_values(|d: Json| d@)
}

/// The standalone executable of `package`: from the first directory (nearest
/// the worktree first) that declares the package on, the first one that
/// names a standalone installation; none where no directory declares it.
pub fn standalone_path<'a>(directories: &'a [Json], package: &str) -> (r: Option<&'a str>)
    ensures
        match r {
            Some(p) => exists|i: int, j: int|
                first_declaring(values_view(directories@), package@, i) && first_standalone_from(
                    values_view(directories@),
                    i,
                    j,
                ) && dir_standalone(values_view(directories@)[j]) == Some(p@),
            None => forall|i: int|
                first_declaring(values_view(directories@), package@, i) ==> forall|j: int|
                    i <= j < directories@.len() ==> dir_standalone(
                        #[trigger] values_view(directories@)[j],
                    ) is None,
        },
{
    let ghost dirs = values_view(directories@);
    let n = directories.len();
    let mut i: usize = 0;
    while i < n
        invariant
            n == directories@.len(),
            dirs == values_view(directories@),
            i <= n,
            forall|k: int| 0 <= k < i ==> !dir_declares(#[trigger] dirs[k], package@),
        ensures
            i <= n,
            forall|k: int| 0 <= k < i ==> !dir_declares(#[trigger] dirs[k], package@),
            i < n ==> dir_declares(dirs[i as int], package@),
        decreases n - i,
    {
        let declared = match directories[i].get("package") {
            Some(p) => declares_package(p, package),
            None => {
                proof {
                    lemma_null_declares_nothing(package@);
                }
                false
            },
        };
        if declared {
            break;
        }
        i = i + 1;
    }
    if i == n {
        return None;
    }
    let start = i;
    assert(first_declaring(dirs, package@, start as int));
    let mut j: usize = start;
    while j < n
        invariant
            n == directories@.len(),
            dirs == values_view(directories@),
            start <= j <= n,
            first_declaring(dirs, package@, start as int),
            forall|k: int| start <= k < j ==> dir_standalone(#[trigger] dirs[k]) is None,
        decreases n - j,
    {
        match directories[j].get("standalone") {
            Some(s) => match s.as_str() {
                Some(p) => {
                    assert(first_standalone_from(dirs, start as int, j as int));
                    return Some(p);
                },
                None => {},
            },
            None => {},
        }
        j = j + 1;
    }
    proof {
        assert forall|a: int| first_declaring(dirs, package@, a) implies forall|b: int|
            a <= b < directories@.len() ==> dir_standalone(#[trigger] dirs[b]) is None by {
            if a < start {
                assert(!dir_declares(dirs[a], package@));
            } else if a > start {
                assert(!dir_declares(dirs[start as int], package@));
            }
        }
    }
    None
}

/// A manifest declares a package exactly when its `dependencies` or its
/// `devDependencies` give the package a non-empty version string, each list
/// counting whatever the other holds.
pub proof fn lemma_either_list_declares(package: JsonValue, name: Seq<char>)
    ensures
        ({
            let deps = member_or_null(member_or_null(package, "dependencies"@), name);
            let dev = member_or_null(member_or_null(package, "devDependencies"@), name);
            let in_deps = deps matches JsonValue::Str(v) && v.len() > 0;
            let in_dev = dev matches JsonValue::Str(v) && v.len() > 0;
            spec_declares_package(package, name) <==> (in_deps || in_dev)
        }),
{
}

proof fn lemma_null_declares_nothing(name: Seq<char>)
    ensures
        !spec_declares_package(JsonValue::Null, name),
{
}

} // verus!
