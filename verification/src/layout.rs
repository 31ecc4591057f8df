use crate::error::GenError;
use crate::outside::{snake_case, to_snake_case};
use crate::text::{less, lex_less, same, skip_chars, split, split_on, starts_with};
use vstd::prelude::*;
use vstd::string::*;

verus! {

/// The dotted name `name` as seen from the package `root`: without `root` and the dot
/// behind it where `name` lies under `root`, empty where it is `root` itself, and unchanged
/// where it lies elsewhere or there is no root.
pub open spec fn relative_name(name: Seq<char>, root: Seq<char>) -> Seq<char> {
    if root.len() == 0 {
        name
    } else if name == root {
        Seq::empty()
    } else if root.push('.').is_prefix_of(name) {
        name.skip(root.len() as int + 1)
    } else {
        name
    }
}

/// The directories that lead from the directory of `root` to that of the package `pkg`: one
/// for each piece of the relative name, and none for `root` itself.
pub open spec fn package_segments(pkg: Seq<char>, root: Seq<char>) -> Seq<Seq<char>> {
    let relative = relative_name(pkg, root);
    if relative.len() == 0 {
        Seq::empty()
    } else {
        split_on(relative, '.')
    }
}

/// The path `segments` with its last piece replaced by the source file called `stem`; with
/// no piece to replace, the file alone.
pub open spec fn file_path(segments: Seq<Seq<char>>, stem: Seq<char>) -> Seq<Seq<char>> {
    if segments.len() == 0 {
        seq![stem + ".rs"@]
    } else {
        segments.drop_last().push(stem + ".rs"@)
    }
}

/// The path of the source file for the class `name`, from the directory of `root`: the
/// directories of its package, and a file named by the simple name in snake case. A name
/// that leaves no piece gives an error.
pub open spec fn unit_path(name: Seq<char>, root: Seq<char>) -> Result<Seq<Seq<char>>, GenError> {
    let segments = package_segments(name, root);
    if segments.len() == 0 {
        Err(GenError::EmptyName)
    } else {
        Ok(file_path(segments, snake_case(segments.last())))
    }
}

/// The paths of a result, where there is one.
pub open spec fn path_result(r: Result<Vec<String>, GenError>) -> Result<
    Seq<Seq<char>>,
    GenError,
> {
    match r {
        Ok(path) => Ok(path.deep_view()),
        Err(e) => Err(e),
    }
}

/// Whether the package at `i` is the root of `packages`: none comes before it in the order
/// of strings, and it is the first of its name.
pub open spec fn is_root(packages: Seq<Seq<char>>, i: int) -> bool {
    &&& 0 <= i < packages.len()
    &&& forall|j: int| 0 <= j < packages.len() ==> !lex_less(#[trigger] packages[j], packages[i])
    &&& forall|j: int| 0 <= j < i ==> #[trigger] packages[j] != packages[i]
}

/// The order of strings is transitive.
pub proof fn lemma_lex_less_transitive(a: Seq<char>, b: Seq<char>, c: Seq<char>)
    requires
        lex_less(a, b),
        lex_less(b, c),
    ensures
        lex_less(a, c),
    decreases a.len(),
{
    if a.len() > 0 && a[0] == b[0] && b[0] == c[0] {
        lemma_lex_less_transitive(a.skip(1), b.skip(1), c.skip(1));
    }
}

/// No string comes before itself.
pub proof fn lemma_lex_less_irreflexive(a: Seq<char>)
    ensures
        !lex_less(a, a),
    decreases a.len(),
{
    if a.len() > 0 {
        lemma_lex_less_irreflexive(a.skip(1));
    }
}

/// Of two different strings one comes before the other.
pub proof fn lemma_lex_less_total(a: Seq<char>, b: Seq<char>)
    requires
        !lex_less(a, b),
        !lex_less(b, a),
    ensures
        a == b,
    decreases a.len(),
{
    if a.len() > 0 && b.len() > 0 {
        vstd::utf8::char_u32_cast(a[0], a[0] as u32);
        vstd::utf8::char_u32_cast(b[0], b[0] as u32);
        assert(a[0] == b[0]);
        lemma_lex_less_total(a.skip(1), b.skip(1));
        assert(a =~= seq![a[0]] + a.skip(1));
        assert(b =~= seq![b[0]] + b.skip(1));
    } else {
        assert(a =~= b);
    }
}

/// There is at most one root among the packages.
pub proof fn lemma_root_unique(packages: Seq<Seq<char>>, i: int, j: int)
    requires
        is_root(packages, i),
        is_root(packages, j),
    ensures
        i == j,
{
    assert(!lex_less(packages[i], packages[j]));
    assert(!lex_less(packages[j], packages[i]));
    lemma_lex_less_total(packages[i], packages[j]);
}

/// Gives the name `name` as seen from the package `root`.
pub fn relative_to(name: &str, root: &str) -> (r: String)
    ensures
        r@ == relative_name(name@, root@),
{
    let root_len = root.unicode_len();
    if root_len == 0 {
        return name.to_owned();
    }
    if same(name, root) {
        return String::new();
    }
    let mut prefix = root.to_owned();
    prefix.push('.');
    if starts_with(name, prefix.as_str()) {
        skip_chars(name, prefix.as_str().unicode_len())
    } else {
        name.to_owned()
    }
}

/// Gives the directories that lead from the directory of `root` to that of `pkg`.
pub fn package_dir(pkg: &str, root: &str) -> (r: Vec<String>)
    ensures
        r.deep_view() == package_segments(pkg@, root@),
{
    let relative = relative_to(pkg, root);
    if relative.as_str().unicode_len() == 0 {
        let out: Vec<String> = Vec::new();
        assert(out.deep_view() =~= Seq::<Seq<char>>::empty());
        out
    } else {
        split(relative.as_str(), '.')
    }
}

/// Puts the source file called `stem` in the place of the last piece of `segments`.
pub fn with_file(segments: Vec<String>, stem: &str) -> (r: Vec<String>)
    ensures
        r.deep_view() == file_path(segments.deep_view(), stem@),
{
    let ghost before = segments.deep_view();
    let mut out = segments;
    let mut file_name = stem.to_owned();
    file_name.append(".rs");
    let ghost name = file_name@;
    out.pop();
    assert(out.deep_view() =~= if before.len() == 0 {
        before
    } else {
        before.drop_last()
    });
    let ghost dirs = out.deep_view();
    out.push(file_name);
    assert(out.deep_view() =~= dirs.push(name));
    assert(dirs.push(name) =~= file_path(before, stem@));
    out
}

/// Gives the path of the source file for the class `name`, from the directory of
/// `root_path`.
pub fn build_path(name: &str, root_path: &str) -> (r: Result<Vec<String>, GenError>)
    ensures
        path_result(r) == unit_path(name@, root_path@),
{
    let segments = package_dir(name, root_path);
    if segments.len() == 0 {
        return Err(GenError::EmptyName);
    }
    let stem = to_snake_case(segments[segments.len() - 1].as_str());
    Ok(with_file(segments, stem.as_str()))
}

/// Finds the root among `packages`: the first of those that come first in the order of
/// strings. There is none where there is no package.
pub fn root_package(packages: &Vec<String>) -> (r: Option<usize>)
    ensures
        r is None <==> packages.len() == 0,
        r matches Some(i) ==> is_root(packages.deep_view(), i as int),
{
    if packages.len() == 0 {
        return None;
    }
    let ghost all = packages.deep_view();
    let mut best: usize = 0;
    let mut i: usize = 1;
    proof {
        lemma_lex_less_irreflexive(all[0]);
    }
    while i < packages.len()
        invariant
            1 <= i <= packages.len(),
            all == packages.deep_view(),
            best < i,
            forall|j: int| 0 <= j < i ==> !lex_less(#[trigger] all[j], all[best as int]),
            forall|j: int| 0 <= j < best ==> #[trigger] all[j] != all[best as int],
        decreases packages.len() - i,
    {
        assert(all[i as int] == packages@[i as int]@);
        assert(all[best as int] == packages@[best as int]@);
        if less(packages[i].as_str(), packages[best].as_str()) {
            proof {
                lemma_lex_less_irreflexive(all[i as int]);
                assert forall|j: int| 0 <= j < i + 1 implies !lex_less(
                    #[trigger] all[j],
                    all[i as int],
                ) by {
                    if lex_less(all[j], all[i as int]) {
                        lemma_lex_less_transitive(all[j], all[i as int], all[best as int]);
                    }
                }
            }
            best = i;
        }
        i += 1;
    }
    Some(best)
}

} // verus!
