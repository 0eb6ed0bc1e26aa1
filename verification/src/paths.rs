//! The fixed working-directory layout: where input models are read,
//! where manifests and packed plates are written, and the glob pattern
//! that discovers model files.
use vstd::prelude::*;
use vstd::string::StrSliceExecFns;
use vstd::string::StringExecFns;

verus! {

/// A path join that inserts a separator only when the base does not
/// already end with one; an empty base yields the component itself.
pub open spec fn joined(base: Seq<char>, component: Seq<char>) -> Seq<char> {
    if base.len() == 0 {
        component
    } else if base.last() == '/' {
        base + component
    } else {
        base + seq!['/'] + component
    }
}

/// Joins a path component onto a base path.
pub fn join_path(base: &str, component: &str) -> (r: String)
    ensures
        r@ == joined(base@, component@),
{
    let n = base.unicode_len();
    if n == 0 {
        return component.to_owned();
    }
    let mut s = base.to_owned();
    if base.get_char(n - 1) != '/' {
        s.append("/");
        proof {
            reveal_strlit("/");
            assert(s@ =~= base@ + seq!['/']);
        }
    }
    s.append(component);
    s
}

/// The input directory: `<cwd>/input/`.
pub fn input_dir(cwd: &str) -> (r: String)
    ensures
        r@ == joined(cwd@, "input/"@),
{
    join_path(cwd, "input/")
}

/// The output directory: `<cwd>/output/`.
pub fn output_dir(cwd: &str) -> (r: String)
    ensures
        r@ == joined(cwd@, "output/"@),
{
    join_path(cwd, "output/")
}

/// The main-manifest file: `<cwd>/output/main.conf`.
pub fn main_conf_path(cwd: &str) -> (r: String)
    ensures
        r@ == joined(joined(cwd@, "output/"@), "main.conf"@),
{
    let dir = output_dir(cwd);
    join_path(dir.as_str(), "main.conf")
}

/// The accent-manifest file: `<cwd>/output/accent.conf`.
pub fn accent_conf_path(cwd: &str) -> (r: String)
    ensures
        r@ == joined(joined(cwd@, "output/"@), "accent.conf"@),
{
    let dir = output_dir(cwd);
    join_path(dir.as_str(), "accent.conf")
}

/// The case-insensitive recursive glob pattern that discovers model
/// files under a directory.
pub fn model_glob_pattern(dir: &str) -> (r: String)
    ensures
        r@ == dir@ + "**/*.stl"@,
{
    let mut s = dir.to_owned();
    s.append("**/*.stl");
    s
}

} // verus!
