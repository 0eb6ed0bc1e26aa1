//! The thumbnail stage: deriving the preview-image path of a packed
//! plate and fixing the rendering parameters.
//!
//! The image sits beside the plate file, with the extension of the
//! plate's base name replaced by `png` (or `.png` appended when the base
//! name has no extension). Rendering itself is done by an external
//! library outside this crate.
use vstd::prelude::*;
use vstd::string::StrSliceExecFns;
use vstd::string::StringExecFns;
use crate::text::base_name;
use crate::text::base_start;
use crate::text::base_start_of;

verus! {

/// A `.` at index `i` of a base name marks an extension: it is neither
/// the leading character nor out of range.
pub open spec fn dot_at(name: Seq<char>, i: int) -> bool {
    0 < i < name.len() && name[i] == '.'
}

/// The index of the last extension dot of a base name, or -1 when the
/// name has no extension.
pub open spec fn last_dot(name: Seq<char>) -> int
    decreases name.len(),
{
    if name.len() == 0 {
        -1
    } else if dot_at(name, name.len() - 1) {
        name.len() - 1
    } else {
        last_dot(name.drop_last())
    }
}

/// The sibling image path of a plate: the plate path with its base
/// name's extension replaced by `png`, or with `.png` appended when the
/// base name has no extension.
pub open spec fn thumb_target(path: Seq<char>) -> Seq<char> {
    let name = base_name(path);
    let cut = if last_dot(name) >= 0 {
        base_start(path) + last_dot(name)
    } else {
        path.len() as int
    };
    path.take(cut) + ".png"@
}

proof fn lemma_last_dot_found(name: Seq<char>, p: int)
    requires
        dot_at(name, p),
        forall|j: int| j > p ==> !dot_at(name, j),
    ensures
        last_dot(name) == p,
    decreases name.len(),
{
    if p == name.len() - 1 {
    } else {
        assert(!dot_at(name, name.len() - 1));
        assert(dot_at(name.drop_last(), p));
        assert(forall|j: int| j > p ==> !dot_at(name.drop_last(), j)) by {
            assert forall|j: int| j > p && dot_at(name.drop_last(), j) implies false by {
                assert(dot_at(name, j));
            }
        }
        lemma_last_dot_found(name.drop_last(), p);
    }
}

proof fn lemma_last_dot_none(name: Seq<char>)
    requires
        forall|j: int| !dot_at(name, j),
    ensures
        last_dot(name) == -1,
    decreases name.len(),
{
    if name.len() > 0 {
        assert(forall|j: int| !dot_at(name.drop_last(), j)) by {
            assert forall|j: int| dot_at(name.drop_last(), j) implies false by {
                assert(dot_at(name, j));
            }
        }
        lemma_last_dot_none(name.drop_last());
    }
}

/// Derives the preview-image path of a plate file.
pub fn thumb_path(path: &str) -> (r: String)
    ensures
        r@ == thumb_target(path@),
{
    let n = path.unicode_len();
    let bs = base_start_of(path);
    let ghost name = base_name(path@);
    let mut j: usize = n;
    let mut cut: usize = n;
    let mut found = false;
    while !found && j > 1 && j - 1 > bs
        invariant
            j <= n,
            n == path@.len(),
            bs == base_start(path@),
            bs <= n,
            name == base_name(path@),
            !found ==> cut == n,
            !found ==> forall|t: int| j - bs <= t < name.len() ==> !dot_at(name, t),
            found ==> bs < cut < n && dot_at(name, cut - bs) && forall|t: int|
                t > cut - bs ==> !dot_at(name, t),
        decreases j,
    {
        if path.get_char(j - 1) == '.' {
            cut = j - 1;
            found = true;
            assert(name[cut - bs] == path@[cut as int]);
        } else {
            assert(name[j - 1 - bs] == path@[j - 1]);
        }
        j -= 1;
    }
    proof {
        if found {
            lemma_last_dot_found(name, cut - bs);
        } else {
            assert(forall|j: int| !dot_at(name, j)) by {
                assert forall|j: int| dot_at(name, j) implies false by {
                    assert(j >= 1);
                }
            }
            lemma_last_dot_none(name);
        }
    }
    let stem = path.substring_char(0, cut);
    let mut r = stem.to_owned();
    r.append(".png");
    proof {
        assert(r@ =~= thumb_target(path@));
    }
    r
}

/// One thumbnail rendering job: the plate to render, where the image
/// goes, and the fixed image size.
pub struct ThumbnailJob {
    pub stl_path: String,
    pub img_path: String,
    pub width: u32,
    pub height: u32,
}

/// Plans the rendering of one packed plate: a 1024x768 preview image
/// beside the plate file.
pub fn thumbnail_job(plate_path: &str) -> (j: ThumbnailJob)
    ensures
        j.stl_path@ == plate_path@,
        j.img_path@ == thumb_target(plate_path@),
        j.width == 1024,
        j.height == 768,
{
    ThumbnailJob {
        stl_path: plate_path.to_owned(),
        img_path: thumb_path(plate_path),
        width: 1024,
        height: 768,
    }
}

} // verus!
