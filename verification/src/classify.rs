//! Classification of input model file names.
//!
//! A name starting with the literal tag `[a]` belongs to the accent color
//! group; every other name belongs to the main group. A trailing
//! `_x<N>` segment of the base name (case-insensitive, before a required
//! `.stl`-style extension) carries an explicit quantity multiplier;
//! when it is absent or malformed the quantity defaults to 1.
use vstd::prelude::*;
use vstd::string::StrSliceExecFns;
use crate::ColorGroup;
use crate::text::is_prefix_of;
use crate::text::str_starts_with;
use crate::text::parse_u32;
use crate::text::all_digits;
use crate::text::digits_val;
use crate::text::is_digit;
use crate::text::numeral_body;
use crate::text::parses_as_u32;
use crate::text::u32_numeral_val;

verus! {

/// A file name belongs to the accent group exactly when it starts with
/// the literal tag `[a]`.
pub open spec fn is_accent_name(name: Seq<char>) -> bool {
    name.len() >= 3 && name[0] == '[' && name[1] == 'a' && name[2] == ']'
}

/// The color group a file name is classified into.
pub open spec fn group_of(name: Seq<char>) -> ColorGroup {
    if is_accent_name(name) {
        ColorGroup::Accent
    } else {
        ColorGroup::Main
    }
}

/// ASCII lower-casing of one character.
pub open spec fn lower_char(c: char) -> char {
    if 'A' <= c && c <= 'Z' {
        (((c as int) + 32) as char)
    } else {
        c
    }
}

/// The name ends, case-insensitively, with `.stl`.
pub open spec fn is_stl_name(name: Seq<char>) -> bool {
    &&& name.len() >= 4
    &&& name[name.len() - 4] == '.'
    &&& lower_char(name[name.len() - 3]) == 's'
    &&& lower_char(name[name.len() - 2]) == 't'
    &&& lower_char(name[name.len() - 1]) == 'l'
}

/// A case-insensitive `_x` infix sits at index `i` of the stem.
pub open spec fn ux_at(stem: Seq<char>, i: int) -> bool {
    &&& 0 <= i
    &&& i + 2 <= stem.len()
    &&& stem[i] == '_'
    &&& lower_char(stem[i + 1]) == 'x'
}

/// The index of the last `_x` infix of the stem, or -1 when there is none.
pub open spec fn last_ux(stem: Seq<char>) -> int
    decreases stem.len(),
{
    if stem.len() < 2 {
        -1
    } else if ux_at(stem, stem.len() - 2) {
        stem.len() - 2
    } else {
        last_ux(stem.drop_last())
    }
}

/// The quantity multiplier explicitly encoded in a name, when the name has
/// the extension, an `_x` infix, and a digit string that parses.
pub open spec fn explicit_quantity(name: Seq<char>) -> Option<nat> {
    if !is_stl_name(name) {
        None
    } else {
        let stem = name.take(name.len() - 4);
        let i = last_ux(stem);
        if i < 0 {
            None
        } else {
            let tail = stem.skip(i + 2);
            if parses_as_u32(tail) {
                Some(u32_numeral_val(tail))
            } else {
                None
            }
        }
    }
}

/// The quantity multiplier of a name: the explicit one when present,
/// otherwise 1.
pub open spec fn quantity_of(name: Seq<char>) -> nat {
    match explicit_quantity(name) {
        Some(q) => q,
        None => 1,
    }
}

proof fn lemma_last_ux_found(stem: Seq<char>, p: int)
    requires
        ux_at(stem, p),
        forall|j: int| j > p ==> !ux_at(stem, j),
    ensures
        last_ux(stem) == p,
    decreases stem.len(),
{
    if p == stem.len() - 2 {
    } else {
        assert(!ux_at(stem, stem.len() - 2));
        assert(ux_at(stem.drop_last(), p));
        assert(forall|j: int| j > p ==> !ux_at(stem.drop_last(), j)) by {
            assert forall|j: int| j > p && ux_at(stem.drop_last(), j) implies false by {
                assert(ux_at(stem, j));
            }
        }
        lemma_last_ux_found(stem.drop_last(), p);
    }
}

proof fn lemma_last_ux_none(stem: Seq<char>)
    requires
        forall|j: int| !ux_at(stem, j),
    ensures
        last_ux(stem) == -1,
    decreases stem.len(),
{
    if stem.len() >= 2 {
        assert(forall|j: int| !ux_at(stem.drop_last(), j)) by {
            assert forall|j: int| ux_at(stem.drop_last(), j) implies false by {
                assert(ux_at(stem, j));
            }
        }
        lemma_last_ux_none(stem.drop_last());
    }
}

/// Extracts the explicit quantity multiplier from a file name: lower-cases
/// the name, strips a required `.stl` extension, splits at the last `_x`,
/// and parses what follows as an unsigned integer. Any missing piece or
/// parse failure yields `None`, never an error.
pub fn analyze_name(name: &str) -> (r: Option<u32>)
    ensures
        match explicit_quantity(name@) {
            Some(q) => r == Some(q as u32),
            None => r is None,
        },
{
    let n = name.unicode_len();
    if n < 4 {
        return None;
    }
    let c_dot = name.get_char(n - 4);
    let c_s = name.get_char(n - 3);
    let c_t = name.get_char(n - 2);
    let c_l = name.get_char(n - 1);
    if !(c_dot == '.' && (c_s == 's' || c_s == 'S') && (c_t == 't' || c_t == 'T') && (c_l == 'l'
        || c_l == 'L')) {
        assert(!is_stl_name(name@));
        return None;
    }
    assert(is_stl_name(name@));
    let m = n - 4;
    let ghost stem = name@.take(m as int);
    let mut k: usize = m;
    while k >= 2 && !(name.get_char(k - 2) == '_' && (name.get_char(k - 1) == 'x' || name.get_char(
        k - 1,
    ) == 'X'))
        invariant
            0 <= k <= m,
            m + 4 == name@.len(),
            stem == name@.take(m as int),
            forall|j: int| j > k - 2 ==> !ux_at(stem, j),
        decreases k,
    {
        assert(!ux_at(stem, k - 2));
        k -= 1;
    }
    if k < 2 {
        proof {
            lemma_last_ux_none(stem);
        }
        return None;
    }
    let pos = k - 2;
    assert(ux_at(stem, pos as int));
    proof {
        lemma_last_ux_found(stem, pos as int);
    }
    let tail = name.substring_char(pos + 2, m);
    assert(tail@ =~= stem.skip(pos + 2));
    parse_u32(tail)
}

/// Classifies a file name: its color group and its quantity multiplier.
pub fn classify(name: &str) -> (r: (ColorGroup, u32))
    ensures
        r.0 == group_of(name@),
        r.1 as nat == quantity_of(name@),
{
    let group = if str_starts_with(name, "[a]") {
        ColorGroup::Accent
    } else {
        ColorGroup::Main
    };
    proof {
        reveal_strlit("[a]");
        if is_prefix_of("[a]"@, name@) {
            assert(name@.subrange(0, 3)[0] == name@[0]);
            assert(name@.subrange(0, 3)[1] == name@[1]);
            assert(name@.subrange(0, 3)[2] == name@[2]);
            assert(is_accent_name(name@));
        } else if is_accent_name(name@) {
            assert(name@.subrange(0, 3) =~= "[a]"@);
        }
    }
    let quantity = match analyze_name(name) {
        Some(q) => q,
        None => 1,
    };
    (group, quantity)
}

/// Law: a name is classified accent exactly when it starts with `[a]`;
/// every other name is classified main.
pub proof fn lemma_group_is_accent_iff_tagged(name: Seq<char>)
    ensures
        (group_of(name) == ColorGroup::Accent) <==> is_accent_name(name),
        (group_of(name) == ColorGroup::Main) <==> !is_accent_name(name),
{
}

/// Law: a name with a well-formed explicit `_x<N>` quantity is assigned
/// exactly `N`; every other name is assigned exactly 1.
pub proof fn lemma_quantity_explicit_or_default(name: Seq<char>)
    ensures
        explicit_quantity(name) matches Some(q) ==> quantity_of(name) == q,
        explicit_quantity(name) is None ==> quantity_of(name) == 1,
{
}

/// Law: a name built as `<prefix>_x<digits>.stl`, where the digit string
/// is non-empty and its value fits a `u32`, is assigned exactly that
/// value as its quantity.
pub proof fn lemma_well_formed_suffix_quantity(prefix: Seq<char>, digits: Seq<char>)
    requires
        digits.len() > 0,
        all_digits(digits),
        digits_val(digits) <= u32::MAX,
    ensures
        quantity_of(prefix + "_x"@ + digits + ".stl"@) == digits_val(digits),
{
    reveal_strlit("_x");
    reveal_strlit(".stl");
    let name = prefix + "_x"@ + digits + ".stl"@;
    let p = prefix.len() as int;
    let stem = name.take(name.len() - 4);
    assert(stem =~= prefix + "_x"@ + digits);
    assert(is_stl_name(name));
    assert(ux_at(stem, p));
    assert(forall|j: int| j > p ==> !ux_at(stem, j)) by {
        assert forall|j: int| j > p && ux_at(stem, j) implies false by {
            if j == p + 1 {
                assert(stem[j] == 'x');
            } else {
                assert(stem[j] == digits[j - p - 2]);
                assert(is_digit(stem[j]));
            }
        }
    }
    lemma_last_ux_found(stem, p);
    let tail = stem.skip(p + 2);
    assert(tail =~= digits);
    assert(numeral_body(digits) == digits);
    assert(parses_as_u32(tail));
}

/// Law: classification is a pure function of the name; any two results
/// that satisfy its contract for the same name are identical.
pub proof fn lemma_classify_deterministic(
    name: Seq<char>,
    r1: (ColorGroup, u32),
    r2: (ColorGroup, u32),
)
    requires
        r1.0 == group_of(name),
        r1.1 as nat == quantity_of(name),
        r2.0 == group_of(name),
        r2.1 as nat == quantity_of(name),
    ensures
        r1 == r2,
{
}

} // verus!
