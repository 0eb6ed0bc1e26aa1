//! The per-color manifests and the recording phase.
//!
//! Each discovered file is classified and appended to exactly one of the
//! two manifests as a `(path, quantity)` entry; the persisted form is one
//! line `"<path> <quantity>"` per entry. Whether the accent manifest has
//! received any entry is tracked explicitly and later decides whether the
//! accent packing invocation runs at all.
use vstd::prelude::*;
use vstd::string::StringExecFns;
use crate::ColorGroup;
use crate::classify::classify;
use crate::classify::group_of;
use crate::classify::quantity_of;
use crate::text::base_name;
use crate::text::base_name_of;
use crate::text::dec_digits;
use crate::text::u64_to_string;

verus! {

/// One manifest entry: the source file path and its quantity multiplier.
pub struct ManifestEntry {
    pub path: String,
    pub quantity: u32,
}

impl View for ManifestEntry {
    type V = (Seq<char>, nat);

    open spec fn view(&self) -> (Seq<char>, nat) {
        (self.path@, self.quantity as nat)
    }
}

/// The entry a recorded path produces: the path itself and the quantity
/// encoded in its base name.
pub open spec fn entry_of(path: Seq<char>) -> (Seq<char>, nat) {
    (path, quantity_of(base_name(path)))
}

/// The persisted form of one entry: `"<path> <quantity>"`.
pub open spec fn manifest_line(path: Seq<char>) -> Seq<char> {
    path + seq![' '] + dec_digits(quantity_of(base_name(path)))
}

/// The entries that a sequence of recorded paths contributes to the
/// manifest of `group`, in recording order.
pub open spec fn entries_for(paths: Seq<Seq<char>>, group: ColorGroup) -> Seq<(Seq<char>, nat)>
    decreases paths.len(),
{
    if paths.len() == 0 {
        Seq::empty()
    } else {
        let rest = entries_for(paths.drop_last(), group);
        if group_of(base_name(paths.last())) == group {
            rest.push(entry_of(paths.last()))
        } else {
            rest
        }
    }
}

/// How many of the paths are classified into `group`.
pub open spec fn count_in_group(paths: Seq<Seq<char>>, group: ColorGroup) -> nat
    decreases paths.len(),
{
    if paths.len() == 0 {
        0
    } else {
        count_in_group(paths.drop_last(), group) + if group_of(base_name(paths.last()))
            == group {
            1nat
        } else {
            0nat
        }
    }
}

/// What recording one file hands back to the caller: the group the file
/// was classified into and the manifest line to append.
pub struct Recorded {
    pub group: ColorGroup,
    pub line: String,
}

/// The two append-only manifests of a run, with the accent-seen flag.
pub struct Manifests {
    pub main: Vec<ManifestEntry>,
    pub accent: Vec<ManifestEntry>,
    pub accent_seen: bool,
}

impl Manifests {
    /// The main manifest as a sequence of `(path, quantity)` pairs.
    pub open spec fn main_view(self) -> Seq<(Seq<char>, nat)> {
        self.main@.map_values(|e: ManifestEntry| e@)
    }

    /// The accent manifest as a sequence of `(path, quantity)` pairs.
    pub open spec fn accent_view(self) -> Seq<(Seq<char>, nat)> {
        self.accent@.map_values(|e: ManifestEntry| e@)
    }

    /// The accent-seen flag is true exactly when the accent manifest is
    /// non-empty.
    pub open spec fn wf(self) -> bool {
        self.accent_seen <==> self.accent@.len() > 0
    }

    /// Fresh manifests: both empty, no accent seen.
    pub fn new() -> (m: Manifests)
        ensures
            m.wf(),
            m.main_view() =~= Seq::<(Seq<char>, nat)>::empty(),
            m.accent_view() =~= Seq::<(Seq<char>, nat)>::empty(),
            !m.accent_seen,
    {
        Manifests { main: Vec::new(), accent: Vec::new(), accent_seen: false }
    }

    /// Classifies one file by its base name, appends the entry to the
    /// manifest of its group, raises the accent-seen flag for an accent
    /// file, and returns the group together with the persisted line.
    pub fn record(&mut self, path: &str) -> (r: Recorded)
        requires
            old(self).wf(),
        ensures
            final(self).wf(),
            r.group == group_of(base_name(path@)),
            r.line@ == manifest_line(path@),
            r.group == ColorGroup::Accent ==> {
                &&& final(self).accent_view() == old(self).accent_view().push(entry_of(path@))
                &&& final(self).main_view() == old(self).main_view()
                &&& final(self).accent_seen
            },
            r.group == ColorGroup::Main ==> {
                &&& final(self).main_view() == old(self).main_view().push(entry_of(path@))
                &&& final(self).accent_view() == old(self).accent_view()
                &&& final(self).accent_seen == old(self).accent_seen
            },
    {
        let base = base_name_of(path);
        let (group, quantity) = classify(base);
        let mut line = path.to_owned();
        line.append(" ");
        let digits = u64_to_string(quantity as u64);
        line.append(digits.as_str());
        proof {
            reveal_strlit(" ");
            assert(line@ =~= manifest_line(path@));
        }
        let entry = ManifestEntry { path: path.to_owned(), quantity };
        match group {
            ColorGroup::Accent => {
                self.accent.push(entry);
                self.accent_seen = true;
                proof {
                    assert(self.accent_view() =~= old(self).accent_view().push(entry_of(path@)));
                    assert(self.main_view() =~= old(self).main_view());
                }
            },
            ColorGroup::Main => {
                self.main.push(entry);
                proof {
                    assert(self.main_view() =~= old(self).main_view().push(entry_of(path@)));
                    assert(self.accent_view() =~= old(self).accent_view());
                }
            },
        }
        Recorded { group, line }
    }
}

/// Records every path in order into fresh manifests.
pub fn record_all(paths: &Vec<String>) -> (m: Manifests)
    ensures
        m.wf(),
        m.main_view() == entries_for(
            paths@.map_values(|p: String| p@),
            ColorGroup::Main,
        ),
        m.accent_view() == entries_for(
            paths@.map_values(|p: String| p@),
            ColorGroup::Accent,
        ),
{
    let ghost all = paths@.map_values(|p: String| p@);
    let mut m = Manifests::new();
    let mut i: usize = 0;
    while i < paths.len()
        invariant
            0 <= i <= paths.len(),
            all == paths@.map_values(|p: String| p@),
            m.wf(),
            m.main_view() == entries_for(all.take(i as int), ColorGroup::Main),
            m.accent_view() == entries_for(all.take(i as int), ColorGroup::Accent),
        decreases paths.len() - i,
    {
        let r = m.record(paths[i].as_str());
        proof {
            assert(all.take(i + 1).drop_last() =~= all.take(i as int));
            assert(all.take(i + 1).last() == all[i as int]);
        }
        i += 1;
    }
    proof {
        assert(all.take(paths@.len() as int) =~= all);
    }
    m
}

/// Law: recording `n` accent files and `m` main files yields an accent
/// manifest with exactly `n` entries and a main manifest with exactly `m`
/// entries, where `n + m` is the number of recorded files; each entry is
/// pinned to its source path and multiplier by `entries_for`.
pub proof fn lemma_manifest_counts(paths: Seq<Seq<char>>)
    ensures
        entries_for(paths, ColorGroup::Accent).len() == count_in_group(paths, ColorGroup::Accent),
        entries_for(paths, ColorGroup::Main).len() == count_in_group(paths, ColorGroup::Main),
        count_in_group(paths, ColorGroup::Accent) + count_in_group(paths, ColorGroup::Main)
            == paths.len(),
    decreases paths.len(),
{
    if paths.len() > 0 {
        lemma_manifest_counts(paths.drop_last());
    }
}

} // verus!
