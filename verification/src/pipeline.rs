//! The classification phase as one step: either the explicit empty-input
//! short-circuit, or the manifests of every discovered file.
use vstd::prelude::*;
use crate::ColorGroup;
use crate::manifest::Manifests;
use crate::manifest::count_in_group;
use crate::manifest::entries_for;
use crate::manifest::lemma_manifest_counts;
use crate::manifest::record_all;

verus! {

/// Classifies and records every discovered file. An empty discovery
/// yields `None`: the pipeline is to log that no files were found and
/// stop successfully without invoking any external tool.
pub fn classify_phase(files: &Vec<String>) -> (r: Option<Manifests>)
    ensures
        r is Some <==> files@.len() > 0,
        r matches Some(m) ==> {
            &&& m.wf()
            &&& m.main_view() == entries_for(
                files@.map_values(|p: String| p@),
                ColorGroup::Main,
            )
            &&& m.accent_view() == entries_for(
                files@.map_values(|p: String| p@),
                ColorGroup::Accent,
            )
        },
{
    if files.len() == 0 {
        None
    } else {
        Some(record_all(files))
    }
}

/// Law: after recording, the accent-seen flag is raised exactly when at
/// least one recorded file was classified accent.
pub proof fn lemma_accent_seen_iff_accent_recorded(paths: Seq<Seq<char>>, m: Manifests)
    requires
        m.wf(),
        m.accent_view() == entries_for(paths, ColorGroup::Accent),
    ensures
        m.accent_seen <==> count_in_group(paths, ColorGroup::Accent) > 0,
{
    lemma_manifest_counts(paths);
}

} // verus!
