//! The directory of the presets, and what is listed after it changes.

use vstd::multiset::Multiset;
use vstd::prelude::*;

use crate::api_error::{ApiError, ApiErrorKind};
use crate::paths;
use crate::preset_list;
use crate::preset_list::{ListError, PresetEntry};
use crate::presets;
use crate::presets::{CreateFontPresetRequest, FontPreset, NewPreset, PRESET_EXTENSION};

verus! {

/// Whether `entries` are what is found in the directory that holds `files`, each at
/// its path with the preset that can be read from it: every file once, in any
/// order.
pub open spec fn is_listing(
    files: Map<Seq<char>, Option<FontPreset>>,
    entries: Seq<PresetEntry>,
) -> bool {
    &&& forall|i: int|
        0 <= i < entries.len() ==> {
            &&& #[trigger] entries[i] is File
            &&& files.contains_key(entries[i]->path@)
            &&& files[entries[i]->path@] == entries[i]->preset
        }
    &&& forall|i: int, j: int|
        0 <= i < j < entries.len() ==> (#[trigger] entries[i])->path@ != (
        #[trigger] entries[j])->path@
    &&& forall|path: Seq<char>| #[trigger]
        files.contains_key(path) ==> exists|i: int|
            0 <= i < entries.len() && (#[trigger] entries[i])->path@ == path
}

/// Whether the file at `path` is a preset's file and holds `preset`.
pub open spec fn holds_at(
    files: Map<Seq<char>, Option<FontPreset>>,
    path: Seq<char>,
    preset: FontPreset,
) -> bool {
    &&& files.contains_key(path)
    &&& files[path] == Some(preset)
    &&& paths::path_extension(path) == Some(PRESET_EXTENSION@)
}

/// The paths of the presets' files that hold `preset`.
pub open spec fn kept_at(
    files: Map<Seq<char>, Option<FontPreset>>,
    preset: FontPreset,
) -> Set<Seq<char>> {
    Set::new(|path: Seq<char>| holds_at(files, path, preset))
}

/// The files after the new preset was written.
pub open spec fn with_new(
    files: Map<Seq<char>, Option<FontPreset>>,
    new: NewPreset,
) -> Map<Seq<char>, Option<FontPreset>> {
    files.insert(new.path@, Some(new.preset))
}

proof fn lemma_listing_front(
    files: Map<Seq<char>, Option<FontPreset>>,
    entries: Seq<PresetEntry>,
)
    requires
        is_listing(files, entries),
        entries.len() > 0,
    ensures
        is_listing(files.remove(entries.last()->path@), entries.drop_last()),
{
    let front = entries.drop_last();
    let last = entries[entries.len() - 1];
    let rest = files.remove(last->path@);
    assert forall|i: int| 0 <= i < front.len() implies {
        &&& #[trigger] front[i] is File
        &&& rest.contains_key(front[i]->path@)
        &&& rest[front[i]->path@] == front[i]->preset
    } by {
        assert(front[i] == entries[i]);
        assert(entries[i]->path@ != last->path@);
    }
    assert forall|i: int, j: int| 0 <= i < j < front.len() implies (#[trigger] front[i])->path@ != (
    #[trigger] front[j])->path@ by {
        assert(front[i] == entries[i] && front[j] == entries[j]);
    }
    assert forall|path: Seq<char>| #[trigger] rest.contains_key(path) implies exists|i: int|
        0 <= i < front.len() && (#[trigger] front[i])->path@ == path by {
        assert(files.contains_key(path));
        let i = choose|i: int| 0 <= i < entries.len() && (#[trigger] entries[i])->path@ == path;
        assert(front[i] == entries[i]);
    }
}

proof fn lemma_held_as_often_as_kept(
    files: Map<Seq<char>, Option<FontPreset>>,
    entries: Seq<PresetEntry>,
    preset: FontPreset,
)
    requires
        is_listing(files, entries),
    ensures
        kept_at(files, preset).finite(),
        preset_list::held_presets(entries).to_multiset().count(preset) == kept_at(
            files,
            preset,
        ).len(),
    decreases entries.len(),
{
    broadcast use vstd::seq_lib::group_to_multiset_ensures;

    let kept = kept_at(files, preset);
    if entries.len() == 0 {
        assert(kept =~= Set::empty());
    } else {
        let last = entries[entries.len() - 1];
        let rest = files.remove(last->path@);
        let front = entries.drop_last();
        lemma_listing_front(files, entries);
        lemma_held_as_often_as_kept(rest, front, preset);
        assert(last is File && files[last->path@] == last->preset);
        if holds_at(files, last->path@, preset) {
            assert(kept =~= kept_at(rest, preset).insert(last->path@));
        } else {
            assert(kept =~= kept_at(rest, preset));
        }
    }
}

/// A listing names each preset as often as there are presets' files that hold it.
pub proof fn law_listed_as_often_as_kept(
    files: Map<Seq<char>, Option<FontPreset>>,
    entries: Seq<PresetEntry>,
    listed: Vec<FontPreset>,
    preset: FontPreset,
)
    requires
        is_listing(files, entries),
        preset_list::lists(entries, Ok::<Vec<FontPreset>, ListError>(listed)),
    ensures
        kept_at(files, preset).finite(),
        listed@.to_multiset().count(preset) == kept_at(files, preset).len(),
{
    lemma_held_as_often_as_kept(files, entries, preset);
    preset_list::law_sorting_keeps_the_items(
        preset_list::held_presets(entries),
        listed@,
        preset_list::preset_key(),
    );
}

/// While the files stay as they are, and so also after a request that is refused, a
/// listing names the same presets, whatever the order in which the files are found.
pub proof fn law_same_files_same_listing(
    files: Map<Seq<char>, Option<FontPreset>>,
    entries: Seq<PresetEntry>,
    later_entries: Seq<PresetEntry>,
    listed: Vec<FontPreset>,
    later: Vec<FontPreset>,
)
    requires
        is_listing(files, entries),
        is_listing(files, later_entries),
        preset_list::lists(entries, Ok::<Vec<FontPreset>, ListError>(listed)),
        preset_list::lists(later_entries, Ok::<Vec<FontPreset>, ListError>(later)),
    ensures
        later@.to_multiset() == listed@.to_multiset(),
{
    assert forall|preset: FontPreset|
        later@.to_multiset().count(preset) == #[trigger] listed@.to_multiset().count(preset) by {
        law_listed_as_often_as_kept(files, entries, listed, preset);
        law_listed_as_often_as_kept(files, later_entries, later, preset);
    }
    assert(later@.to_multiset() =~= listed@.to_multiset());
}

/// The presets of a listing, after the file at the path of `new` came to hold the new
/// preset: those of before and the new one, without what the file held before.
pub open spec fn listed_with_new(
    files: Map<Seq<char>, Option<FontPreset>>,
    new: NewPreset,
    listed: Multiset<FontPreset>,
) -> Multiset<FontPreset> {
    if files.contains_key(new.path@) && files[new.path@] is Some {
        listed.remove(files[new.path@]->0).insert(new.preset)
    } else {
        listed.insert(new.preset)
    }
}

/// After a creation the listing names the presets of before and the new one; where
/// the new preset's file was there before, what it held is not named for it any
/// more. This holds wherever the file is told by its extension, and so in every
/// directory that does not start with two separators; where the file is not told by
/// its extension, the listing is that of before.
pub proof fn law_listing_after_creation(
    files: Map<Seq<char>, Option<FontPreset>>,
    data_root: Seq<char>,
    req: CreateFontPresetRequest,
    new: NewPreset,
    entries: Seq<PresetEntry>,
    later_entries: Seq<PresetEntry>,
    listed: Vec<FontPreset>,
    later: Vec<FontPreset>,
)
    requires
        presets::creates(data_root, req, Ok::<NewPreset, ApiError>(new)),
        is_listing(files, entries),
        is_listing(with_new(files, new), later_entries),
        preset_list::lists(entries, Ok::<Vec<FontPreset>, ListError>(listed)),
        preset_list::lists(later_entries, Ok::<Vec<FontPreset>, ListError>(later)),
    ensures
        later@.to_multiset() == if paths::path_extension(new.path@) == Some(PRESET_EXTENSION@) {
            listed_with_new(files, new, listed@.to_multiset())
        } else {
            listed@.to_multiset()
        },
        !paths::starts_with_share(new.dir@) ==> later@.to_multiset() == listed_with_new(
            files,
            new,
            listed@.to_multiset(),
        ),
{
    let path = new.path@;
    let after = with_new(files, new);
    let replaced = files.contains_key(path) && files[path] is Some;
    let told = paths::path_extension(path) == Some(PRESET_EXTENSION@);
    let expected = if told {
        listed_with_new(files, new, listed@.to_multiset())
    } else {
        listed@.to_multiset()
    };
    assert forall|preset: FontPreset|
        later@.to_multiset().count(preset) == #[trigger] expected.count(preset) by {
        law_listed_as_often_as_kept(files, entries, listed, preset);
        law_listed_as_often_as_kept(after, later_entries, later, preset);
        let old = kept_at(files, preset);
        if !told {
            assert(kept_at(after, preset) =~= old);
        } else if preset == new.preset {
            assert(kept_at(after, preset) =~= old.insert(path));
        } else {
            assert(kept_at(after, preset) =~= old.remove(path));
        }
        if told && replaced {
            law_listed_as_often_as_kept(files, entries, listed, files[path]->0);
            assert(kept_at(files, files[path]->0).contains(path));
        }
    }
    assert(later@.to_multiset() =~= expected);
}

/// Creating a preset and deleting it leaves all as it was. The file of the new
/// preset is found and deleted, the files are those of before, so that the listing
/// names the same presets, and a second request to delete the preset is refused,
/// because its file is not found.
pub proof fn law_deletion_undoes_creation(
    files: Map<Seq<char>, Option<FontPreset>>,
    data_root: Seq<char>,
    req: CreateFontPresetRequest,
    new: NewPreset,
    path: String,
    first: Result<(), ApiError>,
    second: Result<(), ApiError>,
    entries: Seq<PresetEntry>,
    later_entries: Seq<PresetEntry>,
    listed: Vec<FontPreset>,
    later: Vec<FontPreset>,
)
    requires
        presets::creates(data_root, req, Ok::<NewPreset, ApiError>(new)),
        !files.contains_key(new.path@),
        presets::deletes(data_root, new.preset.id@, Ok::<String, ApiError>(path)),
        presets::finds(new.preset.id@, with_new(files, new).contains_key(path@), first),
        presets::finds(
            new.preset.id@,
            with_new(files, new).remove(path@).contains_key(path@),
            second,
        ),
        is_listing(files, entries),
        is_listing(with_new(files, new).remove(path@), later_entries),
        preset_list::lists(entries, Ok::<Vec<FontPreset>, ListError>(listed)),
        preset_list::lists(later_entries, Ok::<Vec<FontPreset>, ListError>(later)),
    ensures
        first is Ok,
        with_new(files, new).remove(path@) == files,
        later@.to_multiset() == listed@.to_multiset(),
        second is Err && second->Err_0.kind == ApiErrorKind::NotFound,
{
    assert(path@ == new.path@);
    assert(with_new(files, new).remove(path@) =~= files);
    law_same_files_same_listing(files, entries, later_entries, listed, later);
}

} // verus!
