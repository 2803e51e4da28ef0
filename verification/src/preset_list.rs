//! The list of the stored presets, in the order of their names.

use vstd::prelude::*;

use crate::api_error::{ApiError, ApiErrorKind};
use crate::ordering;
use crate::ordering::at_most;
use crate::paths;
use crate::paths::extension;
use crate::presets;
use crate::presets::{CreateFontPresetRequest, FontPreset, NewPreset, PRESET_EXTENSION};
use crate::text;
use crate::text::{chars_of, str_to_lowercase};

verus! {

/// A preset and the text that it is sorted by.
#[derive(Debug)]
pub struct Keyed {
    pub key: Vec<char>,
    pub preset: FontPreset,
}

/// The text that a keyed preset is sorted by.
pub open spec fn keyed_key() -> spec_fn(Keyed) -> Seq<char> {
    |entry: Keyed| entry.key@
}

/// What a preset is sorted by: its name in lowercase.
pub open spec fn preset_key() -> spec_fn(FontPreset) -> Seq<char> {
    |preset: FontPreset| text::lowercase_str(preset.name@)
}

/// That a preset with a name of ASCII characters is sorted by that name with its
/// capital letters made small.
pub open spec fn ascii_keys_known(presets: Seq<FontPreset>) -> bool {
    forall|i: int|
        0 <= i < presets.len() && text::all_ascii((#[trigger] presets[i]).name@) ==> preset_key()(
            presets[i],
        ) == presets[i].name@.map_values(|c: char| text::ascii_lower(c))
}

/// Whether the items stand in the order of their keys.
pub open spec fn is_sorted<T>(items: Seq<T>, key_of: spec_fn(T) -> Seq<char>) -> bool {
    forall|i: int, j: int|
        0 <= i < j < items.len() ==> ordering::text_le(
            key_of(#[trigger] items[i]),
            key_of(#[trigger] items[j]),
        )
}

/// The items whose key is `key`, in their order.
pub open spec fn with_key<T>(
    items: Seq<T>,
    key_of: spec_fn(T) -> Seq<char>,
    key: Seq<char>,
) -> Seq<T>
    decreases items.len(),
{
    if items.len() == 0 {
        Seq::empty()
    } else {
        let front = with_key(items.drop_last(), key_of, key);
        if key_of(items.last()) == key {
            front.push(items.last())
        } else {
            front
        }
    }
}

/// Whether `sorted` holds the items of `items` in the order of their keys, and
/// those with the same key in the order that they had: for each key the two hold
/// the same items, in the same order.
pub open spec fn is_stably_sorted<T>(
    items: Seq<T>,
    sorted: Seq<T>,
    key_of: spec_fn(T) -> Seq<char>,
) -> bool {
    &&& is_sorted(sorted, key_of)
    &&& sorted.len() == items.len()
    &&& forall|key: Seq<char>| #[trigger]
        with_key(sorted, key_of, key) == with_key(items, key_of, key)
}

proof fn lemma_with_key_add<T>(
    a: Seq<T>,
    b: Seq<T>,
    key_of: spec_fn(T) -> Seq<char>,
    key: Seq<char>,
)
    ensures
        with_key(a + b, key_of, key) == with_key(a, key_of, key) + with_key(b, key_of, key),
    decreases b.len(),
{
    if b.len() == 0 {
        assert(a + b =~= a);
        assert(with_key(a, key_of, key) + with_key(b, key_of, key) =~= with_key(a, key_of, key));
    } else {
        lemma_with_key_add(a, b.drop_last(), key_of, key);
        assert((a + b).drop_last() =~= a + b.drop_last());
        assert(with_key(a + b, key_of, key) =~= with_key(a, key_of, key) + with_key(
            b,
            key_of,
            key,
        ));
    }
}

proof fn lemma_with_key_none<T>(s: Seq<T>, key_of: spec_fn(T) -> Seq<char>, key: Seq<char>)
    requires
        forall|i: int| 0 <= i < s.len() ==> key_of(#[trigger] s[i]) != key,
    ensures
        with_key(s, key_of, key) == Seq::<T>::empty(),
    decreases s.len(),
{
    if s.len() > 0 {
        assert(key_of(s[s.len() - 1]) != key);
        assert forall|i: int| 0 <= i < s.drop_last().len() implies key_of(
            #[trigger] s.drop_last()[i],
        ) != key by {
            assert(s.drop_last()[i] == s[i]);
        }
        lemma_with_key_none(s.drop_last(), key_of, key);
    }
}

/// An item that is put behind all items that may come before it, and before all
/// that must come after it, keeps the list stably sorted.
proof fn lemma_insert<T>(
    before: Seq<T>,
    sorted: Seq<T>,
    key_of: spec_fn(T) -> Seq<char>,
    at: int,
    item: T,
)
    requires
        is_stably_sorted(before, sorted, key_of),
        0 <= at <= sorted.len(),
        forall|i: int|
            0 <= i < at ==> ordering::text_le(key_of(#[trigger] sorted[i]), key_of(item)),
        forall|i: int|
            at <= i < sorted.len() ==> !ordering::text_le(key_of(#[trigger] sorted[i]), key_of(item)),
    ensures
        is_stably_sorted(before.push(item), sorted.insert(at, item), key_of),
{
    let all = sorted.insert(at, item);
    let left = sorted.take(at);
    let right = sorted.skip(at);
    assert(sorted =~= left + right);
    assert(all =~= left.push(item) + right);
    assert forall|i: int, j: int| 0 <= i < j < all.len() implies ordering::text_le(
        key_of(#[trigger] all[i]),
        key_of(#[trigger] all[j]),
    ) by {
        if i == at {
            ordering::law_text_le_total(key_of(item), key_of(sorted[j - 1]));
        }
    }
    assert forall|key: Seq<char>| #[trigger]
        with_key(all, key_of, key) == with_key(before.push(item), key_of, key) by {
        assert(before.push(item).drop_last() =~= before);
        assert(left.push(item).drop_last() =~= left);
        lemma_with_key_add(left, right, key_of, key);
        lemma_with_key_add(left.push(item), right, key_of, key);
        assert(with_key(sorted, key_of, key) == with_key(before, key_of, key));
        if key_of(item) == key {
            assert forall|i: int| 0 <= i < right.len() implies key_of(#[trigger] right[i])
                != key by {
                assert(right[i] == sorted[at + i]);
                ordering::law_text_le_reflexive(key);
            }
            lemma_with_key_none(right, key_of, key);
            assert(with_key(left, key_of, key) + with_key(right, key_of, key) =~= with_key(
                left,
                key_of,
                key,
            ));
            assert(with_key(left.push(item), key_of, key) + with_key(right, key_of, key)
                =~= with_key(left.push(item), key_of, key));
        }
    }
}

/// The entries in the order of their keys; those with the same key stay in the
/// order that they had.
pub fn sort_keyed(entries: Vec<Keyed>) -> (r: Vec<Keyed>)
    ensures
        is_stably_sorted(entries@, r@, keyed_key()),
{
    let ghost all = entries@;
    let ghost key_of = keyed_key();
    let mut sorted: Vec<Keyed> = Vec::new();
    assert(sorted@ =~= all.take(0));
    for entry in it: entries
        invariant
            it.seq() == all,
            key_of == keyed_key(),
            is_stably_sorted(all.take(it.index() as int), sorted@, key_of),
    {
        let ghost before = all.take(it.index() as int);
        let mut at: usize = 0;
        while at < sorted.len() && at_most(sorted[at].key.as_slice(), entry.key.as_slice())
            invariant
                at <= sorted@.len(),
                key_of == keyed_key(),
                forall|i: int|
                    0 <= i < at ==> ordering::text_le(key_of(#[trigger] sorted@[i]), key_of(entry)),
            decreases sorted@.len() - at,
        {
            at = at + 1;
        }
        proof {
            assert forall|i: int| at <= i < sorted@.len() implies !ordering::text_le(
                key_of(#[trigger] sorted@[i]),
                key_of(entry),
            ) by {
                if ordering::text_le(key_of(sorted@[i]), key_of(entry)) && i > at {
                    ordering::law_text_le_transitive(
                        key_of(sorted@[at as int]),
                        key_of(sorted@[i]),
                        key_of(entry),
                    );
                }
            }
            lemma_insert(before, sorted@, key_of, at as int, entry);
            assert(all.take(it.index() + 1) =~= before.push(entry));
        }
        sorted.insert(at, entry);
    }
    assert(all.take(all.len() as int) =~= all);
    sorted
}

/// The presets of `entries`.
pub open spec fn unkeyed(entries: Seq<Keyed>) -> Seq<FontPreset> {
    entries.map_values(|entry: Keyed| entry.preset)
}

/// Whether each entry is sorted by its preset's name in lowercase.
pub open spec fn keyed_by_name(entries: Seq<Keyed>) -> bool {
    forall|i: int|
        0 <= i < entries.len() ==> (#[trigger] entries[i]).key@ == preset_key()(entries[i].preset)
}

proof fn lemma_with_key_contained<T>(
    s: Seq<T>,
    key_of: spec_fn(T) -> Seq<char>,
    key: Seq<char>,
    item: T,
)
    ensures
        with_key(s, key_of, key).contains(item) <==> s.contains(item) && key_of(item) == key,
    decreases s.len(),
{
    if s.len() > 0 {
        let front = s.drop_last();
        lemma_with_key_contained(front, key_of, key, item);
        assert(s =~= front.push(s.last()));
        vstd::seq_lib::lemma_seq_contains_after_push(front, s.last(), item);
        vstd::seq_lib::lemma_seq_contains_after_push(with_key(front, key_of, key), s.last(), item);
        if s.last() == item {
            assert(s[s.len() - 1] == item);
            if key_of(item) == key {
                let w = with_key(s, key_of, key);
                assert(w[w.len() - 1] == item);
            }
        }
    }
}

proof fn lemma_with_key_count<T>(s: Seq<T>, key_of: spec_fn(T) -> Seq<char>, item: T)
    ensures
        with_key(s, key_of, key_of(item)).to_multiset().count(item) == s.to_multiset().count(item),
    decreases s.len(),
{
    broadcast use vstd::seq_lib::group_to_multiset_ensures;

    if s.len() > 0 {
        let front = s.drop_last();
        lemma_with_key_count(front, key_of, item);
        assert(s =~= front.push(s.last()));
    }
}

/// Sorting keeps every item as often as it was there.
pub proof fn law_sorting_keeps_the_items<T>(
    items: Seq<T>,
    sorted: Seq<T>,
    key_of: spec_fn(T) -> Seq<char>,
)
    requires
        is_stably_sorted(items, sorted, key_of),
    ensures
        sorted.to_multiset() == items.to_multiset(),
{
    assert forall|item: T|
        sorted.to_multiset().count(item) == #[trigger] items.to_multiset().count(item) by {
        lemma_with_key_count(sorted, key_of, item);
        lemma_with_key_count(items, key_of, item);
    }
    assert(sorted.to_multiset() =~= items.to_multiset());
}

proof fn lemma_unkeyed(entries: Seq<Keyed>, key: Seq<char>)
    requires
        keyed_by_name(entries),
    ensures
        with_key(unkeyed(entries), preset_key(), key) == unkeyed(
            with_key(entries, keyed_key(), key),
        ),
    decreases entries.len(),
{
    if entries.len() > 0 {
        let front = entries.drop_last();
        assert(keyed_by_name(front)) by {
            assert forall|i: int| 0 <= i < front.len() implies (#[trigger] front[i]).key@
                == preset_key()(front[i].preset) by {
                assert(front[i] == entries[i]);
            }
        }
        lemma_unkeyed(front, key);
        assert(entries.last() == entries[entries.len() - 1]);
        assert(unkeyed(entries).drop_last() =~= unkeyed(front));
    }
    assert(with_key(unkeyed(entries), preset_key(), key) =~= unkeyed(
        with_key(entries, keyed_key(), key),
    ));
}

/// The presets in the order of their names in lowercase; those with the same such
/// name stay in the order that they had.
pub fn sort_presets(presets: Vec<FontPreset>) -> (r: Vec<FontPreset>)
    ensures
        is_stably_sorted(presets@, r@, preset_key()),
        ascii_keys_known(presets@),
{
    let ghost all = presets@;
    let mut entries: Vec<Keyed> = Vec::new();
    for preset in it: presets
        invariant
            it.seq() == all,
            unkeyed(entries@) == all.take(it.index() as int),
            keyed_by_name(entries@),
            ascii_keys_known(all.take(it.index() as int)),
    {
        let key = chars_of(str_to_lowercase(preset.name.as_str()).as_str());
        let ghost earlier = entries@;
        entries.push(Keyed { key, preset });
        assert(unkeyed(entries@) =~= unkeyed(earlier).push(all[it.index() as int]));
        assert(all.take(it.index() + 1) =~= all.take(it.index() as int).push(all[it.index() as int]));
    }
    assert(all.take(all.len() as int) =~= all);
    let ghost before = entries@;
    let sorted = sort_keyed(entries);
    let ghost after = sorted@;
    proof {
        assert forall|i: int| 0 <= i < after.len() implies (#[trigger] after[i]).key@
            == preset_key()(after[i].preset) by {
            lemma_with_key_contained(after, keyed_key(), after[i].key@, after[i]);
            lemma_with_key_contained(before, keyed_key(), after[i].key@, after[i]);
            assert(after.contains(after[i]));
            assert(before.contains(after[i]));
        }
        assert(is_sorted(unkeyed(after), preset_key())) by {
            assert forall|i: int, j: int| 0 <= i < j < after.len() implies ordering::text_le(
                preset_key()(#[trigger] unkeyed(after)[i]),
                preset_key()(#[trigger] unkeyed(after)[j]),
            ) by {
                assert(ordering::text_le(keyed_key()(after[i]), keyed_key()(after[j])));
            }
        }
        assert forall|key: Seq<char>| #[trigger]
            with_key(unkeyed(after), preset_key(), key) == with_key(all, preset_key(), key) by {
            lemma_unkeyed(after, key);
            lemma_unkeyed(before, key);
        }
    }
    let mut r: Vec<FontPreset> = Vec::new();
    for entry in it: sorted
        invariant
            it.seq() == after,
            r@ == unkeyed(after).take(it.index() as int),
    {
        r.push(entry.preset);
        assert(r@ =~= unkeyed(after).take(it.index() + 1));
    }
    assert(unkeyed(after).take(after.len() as int) =~= unkeyed(after));
    r
}

/// What was found in the directory of the presets, at one name.
#[derive(Debug)]
pub enum PresetEntry {
    /// The entry could not be read.
    Unreadable,
    /// The path of the entry is no UTF-8; this is how it is shown.
    NonUtf8(String),
    /// A file, with the preset that it holds, if it is a preset's file and holds
    /// one.
    File { path: String, preset: Option<FontPreset> },
}

/// What was found at the path of the directory of the presets.
#[derive(Debug)]
pub enum PresetListing {
    /// Nothing.
    Missing,
    /// Something that could not be listed.
    Unreadable,
    /// The directory, with these entries.
    Entries(Vec<PresetEntry>),
}

/// Why the presets could not be listed.
#[derive(Debug)]
pub enum ListError {
    /// Reading failed; the reader knows why.
    Unreadable,
    /// There is a path that is no UTF-8; this is what to say of it.
    NonUtf8(String),
}

/// Whether the file at `path` is a preset's file: whether its extension is that
/// of the presets.
pub fn is_preset_file(path: &str) -> (r: bool)
    ensures
        r == (paths::path_extension(path@) == Some(PRESET_EXTENSION@)),
{
    match extension(path) {
        Some(extension) => extension == PRESET_EXTENSION.to_string(),
        None => false,
    }
}

/// The presets that the files among `entries` hold, in their order. A file that
/// is no preset's file, or that holds no valid preset, is passed over.
pub open spec fn held_presets(entries: Seq<PresetEntry>) -> Seq<FontPreset>
    decreases entries.len(),
{
    if entries.len() == 0 {
        Seq::empty()
    } else {
        let front = held_presets(entries.drop_last());
        match entries.last() {
            PresetEntry::File { path, preset: Some(preset) } => if paths::path_extension(path@)
                == Some(PRESET_EXTENSION@) {
                front.push(preset)
            } else {
                front
            },
            _ => front,
        }
    }
}

/// Whether `entry` keeps the presets from being listed, for the reason `error`.
pub open spec fn blocks(entry: PresetEntry, error: ListError) -> bool {
    match (entry, error) {
        (PresetEntry::Unreadable, ListError::Unreadable) => true,
        (PresetEntry::NonUtf8(shown), ListError::NonUtf8(message)) => message@
            == "non-utf8 preset path: "@ + shown@,
        _ => false,
    }
}

/// Whether `r` is what comes of walking `entries`: the presets that they hold, in
/// the order of their names, or the error of the first entry that is no file.
pub open spec fn lists(entries: Seq<PresetEntry>, r: Result<Vec<FontPreset>, ListError>) -> bool {
    match r {
        Ok(presets) => {
            &&& forall|i: int| 0 <= i < entries.len() ==> #[trigger] entries[i] is File
            &&& is_stably_sorted(held_presets(entries), presets@, preset_key())
            &&& ascii_keys_known(held_presets(entries))
        },
        Err(error) => exists|i: int|
            {
                &&& 0 <= i < entries.len()
                &&& blocks(#[trigger] entries[i], error)
                &&& forall|j: int| 0 <= j < i ==> #[trigger] entries[j] is File
            },
    }
}

/// Whether `r` is what comes of reading the stored presets.
pub open spec fn reads(
    listing: PresetListing,
    r: Result<Vec<FontPreset>, ListError>,
) -> bool {
    match listing {
        PresetListing::Missing => r is Ok && r->Ok_0@ == Seq::<FontPreset>::empty(),
        PresetListing::Unreadable => r is Err && r->Err_0 is Unreadable,
        PresetListing::Entries(entries) => lists(entries@, r),
    }
}

/// The stored presets, in the order of their names in lowercase. There are none
/// where the directory is missing. The files that hold no valid preset are passed
/// over; an entry that cannot be read, or whose path is no UTF-8, is an error.
pub fn read_presets(listing: PresetListing) -> (r: Result<Vec<FontPreset>, ListError>)
    ensures
        reads(listing, r),
        listing is Missing ==> r is Ok && r->Ok_0@.len() == 0,
        listing is Unreadable ==> r is Err && r->Err_0 is Unreadable,
{
    let entries = match listing {
        PresetListing::Missing => {
            return Ok(Vec::new());
        },
        PresetListing::Unreadable => {
            return Err(ListError::Unreadable);
        },
        PresetListing::Entries(entries) => entries,
    };
    let ghost all = entries@;
    let mut presets: Vec<FontPreset> = Vec::new();
    for entry in it: entries
        invariant
            it.seq() == all,
            presets@ == held_presets(all.take(it.index() as int)),
            forall|j: int| 0 <= j < it.index() ==> #[trigger] all[j] is File,
            listing == PresetListing::Entries(entries),
            all == entries@,
    {
        let ghost at = it.index() as int;
        assert(all.take(at + 1).drop_last() =~= all.take(at));
        assert(all.take(at + 1).last() == all[at]);
        match entry {
            PresetEntry::Unreadable => {
                assert(blocks(all[at], ListError::Unreadable));
                return Err(ListError::Unreadable);
            },
            PresetEntry::NonUtf8(shown) => {
                let mut message = "non-utf8 preset path: ".to_string();
                message.append(shown.as_str());
                let error = ListError::NonUtf8(message);
                assert(blocks(all[at], error));
                return Err(error);
            },
            PresetEntry::File { path, preset } => {
                if is_preset_file(path.as_str()) {
                    match preset {
                        Some(preset) => presets.push(preset),
                        None => {},
                    }
                }
            },
        }
    }
    assert(all.take(all.len() as int) =~= all);
    Ok(sort_presets(presets))
}

/// Whether `answer` is what is answered where the presets could not be listed
/// because of `error`; `cause` says why reading failed.
pub open spec fn answers_failure(error: ListError, cause: Seq<char>, answer: ApiError) -> bool {
    &&& answer.kind == ApiErrorKind::Internal
    &&& answer.message@ == match error {
        ListError::Unreadable => cause,
        ListError::NonUtf8(message) => message@,
    }
}

/// The answer to a request for the stored presets. `cause` says why reading failed,
/// where it did.
pub fn list_font_presets(listing: PresetListing, cause: &str) -> (r: Result<
    Vec<FontPreset>,
    ApiError,
>)
    ensures
        exists|read: Result<Vec<FontPreset>, ListError>|
            {
                &&& #[trigger] reads(listing, read)
                &&& match read {
                    Ok(presets) => r == Ok::<Vec<FontPreset>, ApiError>(presets),
                    Err(error) => r is Err && answers_failure(error, cause@, r->Err_0),
                }
            },
        listing is Missing ==> r is Ok && r->Ok_0@.len() == 0,
        listing is Unreadable ==> r is Err && r->Err_0.message@ == cause@,
        r is Err ==> r->Err_0.kind == ApiErrorKind::Internal,
{
    match read_presets(listing) {
        Ok(presets) => Ok(presets),
        Err(ListError::Unreadable) => Err(ApiError::internal(cause.to_string())),
        Err(ListError::NonUtf8(message)) => Err(ApiError::internal(message)),
    }
}

/// Whether `entry` is the file of `preset`.
pub open spec fn holds(entry: PresetEntry, preset: FontPreset) -> bool {
    match entry {
        PresetEntry::File { path, preset: Some(held) } => {
            &&& held == preset
            &&& paths::path_extension(path@) == Some(PRESET_EXTENSION@)
        },
        _ => false,
    }
}

proof fn lemma_held_presets(entries: Seq<PresetEntry>, preset: FontPreset)
    ensures
        held_presets(entries).contains(preset) <==> exists|i: int|
            0 <= i < entries.len() && holds(#[trigger] entries[i], preset),
    decreases entries.len(),
{
    if entries.len() > 0 {
        let front = entries.drop_last();
        let last = entries[entries.len() - 1];
        lemma_held_presets(front, preset);
        assert forall|i: int| 0 <= i < front.len() implies #[trigger] front[i] == entries[i] by {}
        if holds(last, preset) {
            vstd::seq_lib::lemma_seq_contains_after_push(held_presets(front), preset, preset);
        } else if held_presets(entries) != held_presets(front) {
            vstd::seq_lib::lemma_seq_contains_after_push(
                held_presets(front),
                held_presets(entries).last(),
                preset,
            );
        }
        if exists|i: int| 0 <= i < front.len() && holds(#[trigger] front[i], preset) {
            let i = choose|i: int| 0 <= i < front.len() && holds(#[trigger] front[i], preset);
            assert(holds(entries[i], preset));
        }
        if exists|i: int| 0 <= i < entries.len() && holds(#[trigger] entries[i], preset) {
            let i = choose|i: int| 0 <= i < entries.len() && holds(#[trigger] entries[i], preset);
            if i < front.len() {
                assert(holds(front[i], preset));
            }
        }
    }
}

/// Listing gives back what was stored: where the listing succeeds, it names a
/// preset if and only if there is a preset's file that holds it.
pub proof fn law_listed_presets_are_the_stored(
    entries: Seq<PresetEntry>,
    listed: Vec<FontPreset>,
    preset: FontPreset,
)
    requires
        lists(entries, Ok::<Vec<FontPreset>, ListError>(listed)),
    ensures
        listed@.contains(preset) <==> exists|i: int|
            0 <= i < entries.len() && holds(#[trigger] entries[i], preset),
{
    let key = preset_key()(preset);
    lemma_held_presets(entries, preset);
    lemma_with_key_contained(listed@, preset_key(), key, preset);
    lemma_with_key_contained(held_presets(entries), preset_key(), key, preset);
}

/// A new preset is listed once its file is stored: where the entry at `at` is that
/// file, and the listing succeeds, it names the preset. This holds wherever the file
/// is told by its extension, and so in every directory that does not start with two
/// separators.
pub proof fn law_created_preset_is_listed(
    data_root: Seq<char>,
    req: CreateFontPresetRequest,
    new: NewPreset,
    entries: Seq<PresetEntry>,
    at: int,
    path: String,
    listed: Vec<FontPreset>,
)
    requires
        presets::creates(data_root, req, Ok::<NewPreset, ApiError>(new)),
        0 <= at < entries.len(),
        path@ == new.path@,
        entries[at] == (PresetEntry::File { path, preset: Some(new.preset) }),
        lists(entries, Ok::<Vec<FontPreset>, ListError>(listed)),
    ensures
        paths::path_extension(new.path@) == Some(PRESET_EXTENSION@) ==> listed@.contains(
            new.preset,
        ),
        !paths::starts_with_share(new.dir@) ==> listed@.contains(new.preset),
{
    law_listed_presets_are_the_stored(entries, listed, new.preset);
    if paths::path_extension(new.path@) == Some(PRESET_EXTENSION@) {
        assert(holds(entries[at], new.preset));
    }
}

/// What is sorted stably has, of the items with any one key, the same in the same
/// order as before.
pub proof fn law_equal_keys_keep_their_order<T>(
    items: Seq<T>,
    sorted: Seq<T>,
    key_of: spec_fn(T) -> Seq<char>,
    key: Seq<char>,
)
    requires
        is_stably_sorted(items, sorted, key_of),
    ensures
        sorted.filter(|item: T| key_of(item) == key) == items.filter(
            |item: T| key_of(item) == key,
        ),
        sorted.len() == items.len(),
{
    lemma_with_key_filters(items, key_of, key);
    lemma_with_key_filters(sorted, key_of, key);
    assert(with_key(sorted, key_of, key) == with_key(items, key_of, key));
}

proof fn lemma_with_key_filters<T>(s: Seq<T>, key_of: spec_fn(T) -> Seq<char>, key: Seq<char>)
    ensures
        with_key(s, key_of, key) == s.filter(|item: T| key_of(item) == key),
    decreases s.len(),
{
    reveal(Seq::filter);
    if s.len() > 0 {
        lemma_with_key_filters(s.drop_last(), key_of, key);
    }
}

proof fn lemma_held_presets_filter(entries: Seq<PresetEntry>)
    ensures
        held_presets(entries) == entries.filter_map(
            |entry: PresetEntry|
                match entry {
                    PresetEntry::File { path, preset } => if paths::path_extension(path@) == Some(
                        "json"@,
                    ) {
                        preset
                    } else {
                        None
                    },
                    _ => None,
                },
        ),
    decreases entries.len(),
{
    reveal_strlit("json");
    if entries.len() > 0 {
        lemma_held_presets_filter(entries.drop_last());
    }
    assert(held_presets(entries) =~= entries.filter_map(
                |entry: PresetEntry|
                    match entry {
                        PresetEntry::File { path, preset } => if paths::path_extension(path@) == Some(
                            "json"@,
                        ) {
                            preset
                        } else {
                            None
                        },
                        _ => None,
                    },
            ));
}

/// A listing is made of the presets that the files with the extension of the presets
/// hold: there are as many, and of those with any one name in lowercase it has the same
/// in the order in which the files were found.
pub proof fn law_listing_has_what_the_files_hold(
    entries: Seq<PresetEntry>,
    listed: Vec<FontPreset>,
    lower: Seq<char>,
)
    requires
        lists(entries, Ok::<Vec<FontPreset>, ListError>(listed)),
    ensures
        ({
            let held = entries.filter_map(
                |entry: PresetEntry|
                    match entry {
                        PresetEntry::File { path, preset } => if paths::path_extension(path@) == Some(
                            "json"@,
                        ) {
                            preset
                        } else {
                            None
                        },
                        _ => None,
                    },
            );
            let has_name = |preset: FontPreset| text::lowercase_str(preset.name@) == lower;
            &&& listed@.len() == held.len()
            &&& listed@.filter(has_name) == held.filter(has_name)
            &&& listed@.to_multiset() == held.to_multiset()
        }),
{
    let has_name = |preset: FontPreset| text::lowercase_str(preset.name@) == lower;
    lemma_held_presets_filter(entries);
    law_equal_keys_keep_their_order(held_presets(entries), listed@, preset_key(), lower);
    law_sorting_keeps_the_items(held_presets(entries), listed@, preset_key());
    assert(has_name =~= |item: FontPreset| preset_key()(item) == lower);
}

/// A listing is in the order of the names in lowercase, by the code points of their
/// characters: of two presets in it, the first has the smaller character where their
/// names first differ, and its name is not the longer one where one starts with the
/// other. The lowercase form of an ASCII name is known.
pub proof fn law_listing_is_in_order(
    entries: Seq<PresetEntry>,
    listed: Vec<FontPreset>,
    i: int,
    j: int,
)
    requires
        lists(entries, Ok::<Vec<FontPreset>, ListError>(listed)),
        0 <= i < j < listed@.len(),
    ensures
        forall|start: Seq<char>, c: char, d: char, x: Seq<char>, y: Seq<char>|
            text::lowercase_str(listed@[i].name@) == #[trigger] (start.push(c) + x)
                && text::lowercase_str(listed@[j].name@) == #[trigger] (start.push(d) + y) && c
                != d ==> (c as u32) < (d as u32),
        forall|rest: Seq<char>|
            text::lowercase_str(listed@[i].name@) == #[trigger] (text::lowercase_str(
                listed@[j].name@,
            ) + rest) ==> rest.len() == 0,
        text::all_ascii(listed@[i].name@) ==> text::lowercase_str(listed@[i].name@)
            == listed@[i].name@.map_values(
            |c: char|
                if 65 <= c as u32 <= 90 {
                    (c as u32 + 32) as char
                } else {
                    c
                },
        ),
{
    let a = text::lowercase_str(listed@[i].name@);
    let b = text::lowercase_str(listed@[j].name@);
    assert(ordering::text_le(preset_key()(listed@[i]), preset_key()(listed@[j])));
    assert forall|start: Seq<char>, c: char, d: char, x: Seq<char>, y: Seq<char>|
        a == #[trigger] (start.push(c) + x) && b == #[trigger] (start.push(d) + y) && c
            != d implies (c as u32) < (d as u32) by {
        ordering::lemma_code_points(c, d);
        if (d as u32) < (c as u32) {
            ordering::law_first_difference_decides(start, d, c, y, x);
        }
    }
    assert forall|rest: Seq<char>| a == #[trigger] (b + rest) implies rest.len() == 0 by {
        ordering::law_start_comes_first(b, rest);
    }
    let held = held_presets(entries);
    let key = preset_key()(listed@[i]);
    lemma_with_key_contained(listed@, preset_key(), key, listed@[i]);
    lemma_with_key_contained(held, preset_key(), key, listed@[i]);
    assert(listed@.contains(listed@[i]));
    assert(with_key(listed@, preset_key(), key) == with_key(held, preset_key(), key));
    let at = choose|at: int| 0 <= at < held.len() && held[at] == listed@[i];
    if text::all_ascii(listed@[i].name@) {
        assert(text::all_ascii(held[at].name@));
        let name = listed@[i].name@;
        assert(name.map_values(|c: char| text::ascii_lower(c)) =~= name.map_values(
            |c: char|
                if 65 <= c as u32 <= 90 {
                    (c as u32 + 32) as char
                } else {
                    c
                },
        ));
    }
}

/// The presets can be listed exactly where every entry is a file. Else the first that
/// is none decides what is said.
pub proof fn law_first_bad_entry_decides(
    entries: Seq<PresetEntry>,
    r: Result<Vec<FontPreset>, ListError>,
)
    requires
        lists(entries, r),
    ensures
        r is Ok <==> (forall|i: int| 0 <= i < entries.len() ==> #[trigger] entries[i] is File),
        forall|i: int|
            0 <= i < entries.len() && !(#[trigger] entries[i] is File) && (forall|j: int|
                0 <= j < i ==> #[trigger] entries[j] is File) ==> {
                &&& r is Err
                &&& match entries[i] {
                    PresetEntry::NonUtf8(shown) => r->Err_0 matches ListError::NonUtf8(message)
                        && message@ == "non-utf8 preset path: "@ + shown@,
                    _ => r->Err_0 is Unreadable,
                }
            },
{
}

/// What is answered where the presets cannot be listed is why: the cause of the failure
/// to read, or that a path is no UTF-8.
pub proof fn law_failure_says_why(error: ListError, cause: Seq<char>, answer: ApiError)
    requires
        answers_failure(error, cause, answer),
    ensures
        answer.kind == ApiErrorKind::Internal,
        error is Unreadable ==> answer.message@ == cause,
        error matches ListError::NonUtf8(message) ==> answer.message@ == message@,
{
}

} // verus!
