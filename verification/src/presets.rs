//! Text style presets: each is kept in a file of its own, in one directory under
//! the root of the application's data.

use vstd::prelude::*;

use crate::api_error::{ApiError, ApiErrorKind};
use crate::paths;
use crate::paths::join;
use crate::scene::TextStyle;
use crate::slug;
use crate::slug::slugify;
use crate::text;
use crate::text::{alphanumeric, chars_of};

verus! {

/// The directory of the presets, under the root of the data.
pub const PRESETS_DIR: &'static str = "font-presets";

/// The extension of a preset's file.
pub const PRESET_EXTENSION: &'static str = "json";

/// How many characters of a UUID an identifier ends in.
pub const UNIQUE_LENGTH: usize = 8;

/// A named text style.
#[derive(Debug)]
pub struct FontPreset {
    pub id: String,
    pub name: String,
    pub style: TextStyle,
}

/// A request to keep a text style under a name.
#[derive(Debug)]
pub struct CreateFontPresetRequest {
    pub name: String,
    pub style: TextStyle,
}

/// A preset that is to be stored: the directory that has to be there, and the
/// file to write.
#[derive(Debug)]
pub struct NewPreset {
    pub dir: String,
    pub path: String,
    pub preset: FontPreset,
}

/// The directory of the presets.
pub fn presets_dir(data_root: &str) -> (r: String)
    ensures
        r@ == paths::path_joined(data_root@, PRESETS_DIR@),
        !paths::starts_with_share(data_root@) ==> paths::is_child(data_root@, PRESETS_DIR@, r@),
{
    proof {
        reveal_strlit("font-presets");
        assert(paths::is_name(PRESETS_DIR@));
    }
    join(data_root, PRESETS_DIR)
}

/// The name of the file of the preset `id`.
pub open spec fn file_name(id: Seq<char>) -> Seq<char> {
    id.push('.') + PRESET_EXTENSION@
}

/// The path of the file of the preset `id`.
pub open spec fn preset_file(data_root: Seq<char>, id: Seq<char>) -> Seq<char> {
    paths::path_joined(paths::path_joined(data_root, PRESETS_DIR@), file_name(id))
}

proof fn lemma_file_name(id: Seq<char>)
    ensures
        file_name(id) == id + ".json"@,
{
    reveal_strlit("json");
    reveal_strlit(".json");
    assert(file_name(id) =~= id + ".json"@);
}

proof fn lemma_all_plain(s: Seq<char>)
    ensures
        paths::all_plain(s) <==> (forall|i: int|
            0 <= i < s.len() ==> {
                ||| 48 <= #[trigger] s[i] as u32 <= 57
                ||| 65 <= s[i] as u32 <= 90
                ||| 97 <= s[i] as u32 <= 122
                ||| s[i] == '-'
                ||| s[i] == '_'
            }),
{
    if !paths::all_plain(s) {
        let i = choose|i: int| 0 <= i < s.len() && !paths::is_plain(#[trigger] s[i]);
        text::law_alphanumeric_code_points(s[i]);
        assert(!(48 <= s[i] as u32 <= 57));
    } else {
        assert forall|i: int| 0 <= i < s.len() implies {
            ||| 48 <= #[trigger] s[i] as u32 <= 57
            ||| 65 <= s[i] as u32 <= 90
            ||| 97 <= s[i] as u32 <= 122
            ||| s[i] == '-'
            ||| s[i] == '_'
        } by {
            assert(paths::is_plain(s[i]));
            text::law_alphanumeric_code_points(s[i]);
        }
    }
}

fn is_plain_text(s: &str) -> (r: bool)
    ensures
        r == paths::all_plain(s@),
{
    let chars = chars_of(s);
    let mut i: usize = 0;
    while i < chars.len()
        invariant
            chars@ == s@,
            i <= chars@.len(),
            forall|j: int| 0 <= j < i ==> paths::is_plain(#[trigger] s@[j]),
        decreases chars@.len() - i,
    {
        let c = chars[i];
        if !(alphanumeric(c) || c == '-' || c == '_') {
            assert(!paths::is_plain(s@[i as int]));
            return false;
        }
        i = i + 1;
    }
    true
}

/// The file of the preset `id` in `dir`. An identifier with a character other
/// than the ASCII letters and digits, the dash and the underscore is refused.
pub fn preset_path(dir: &str, id: &str) -> (r: Result<String, ApiError>)
    ensures
        r is Ok <==> paths::all_plain(id@),
        r is Ok ==> r->Ok_0@ == paths::path_joined(dir@, file_name(id@)),
        r is Ok && !paths::starts_with_share(dir@) ==> paths::is_child(
            dir@,
            file_name(id@),
            r->Ok_0@,
        ),
        r is Ok && id@.len() > 0 && !paths::starts_with_share(dir@) ==> paths::path_extension(
            r->Ok_0@,
        ) == Some(PRESET_EXTENSION@),
        r is Ok <==> (forall|i: int|
            0 <= i < id@.len() ==> {
                ||| 48 <= #[trigger] id@[i] as u32 <= 57
                ||| 65 <= id@[i] as u32 <= 90
                ||| 97 <= id@[i] as u32 <= 122
                ||| id@[i] == '-'
                ||| id@[i] == '_'
            }),
        r is Ok ==> r->Ok_0@ == paths::path_joined(dir@, id@ + ".json"@),
        r is Err ==> r->Err_0.kind == ApiErrorKind::BadRequest,
        r is Err ==> r->Err_0.message@ == "invalid preset id"@,
{
    proof {
        lemma_file_name(id@);
        lemma_all_plain(id@);
    }
    if !is_plain_text(id) {
        return Err(ApiError::bad_request("invalid preset id"));
    }
    let mut name = id.to_string();
    name.push('.');
    name.append(PRESET_EXTENSION);
    proof {
        reveal_strlit("json");
        assert(paths::is_name(name@)) by {
            assert forall|i: int| 0 <= i < name@.len() implies paths::is_plain(#[trigger] name@[i])
                || name@[i] == '.' by {
                if i < id@.len() {
                    assert(name@[i] == id@[i]);
                }
            }
        }
        if id@.len() > 0 {
            assert(paths::is_file_name(name@, id@, PRESET_EXTENSION@));
        }
    }
    Ok(join(dir, name.as_str()))
}

/// Whether `c` is a digit of a hexadecimal number, in lowercase.
pub open spec fn is_hex(c: char) -> bool {
    '0' <= c <= '9' || 'a' <= c <= 'f'
}

/// Whether `s` is made of hexadecimal digits alone.
pub open spec fn all_hex(s: Seq<char>) -> bool {
    forall|i: int| 0 <= i < s.len() ==> is_hex(#[trigger] s[i])
}

/// `Uuid::now_v7` makes a new UUID of version 7 from the time and random bits;
/// its simple format is 32 hexadecimal digits in lowercase, of which the
/// thirteenth gives the version.
#[verifier::external_body]
fn new_uuid_text() -> (r: String)
    ensures
        r@.len() == 32,
        all_hex(r@),
        r@[12] == '7',
{
    uuid::Uuid::now_v7().simple().to_string()
}

/// Whether `uuid` is the text of a UUID that `new_uuid_text` made. Only a call of it
/// can tell.
pub closed spec fn is_new_uuid(uuid: Seq<char>) -> bool {
    exists|s: String| #[trigger] call_ensures(new_uuid_text, (), s) && s@ == uuid
}

/// The text of a new UUID is an answer of `new_uuid_text`, and so 32 hexadecimal
/// digits.
proof fn law_new_uuid_is_made_by_its_source(uuid: Seq<char>)
    requires
        is_new_uuid(uuid),
    ensures
        exists|s: String| #[trigger] call_ensures(new_uuid_text, (), s) && s@ == uuid,
        uuid.len() == 32,
        all_hex(uuid),
        uuid[12] == '7',
{
}

/// The first `UNIQUE_LENGTH` characters of `s`.
pub open spec fn unique_part(s: Seq<char>) -> Seq<char> {
    if s.len() <= UNIQUE_LENGTH {
        s
    } else {
        s.take(UNIQUE_LENGTH as int)
    }
}

/// Whether `id` is the identifier for a preset called `name`: its slug, a dash,
/// and `unique`.
pub open spec fn is_preset_id(name: Seq<char>, unique: Seq<char>, id: Seq<char>) -> bool {
    exists|s: Seq<char>| #[trigger] slug::is_slug(name, s) && id == s.push('-') + unique
}

/// The identifier for a preset called `name`, made unique by the start of
/// `unique`.
pub fn preset_id(name: &str, unique: &str) -> (r: String)
    ensures
        is_preset_id(name@, unique_part(unique@), r@),
        exists|slug: Seq<char>|
            {
                &&& #[trigger] slug::is_slug(name@, slug)
                &&& r@ == slug.push('-') + if unique@.len() <= 8 {
                    unique@
                } else {
                    unique@.take(8)
                }
            },
{
    let chars = chars_of(unique);
    let length: usize = if chars.len() <= UNIQUE_LENGTH {
        chars.len()
    } else {
        UNIQUE_LENGTH
    };
    let mut id = slugify(name);
    let ghost slug = id@;
    id.push('-');
    let mut i: usize = 0;
    let ghost start = id@;
    while i < length
        invariant
            i <= length <= chars@.len(),
            id@ == start + chars@.take(i as int),
        decreases length - i,
    {
        id.push(chars[i]);
        i = i + 1;
        assert(chars@.take(i as int) =~= chars@.take(i - 1).push(chars@[i - 1]));
        assert(id@ =~= start + chars@.take(i as int));
    }
    assert(unique_part(unique@) =~= chars@.take(length as int));
    assert(slug::is_slug(name@, slug) && id@ == slug.push('-') + unique_part(unique@));
    id
}

/// Whether `id` is a new identifier for a preset called `name`: its slug, a dash, and
/// the first eight digits of a new UUID.
pub open spec fn is_new_preset_id(name: Seq<char>, uuid: Seq<char>, id: Seq<char>) -> bool {
    &&& is_new_uuid(uuid)
    &&& uuid.len() == 32
    &&& all_hex(uuid)
    &&& is_preset_id(name, uuid.take(8), id)
}

/// A new identifier for a preset called `name`: its slug, a dash, and the first
/// `UNIQUE_LENGTH` digits of a new UUID.
pub fn unique_preset_id(name: &str) -> (r: String)
    ensures
        exists|uuid: Seq<char>| #[trigger] is_new_preset_id(name@, uuid, r@),
        exists|uuid: Seq<char>, slug: Seq<char>|
            {
                &&& #[trigger] is_new_uuid(uuid)
                &&& #[trigger] slug::is_slug(name@, slug)
                &&& uuid.len() == 32
                &&& r@ == slug.push('-') + uuid.take(8)
            },
        exists|unique: Seq<char>|
            {
                &&& unique.len() == UNIQUE_LENGTH
                &&& #[trigger] all_hex(unique)
                &&& is_preset_id(name@, unique, r@)
            },
{
    let unique = new_uuid_text();
    let id = preset_id(name, unique.as_str());
    assert(all_hex(unique_part(unique@)));
    assert(is_new_preset_id(name@, unique@, id@));
    id
}

/// Whether `preset` is what `req` asks for: its name without the white space
/// around it, its style, and an identifier that the name and `unique` make.
pub open spec fn is_requested(
    preset: FontPreset,
    req: CreateFontPresetRequest,
    unique: Seq<char>,
) -> bool {
    &&& is_preset_id(text::trimmed(req.name@), unique, preset.id@)
    &&& preset.name@ == text::trimmed(req.name@)
    &&& preset.style == req.style
}

/// Whether `r` is what comes of the request `req` for a new preset. It is refused
/// only where the name is empty but for white space. Else there is a preset after
/// the request, whose identifier ends in `UNIQUE_LENGTH` hexadecimal digits, and a
/// file in the directory of the presets.
pub open spec fn creates(
    data_root: Seq<char>,
    req: CreateFontPresetRequest,
    r: Result<NewPreset, ApiError>,
) -> bool {
    match r {
        Ok(new) => {
            &&& text::trimmed(req.name@).len() > 0
            &&& exists|unique: Seq<char>|
                {
                    &&& unique.len() == UNIQUE_LENGTH
                    &&& #[trigger] all_hex(unique)
                    &&& is_requested(new.preset, req, unique)
                }
            &&& exists|uuid: Seq<char>| #[trigger]
                is_new_preset_id(text::trimmed(req.name@), uuid, new.preset.id@)
            &&& new.dir@ == paths::path_joined(data_root, PRESETS_DIR@)
            &&& !paths::starts_with_share(data_root) ==> paths::is_child(
                data_root,
                PRESETS_DIR@,
                new.dir@,
            )
            &&& new.path@ == preset_file(data_root, new.preset.id@)
            &&& !paths::starts_with_share(new.dir@) ==> paths::is_child(
                new.dir@,
                file_name(new.preset.id@),
                new.path@,
            )
            &&& !paths::starts_with_share(new.dir@) ==> paths::path_extension(new.path@) == Some(
                PRESET_EXTENSION@,
            )
        },
        Err(error) => {
            &&& text::trimmed(req.name@).len() == 0
            &&& error.kind == ApiErrorKind::BadRequest
            &&& error.message@ == "preset name cannot be empty"@
        },
    }
}

/// The preset that `req` asks for, under a new identifier, and the file to keep it
/// in. A name that is empty but for white space is refused; nothing else is.
pub fn create_font_preset(data_root: &str, req: CreateFontPresetRequest) -> (r: Result<
    NewPreset,
    ApiError,
>)
    ensures
        creates(data_root@, req, r),
        r is Ok <==> text::trimmed(req.name@).len() > 0,
        r is Ok ==> r->Ok_0.preset.name@ == text::trimmed(req.name@),
        r is Ok ==> r->Ok_0.preset.style == req.style,
        r is Ok ==> exists|uuid: Seq<char>, slug: Seq<char>|
            {
                &&& #[trigger] is_new_uuid(uuid)
                &&& #[trigger] slug::is_slug(text::trimmed(req.name@), slug)
                &&& uuid.len() == 32
                &&& r->Ok_0.preset.id@ == slug.push('-') + uuid.take(8)
            },
        r is Ok ==> r->Ok_0.dir@ == paths::path_joined(data_root@, "font-presets"@),
        r is Ok ==> r->Ok_0.path@ == paths::path_joined(
            r->Ok_0.dir@,
            r->Ok_0.preset.id@ + ".json"@,
        ),
        r is Err ==> r->Err_0.kind == ApiErrorKind::BadRequest,
        r is Err ==> r->Err_0.message@ == "preset name cannot be empty"@,
{
    let CreateFontPresetRequest { name, style } = req;
    let name = name.as_str().trim();
    if name.is_empty() {
        return Err(ApiError::bad_request("preset name cannot be empty"));
    }
    let dir = presets_dir(data_root);
    let preset = FontPreset { id: unique_preset_id(name), name: name.to_string(), style };
    proof {
        lemma_file_name(preset.id@);
        let unique = choose|unique: Seq<char>|
            {
                &&& unique.len() == UNIQUE_LENGTH
                &&& #[trigger] all_hex(unique)
                &&& is_preset_id(name@, unique, preset.id@)
            };
        law_made_id_is_accepted(name@, unique, preset.id@);
        assert(is_requested(preset, req, unique));
    }
    let path = match preset_path(dir.as_str(), preset.id.as_str()) {
        Ok(path) => path,
        Err(error) => {
            return Err(error);
        },
    };
    Ok(NewPreset { dir, path, preset })
}

/// Whether `r` is what comes of the request to delete the preset `id`: its file, or
/// a refusal where `id` has a character that is not allowed.
pub open spec fn deletes(data_root: Seq<char>, id: Seq<char>, r: Result<String, ApiError>) -> bool {
    match r {
        Ok(path) => {
            let dir = paths::path_joined(data_root, PRESETS_DIR@);
            &&& paths::all_plain(id)
            &&& path@ == preset_file(data_root, id)
            &&& !paths::starts_with_share(data_root) ==> paths::is_child(
                data_root,
                PRESETS_DIR@,
                dir,
            )
            &&& !paths::starts_with_share(dir) ==> paths::is_child(dir, file_name(id), path@)
        },
        Err(error) => {
            &&& !paths::all_plain(id)
            &&& error.kind == ApiErrorKind::BadRequest
            &&& error.message@ == "invalid preset id"@
        },
    }
}

/// The file of the preset `id`, which is to be deleted if it is there. An
/// identifier that no preset can have is refused.
pub fn delete_font_preset(data_root: &str, id: &str) -> (r: Result<String, ApiError>)
    ensures
        deletes(data_root@, id@, r),
        r is Ok <==> (forall|i: int|
            0 <= i < id@.len() ==> {
                ||| 48 <= #[trigger] id@[i] as u32 <= 57
                ||| 65 <= id@[i] as u32 <= 90
                ||| 97 <= id@[i] as u32 <= 122
                ||| id@[i] == '-'
                ||| id@[i] == '_'
            }),
        r is Ok ==> r->Ok_0@ == paths::path_joined(
            paths::path_joined(data_root@, "font-presets"@),
            id@ + ".json"@,
        ),
        r is Err ==> r->Err_0.kind == ApiErrorKind::BadRequest,
        r is Err ==> r->Err_0.message@ == "invalid preset id"@,
{
    proof {
        lemma_file_name(id@);
        lemma_all_plain(id@);
    }
    let dir = presets_dir(data_root);
    preset_path(dir.as_str(), id)
}

/// Whether `r` is the answer to the request to delete the preset `id`, whose file is
/// there or is not: a refusal if and only if it is not.
pub open spec fn finds(id: Seq<char>, file_exists: bool, r: Result<(), ApiError>) -> bool {
    match r {
        Ok(_) => file_exists,
        Err(error) => {
            &&& !file_exists
            &&& error.kind == ApiErrorKind::NotFound
            &&& error.message@ == "font preset not found: "@ + id
        },
    }
}

/// Refuses to delete the preset `id` where its file is not there.
pub fn require_preset(id: &str, file_exists: bool) -> (r: Result<(), ApiError>)
    ensures
        finds(id@, file_exists, r),
        r is Ok <==> file_exists,
        r is Err ==> r->Err_0.kind == ApiErrorKind::NotFound,
        r is Err ==> r->Err_0.message@ == "font preset not found: "@ + id@,
{
    if file_exists {
        Ok(())
    } else {
        let mut message = "font preset not found: ".to_string();
        message.append(id);
        Err(ApiError::not_found(message))
    }
}

/// The answer where `action` could not be done at `path`, for the reason `cause`.
pub fn storage_failure(action: &str, path: &str, cause: &str) -> (r: ApiError)
    ensures
        r.kind == ApiErrorKind::Internal,
        r.message@ == action@ + " "@ + path@ + ": "@ + cause@,
{
    let mut message = action.to_string();
    message.append(" ");
    message.append(path);
    message.append(": ");
    message.append(cause);
    ApiError::internal(message)
}

/// An identifier that is made for a new preset is one that `preset_path` accepts:
/// it is not empty, and its characters are all allowed.
pub proof fn law_made_id_is_accepted(name: Seq<char>, unique: Seq<char>, id: Seq<char>)
    requires
        all_hex(unique),
        is_preset_id(name, unique, id),
    ensures
        id.len() > 0,
        paths::all_plain(id),
{
    let s = choose|s: Seq<char>| #[trigger]
        slug::is_slug(name, s) && id == s.push('-') + unique;
    slug::law_slug_shape(text::lowercase_each(name));
    assert forall|i: int| 0 <= i < id.len() implies paths::is_plain(#[trigger] id[i]) by {
        if i < s.len() {
            assert(id[i] == s[i]);
        } else if i > s.len() {
            assert(id[i] == unique[i - s.len() - 1]);
        }
    }
}

/// A new preset can be deleted by its identifier: the request to delete it is not
/// refused, and names the file that the preset is kept in.
pub proof fn law_created_preset_can_be_deleted(
    data_root: Seq<char>,
    req: CreateFontPresetRequest,
    new: NewPreset,
    deleted: Result<String, ApiError>,
)
    requires
        creates(data_root, req, Ok::<NewPreset, ApiError>(new)),
        deletes(data_root, new.preset.id@, deleted),
    ensures
        deleted is Ok,
        deleted->Ok_0@ == new.path@,
{
    let unique = choose|unique: Seq<char>|
        {
            &&& unique.len() == UNIQUE_LENGTH
            &&& #[trigger] all_hex(unique)
            &&& is_requested(new.preset, req, unique)
        };
    law_made_id_is_accepted(text::trimmed(req.name@), unique, new.preset.id@);
}

/// A new preset has the style that was asked for, and the name without the white space
/// around it: the name is a part of the one that was asked for, with nothing but white
/// space before and behind it and none at its two ends.
pub proof fn law_created_preset_is_as_requested(
    data_root: Seq<char>,
    req: CreateFontPresetRequest,
    new: NewPreset,
)
    requires
        creates(data_root, req, Ok::<NewPreset, ApiError>(new)),
    ensures
        new.preset.style == req.style,
        new.preset.name@.len() > 0,
        !text::is_white_space(new.preset.name@.first()),
        !text::is_white_space(new.preset.name@.last()),
        exists|before: Seq<char>, behind: Seq<char>|
            {
                &&& #[trigger] text::all_white_space(before)
                &&& #[trigger] text::all_white_space(behind)
                &&& req.name@ == before + new.preset.name@ + behind
            },
{
    text::lemma_trimmed(req.name@);
}

/// The identifier of a new preset is the slug of its name, a dash, and the first eight
/// digits of a UUID that was made for it; its file has the name of that identifier.
pub proof fn law_new_identifier_holds_a_new_uuid(
    data_root: Seq<char>,
    req: CreateFontPresetRequest,
    new: NewPreset,
)
    requires
        creates(data_root, req, Ok::<NewPreset, ApiError>(new)),
    ensures
        exists|uuid: Seq<char>, slug: Seq<char>|
            {
                &&& #[trigger] is_new_uuid(uuid)
                &&& #[trigger] slug::is_slug(new.preset.name@, slug)
                &&& uuid.len() == 32
                &&& new.preset.id@ == slug.push('-') + uuid.take(8)
            },
        new.dir@ == paths::path_joined(data_root, "font-presets"@),
        new.path@ == paths::path_joined(new.dir@, new.preset.id@ + ".json"@),
{
    lemma_file_name(new.preset.id@);
}

/// Two new presets share an identifier only where the UUIDs that were made for them
/// start with the same eight digits: identifiers that end in different digits differ,
/// whatever the names.
pub proof fn law_different_uuids_different_identifiers(
    name: Seq<char>,
    uuid: Seq<char>,
    id: Seq<char>,
    other_name: Seq<char>,
    other_uuid: Seq<char>,
    other_id: Seq<char>,
)
    requires
        is_new_preset_id(name, uuid, id),
        is_new_preset_id(other_name, other_uuid, other_id),
        uuid.take(8) != other_uuid.take(8),
    ensures
        id != other_id,
{
    let a = uuid.take(8);
    let b = other_uuid.take(8);
    if id == other_id {
        assert(id.skip(id.len() - 8) =~= a);
        assert(other_id.skip(other_id.len() - 8) =~= b);
    }
}

} // verus!
