//! The plugin archives that ship with the application: mirroring them into the data
//! directory, listing them, and installing one of them.

use vstd::prelude::*;
use vstd::multiset::Multiset;
use crate::api::{error, ApiError};
use crate::text::{
    any_same, chars_of, contains, ends_with, has_text, lex_le, lex_le_is_total,
    lex_le_is_transitive, occurs_at, opt_view, same, text_le, texts, trim, trimmed,
};

verus! {

/// The directory under the data directory that holds the archives.
pub const BUNDLED_DIR_NAME: &'static str = "bundled-plugins";

/// A file that belongs to an archive: the archive itself or one of the documents
/// that vouch for it.
pub open spec fn mirrored_name(name: Seq<char>) -> bool {
    ||| ".zip"@.is_suffix_of(name)
    ||| ".zip.provenance.json"@.is_suffix_of(name)
    ||| ".zip.sigstore.json"@.is_suffix_of(name)
    ||| ".zip.cdx.json"@.is_suffix_of(name)
    ||| ".zip.spdx.json"@.is_suffix_of(name)
}

/// What the mirror does with a file.
#[derive(Clone, Copy, Debug, PartialEq, Eq, Structural)]
pub enum MirrorAction {
    /// It does not belong to an archive.
    Ignore,
    /// The copy is there already.
    Skip,
    Copy,
}

/// A file that the application ships. The sizes are absent where they could not be
/// read.
#[derive(Debug)]
pub struct ShippedFile {
    pub name: String,
    pub size: Option<u64>,
    pub copy_exists: bool,
    pub copy_size: Option<u64>,
}

/// The file's copy is there and as large as the file.
pub open spec fn up_to_date(file: ShippedFile) -> bool {
    &&& file.copy_exists
    &&& file.size matches Some(n)
    &&& file.copy_size == Some(n)
}

/// What the mirror does with a file: a copy that is as large as the file stays, and
/// any other is written anew.
pub open spec fn action_for(file: ShippedFile) -> MirrorAction {
    if !mirrored_name(file.name@) {
        MirrorAction::Ignore
    } else if up_to_date(file) {
        MirrorAction::Skip
    } else {
        MirrorAction::Copy
    }
}

/// Decides what the mirror does with a file.
pub fn mirror_action(file: &ShippedFile) -> (r: MirrorAction)
    ensures
        r == action_for(*file),
{
    let name: &str = file.name.as_str();
    if !(ends_with(name, ".zip") || ends_with(name, ".zip.provenance.json") || ends_with(
        name,
        ".zip.sigstore.json",
    ) || ends_with(name, ".zip.cdx.json") || ends_with(name, ".zip.spdx.json")) {
        return MirrorAction::Ignore;
    }
    if file.copy_exists {
        match (file.size, file.copy_size) {
            (Some(n), Some(m)) => {
                if n == m {
                    return MirrorAction::Skip;
                }
            },
            _ => {},
        }
    }
    MirrorAction::Copy
}

/// The mirror is idempotent: a file that was copied is left alone the next time.
pub proof fn mirroring_twice_copies_once(file: ShippedFile, again: ShippedFile)
    requires
        action_for(file) == MirrorAction::Copy,
        again.name == file.name,
        again.size is Some,
        again.copy_exists,
        again.copy_size == again.size,
    ensures
        action_for(again) == MirrorAction::Skip,
{
}

/// What the mirror did.
#[derive(Debug)]
pub struct MirrorTally {
    pub mirrored: usize,
    pub skipped: usize,
}

/// How many of `actions` are `wanted` ones that went well.
pub open spec fn count_of(done: Seq<(MirrorAction, bool)>, wanted: MirrorAction) -> nat
    decreases done.len(),
{
    if done.len() == 0 {
        0
    } else {
        let last = done.last();
        count_of(done.drop_last(), wanted) + (if last.0 == wanted && (wanted != MirrorAction::Copy
            || last.1) {
            1nat
        } else {
            0nat
        })
    }
}

/// Counts what the mirror did: each file's action, and whether it went well. A copy
/// that failed counts nowhere.
pub fn tally(done: &Vec<(MirrorAction, bool)>) -> (r: MirrorTally)
    ensures
        r.mirrored == count_of(done@, MirrorAction::Copy),
        r.skipped == count_of(done@, MirrorAction::Skip),
{
    let mut mirrored: usize = 0;
    let mut skipped: usize = 0;
    let mut i: usize = 0;
    while i < done.len()
        invariant
            i <= done.len(),
            mirrored <= i,
            skipped <= i,
            mirrored == count_of(done@.take(i as int), MirrorAction::Copy),
            skipped == count_of(done@.take(i as int), MirrorAction::Skip),
        decreases done.len() - i,
    {
        assert(done@.take(i + 1).drop_last() =~= done@.take(i as int));
        assert(done@.take(i + 1).last() == done@[i as int]);
        let (action, well): (MirrorAction, bool) = done[i];
        if action == MirrorAction::Copy && well {
            mirrored += 1;
        }
        if action == MirrorAction::Skip {
            skipped += 1;
        }
        i += 1;
    }
    assert(done@.take(i as int) =~= done@);
    MirrorTally { mirrored, skipped }
}

/// Where the archives may lie, best place first: the override, then the resources
/// of the application bundle, in the layout of today and in the older one.
pub fn source_candidates(override_dir: Option<String>, bundle: Option<&str>) -> (r: Vec<String>)
    ensures
        texts(r@) == (match override_dir {
            Some(dir) => seq![dir@],
            None => Seq::empty(),
        }) + (match bundle {
            Some(root) => seq![
                root@ + "/Resources/resources/plugins"@,
                root@ + "/Resources/plugins"@,
            ],
            None => Seq::empty(),
        }),
{
    let mut out: Vec<String> = Vec::new();
    match override_dir {
        Some(dir) => out.push(dir),
        None => {},
    }
    let ghost first = texts(out@);
    assert(first =~= match override_dir {
        Some(dir) => seq![dir@],
        None => Seq::empty(),
    });
    match bundle {
        Some(root) => {
            let mut current: String = root.to_owned();
            current.append("/Resources/resources/plugins");
            let mut legacy: String = root.to_owned();
            legacy.append("/Resources/plugins");
            out.push(current);
            out.push(legacy);
            assert(texts(out@) =~= first + seq![
                root@ + "/Resources/resources/plugins"@,
                root@ + "/Resources/plugins"@,
            ]);
        },
        None => {
            assert(texts(out@) =~= first + Seq::<Seq<char>>::empty());
        },
    }
    out
}

/// The first place that is a directory.
pub open spec fn first_place(candidates: Seq<Seq<char>>, is_dir: Seq<bool>) -> Option<Seq<char>>
    decreases candidates.len(),
{
    if candidates.len() == 0 || is_dir.len() == 0 {
        None
    } else if is_dir[0] {
        Some(candidates[0])
    } else {
        first_place(candidates.skip(1), is_dir.skip(1))
    }
}

/// Picks the first place that is a directory; there may be none.
pub fn resolve_source_dir(candidates: &Vec<String>, is_dir: &Vec<bool>) -> (r: Option<String>)
    ensures
        opt_view(r) == first_place(texts(candidates@), is_dir@),
{
    let ghost names = texts(candidates@);
    let mut i: usize = 0;
    assert(names.skip(0) =~= names);
    assert(is_dir@.skip(0) =~= is_dir@);
    while i < candidates.len() && i < is_dir.len()
        invariant
            names == texts(candidates@),
            i <= candidates.len(),
            i <= is_dir.len(),
            first_place(names, is_dir@) == first_place(names.skip(i as int), is_dir@.skip(i as int)),
        decreases candidates.len() - i,
    {
        if is_dir[i] {
            return Some(candidates[i].clone());
        }
        assert(names.skip(i as int).skip(1) =~= names.skip(i + 1));
        assert(is_dir@.skip(i as int).skip(1) =~= is_dir@.skip(i + 1));
        i += 1;
    }
    None
}

/// A listed archive.
#[derive(Debug)]
pub struct BundledPlugin {
    /// The name of the file in the archives' directory.
    pub file: String,
    /// The plugin's id; none where the archive could not be read.
    pub plugin_id: Option<String>,
    pub version: Option<String>,
    pub description: Option<String>,
    /// The size of the archive, in bytes.
    pub size_bytes: u64,
    /// A plugin with this id is installed, in whatever version.
    pub already_installed: bool,
}

/// The listed archives.
#[derive(Debug)]
pub struct BundledPluginListResponse {
    pub plugins: Vec<BundledPlugin>,
}

/// What an archive's manifest says.
#[derive(Debug)]
pub struct ManifestFields {
    pub id: String,
    pub version: String,
    pub description: Option<String>,
}

/// A file in the archives' directory. The manifest is absent where the file is not a
/// readable archive.
#[derive(Debug)]
pub struct BundledFile {
    pub name: String,
    pub size: Option<u64>,
    pub manifest: Option<ManifestFields>,
}

/// The model of a [`BundledPlugin`].
#[verifier::ext_equal]
pub struct BundledModel {
    pub file: Seq<char>,
    pub plugin_id: Option<Seq<char>>,
    pub version: Option<Seq<char>>,
    pub description: Option<Seq<char>>,
    pub size_bytes: u64,
    pub already_installed: bool,
}

impl View for BundledPlugin {
    type V = BundledModel;

    open spec fn view(&self) -> BundledModel {
        BundledModel {
            file: self.file@,
            plugin_id: opt_view(self.plugin_id),
            version: opt_view(self.version),
            description: opt_view(self.description),
            size_bytes: self.size_bytes,
            already_installed: self.already_installed,
        }
    }
}

/// The models of listed archives.
pub open spec fn bundled_models(v: Seq<BundledPlugin>) -> Seq<BundledModel> {
    v.map_values(|p: BundledPlugin| p@)
}

/// The name of an archive: an extension `zip` behind something.
pub open spec fn archive_name(name: Seq<char>) -> bool {
    ".zip"@.is_suffix_of(name) && name.len() > 4
}

/// A description without the blanks around it; a blank one is none.
pub open spec fn described(description: Option<String>) -> Option<Seq<char>> {
    match description {
        Some(d) => if trimmed(d@).len() == 0 {
            None
        } else {
            Some(trimmed(d@))
        },
        None => None,
    }
}

/// How an archive is listed.
pub open spec fn shown(file: BundledFile, installed: Seq<Seq<char>>) -> BundledModel {
    BundledModel {
        file: file.name@,
        plugin_id: match file.manifest {
            Some(m) => Some(m.id@),
            None => None,
        },
        version: match file.manifest {
            Some(m) => Some(m.version@),
            None => None,
        },
        description: match file.manifest {
            Some(m) => described(m.description),
            None => None,
        },
        size_bytes: match file.size {
            Some(n) => n,
            None => 0,
        },
        already_installed: match file.manifest {
            Some(m) => installed.contains(m.id@),
            None => false,
        },
    }
}

/// An archive put in its place by name, behind those of the same name.
pub open spec fn place(list: Seq<BundledModel>, p: BundledModel) -> Seq<BundledModel>
    decreases list.len(),
{
    if list.len() == 0 {
        seq![p]
    } else if lex_le(list.last().file, p.file) {
        list.push(p)
    } else {
        place(list.drop_last(), p).push(list.last())
    }
}

/// The archives among the files, by name.
pub open spec fn listing(files: Seq<BundledFile>, installed: Seq<Seq<char>>) -> Seq<BundledModel>
    decreases files.len(),
{
    if files.len() == 0 {
        Seq::empty()
    } else {
        let before = listing(files.drop_last(), installed);
        if archive_name(files.last().name@) {
            place(before, shown(files.last(), installed))
        } else {
            before
        }
    }
}

fn insert_by_name(list: &mut Vec<BundledPlugin>, p: BundledPlugin)
    ensures
        bundled_models(final(list)@) == place(bundled_models(old(list)@), p@),
{
    let ghost all = bundled_models(list@);
    let mut i: usize = list.len();
    assert(all.take(i as int) =~= all);
    assert(all.skip(i as int) =~= Seq::<BundledModel>::empty());
    assert(place(all, p@) =~= place(all.take(i as int), p@) + all.skip(i as int));
    while i > 0 && !text_le(list[i - 1].file.as_str(), p.file.as_str())
        invariant
            i <= list.len(),
            *list == *old(list),
            all == bundled_models(list@),
            place(all, p@) == place(all.take(i as int), p@) + all.skip(i as int),
        decreases i,
    {
        i -= 1;
        proof {
            let head = all.take(i + 1);
            assert(head.last() == list@[i as int]@);
            assert(head.drop_last() =~= all.take(i as int));
            assert(place(all.take(i as int), p@).push(head.last()) + all.skip(i + 1) =~= place(
                all.take(i as int),
                p@,
            ) + all.skip(i as int));
        }
    }
    proof {
        if i > 0 {
            assert(all.take(i as int).last() == list@[i - 1]@);
        }
        assert(place(all.take(i as int), p@) =~= all.take(i as int).push(p@));
    }
    let ghost m = p@;
    list.insert(i, p);
    assert(bundled_models(list@) =~= all.take(i as int).push(m) + all.skip(i as int));
}

/// Lists the archives among the files of the archives' directory, by name.
pub fn list_bundled(files: Vec<BundledFile>, installed: &Vec<String>) -> (r:
    BundledPluginListResponse)
    ensures
        bundled_models(r.plugins@) == listing(files@, texts(installed@)),
{
    let mut out: Vec<BundledPlugin> = Vec::new();
    let mut i: usize = 0;
    assert(bundled_models(out@) =~= listing(files@.take(0), texts(installed@)));
    while i < files.len()
        invariant
            i <= files.len(),
            bundled_models(out@) == listing(files@.take(i as int), texts(installed@)),
        decreases files.len() - i,
    {
        assert(files@.take(i + 1).drop_last() =~= files@.take(i as int));
        assert(files@.take(i + 1).last() == files@[i as int]);
        let file: &BundledFile = &files[i];
        let name: &str = file.name.as_str();
        if ends_with(name, ".zip") && name.unicode_len() > 4 {
            let size_bytes: u64 = match file.size {
                Some(n) => n,
                None => 0,
            };
            let plugin: BundledPlugin = match &file.manifest {
                Some(m) => BundledPlugin {
                    file: file.name.clone(),
                    plugin_id: Some(m.id.clone()),
                    version: Some(m.version.clone()),
                    description: clean_description(&m.description),
                    size_bytes,
                    already_installed: any_same(installed, m.id.as_str()),
                },
                None => BundledPlugin {
                    file: file.name.clone(),
                    plugin_id: None,
                    version: None,
                    description: None,
                    size_bytes,
                    already_installed: false,
                },
            };
            assert(plugin@ =~= shown(*file, texts(installed@)));
            insert_by_name(&mut out, plugin);
        }
        i += 1;
    }
    assert(files@.take(i as int) =~= files@);
    BundledPluginListResponse { plugins: out }
}

fn clean_description(description: &Option<String>) -> (r: Option<String>)
    ensures
        opt_view(r) == described(*description),
{
    match description {
        Some(d) => {
            let t: String = trim(d.as_str());
            if t.as_str().unicode_len() == 0 {
                None
            } else {
                Some(t)
            }
        },
        None => None,
    }
}

/// The list is in the order of the names.
pub open spec fn by_name(list: Seq<BundledModel>) -> bool {
    forall|i: int, j: int|
        0 <= i <= j < list.len() ==> lex_le(#[trigger] list[i].file, #[trigger] list[j].file)
}

proof fn place_keeps_order(list: Seq<BundledModel>, p: BundledModel)
    requires
        by_name(list),
    ensures
        by_name(place(list, p)),
        place(list, p).to_multiset() == list.to_multiset().insert(p),
        place(list, p).len() == list.len() + 1,
        forall|i: int|
            0 <= i < place(list, p).len() ==> (#[trigger] place(list, p)[i]) == p || list.contains(
                place(list, p)[i],
            ),
    decreases list.len(),
{
    broadcast use vstd::seq_lib::group_to_multiset_ensures;

    let after = place(list, p);
    if list.len() == 0 {
        assert(seq![p] =~= Seq::<BundledModel>::empty().push(p));
        lex_le_is_total(p.file, p.file);
        assert(list =~= Seq::<BundledModel>::empty());
    } else if lex_le(list.last().file, p.file) {
        lex_le_is_total(p.file, p.file);
        assert forall|i: int, j: int| 0 <= i <= j < after.len() implies lex_le(
            #[trigger] after[i].file,
            #[trigger] after[j].file,
        ) by {
            if j == list.len() && i < list.len() {
                assert(lex_le(list[i].file, list[list.len() - 1].file));
                lex_le_is_transitive(list[i].file, list.last().file, p.file);
            }
        }
        assert forall|i: int| 0 <= i < after.len() implies (#[trigger] after[i]) == p
            || list.contains(after[i]) by {
            if i < list.len() {
                assert(after[i] == list[i]);
            }
        }
    } else {
        let front = list.drop_last();
        assert forall|i: int, j: int| 0 <= i <= j < front.len() implies lex_le(
            #[trigger] front[i].file,
            #[trigger] front[j].file,
        ) by {
            assert(lex_le(list[i].file, list[j].file));
        }
        place_keeps_order(front, p);
        let placed = place(front, p);
        lex_le_is_total(list.last().file, p.file);
        lex_le_is_total(list.last().file, list.last().file);
        assert forall|i: int| 0 <= i < after.len() implies (#[trigger] after[i]) == p
            || list.contains(after[i]) by {
            if i < placed.len() {
                assert(after[i] == placed[i]);
                if placed[i] != p {
                    let k = choose|k: int| 0 <= k < front.len() && front[k] == placed[i];
                    assert(list[k] == after[i]);
                }
            } else {
                assert(after[i] == list[list.len() - 1]);
            }
        }
        assert forall|i: int, j: int| 0 <= i <= j < after.len() implies lex_le(
            #[trigger] after[i].file,
            #[trigger] after[j].file,
        ) by {
            if j < placed.len() {
                assert(lex_le(placed[i].file, placed[j].file));
            } else if i < placed.len() {
                assert(after[i] == placed[i]);
                if placed[i] != p {
                    let k = choose|k: int| 0 <= k < front.len() && front[k] == placed[i];
                    assert(lex_le(list[k].file, list[list.len() - 1].file));
                }
            }
        }
        assert(list =~= front.push(list.last()));
        assert(after.to_multiset() =~= list.to_multiset().insert(p));
    }
}

/// The archives among the files, as they are shown.
pub open spec fn shown_all(files: Seq<BundledFile>, installed: Seq<Seq<char>>) -> Multiset<
    BundledModel,
>
    decreases files.len(),
{
    if files.len() == 0 {
        Multiset::empty()
    } else {
        let before = shown_all(files.drop_last(), installed);
        if archive_name(files.last().name@) {
            before.insert(shown(files.last(), installed))
        } else {
            before
        }
    }
}

/// The list is in the order of the names, and holds every archive among the files
/// once and nothing else.
pub proof fn the_list_is_sorted_and_complete(files: Seq<BundledFile>, installed: Seq<Seq<char>>)
    ensures
        by_name(listing(files, installed)),
        listing(files, installed).to_multiset() == shown_all(files, installed),
    decreases files.len(),
{
    broadcast use vstd::seq_lib::group_to_multiset_ensures;

    if files.len() > 0 {
        the_list_is_sorted_and_complete(files.drop_last(), installed);
        if archive_name(files.last().name@) {
            place_keeps_order(
                listing(files.drop_last(), installed),
                shown(files.last(), installed),
            );
        }
    } else {
        assert(listing(files, installed).to_multiset() =~= Multiset::<BundledModel>::empty());
    }
}

/// A request to install an archive.
#[derive(Debug)]
pub struct InstallBundledQuery {
    /// The name of a file in the archives' directory, without any path.
    pub file: String,
    /// `upgrade` replaces an installed plugin of the same id; anything else refuses.
    pub if_existing: Option<String>,
}

/// A name that stays in its directory: no separator and no parent.
pub open spec fn bare(name: Seq<char>) -> bool {
    &&& !name.contains('/')
    &&& !name.contains('\\')
    &&& !has_text(name, ".."@)
}

fn holds_char(name: &str, wanted: char) -> (r: bool)
    ensures
        r == name@.contains(wanted),
{
    let chars: Vec<char> = chars_of(name);
    let mut i: usize = 0;
    while i < chars.len()
        invariant
            i <= chars.len(),
            chars@ == name@,
            forall|j: int| 0 <= j < i ==> chars@[j] != wanted,
        decreases chars.len() - i,
    {
        if chars[i] == wanted {
            assert(name@[i as int] == wanted);
            return true;
        }
        i += 1;
    }
    false
}

/// Refuses a name that is not that of an archive in the archives' directory.
pub fn check_bundled_name(file: &str) -> (r: Result<(), ApiError>)
    ensures
        !bare(file@) ==> (r matches Err(e) && e@ == error(
            400,
            "bad_filename"@,
            "file must be a bare filename inside bundled-plugins/"@,
        )),
        bare(file@) && !".zip"@.is_suffix_of(file@) ==> (r matches Err(e) && e@ == error(
            400,
            "bad_filename"@,
            "file must end in .zip"@,
        )),
        bare(file@) && ".zip"@.is_suffix_of(file@) ==> r is Ok,
{
    if holds_char(file, '/') || holds_char(file, '\\') || contains(file, "..") {
        return Err(
            ApiError::new(
                400,
                "bad_filename",
                "file must be a bare filename inside bundled-plugins/".to_owned(),
            ),
        );
    }
    if !ends_with(file, ".zip") {
        return Err(ApiError::new(400, "bad_filename", "file must end in .zip".to_owned()));
    }
    Ok(())
}

/// The ending of the bill of materials in a format.
pub open spec fn sbom_ending(format: Seq<char>) -> Seq<char> {
    if format == "cyclonedx"@ {
        ".cdx.json"@
    } else if format == "spdx"@ {
        ".spdx.json"@
    } else {
        ".invalid"@
    }
}

proof fn ending_keeps_bare(file: Seq<char>, ending: Seq<char>)
    requires
        bare(file),
        file.len() > 0,
        file.last() != '.',
        !ending.contains('/'),
        !ending.contains('\\'),
        forall|i: int| 0 <= i < ending.len() - 1 ==> !(#[trigger] ending[i] == '.' && ending[i + 1] == '.'),
    ensures
        bare(file + ending),
{
    let whole = file + ending;
    reveal_strlit("..");
    if whole.contains('/') {
        let k = choose|k: int| 0 <= k < whole.len() && whole[k] == '/';
        if k < file.len() {
            assert(file[k] == '/');
        } else {
            assert(ending[k - file.len()] == '/');
        }
    }
    if whole.contains('\\') {
        let k = choose|k: int| 0 <= k < whole.len() && whole[k] == '\\';
        if k < file.len() {
            assert(file[k] == '\\');
        } else {
            assert(ending[k - file.len()] == '\\');
        }
    }
    if has_text(whole, ".."@) {
        let k = choose|k: int| occurs_at(whole, ".."@, k);
        let found = whole.subrange(k, k + 2);
        assert(found[0] == ".."@[0] && found[1] == ".."@[1]);
        assert(whole[k] == '.' && whole[k + 1] == '.');
        if k + 1 < file.len() {
            assert(file.subrange(k, k + 2) =~= ".."@);
            assert(occurs_at(file, ".."@, k));
        } else if k + 1 == file.len() {
            assert(whole[k] == file.last());
        } else {
            let j = k - file.len();
            assert(ending[j] == '.' && ending[j + 1] == '.');
        }
    }
}

/// Every file that is read for an accepted archive lies in the archives' directory:
/// the names of its documents are as bare as its own.
pub proof fn documents_lie_beside_the_archive(file: Seq<char>, format: Seq<char>)
    requires
        bare(file),
        ".zip"@.is_suffix_of(file),
    ensures
        bare(file + ".provenance.json"@),
        bare(file + ".sigstore.json"@),
        bare(file + sbom_ending(format)),
{
    reveal_strlit(".zip");
    reveal_strlit(".provenance.json");
    reveal_strlit(".sigstore.json");
    reveal_strlit(".cdx.json");
    reveal_strlit(".spdx.json");
    reveal_strlit(".invalid");
    assert(file.last() == ".zip"@.last());
    ending_keeps_bare(file, ".provenance.json"@);
    ending_keeps_bare(file, ".sigstore.json"@);
    ending_keeps_bare(file, sbom_ending(format));
}

/// What the installation needs next, or how it ended.
#[derive(Debug)]
pub enum InstallAsk {
    /// Look whether the archive is there.
    Locate { file: String },
    /// Read the archive.
    ReadArchive,
    /// Unpack the archive and read its manifest.
    Stage,
    /// Read the statement of where the archive comes from.
    ReadProvenance { file: String },
    /// Look at the directory that the plugin is to live in. The statement refers to
    /// the signature and the bill of materials under these names.
    Inspect { signature: String, sbom: String, directory: String },
    /// Remove that directory.
    Clear,
    /// Make its parent.
    MakeParent,
    /// Move the unpacked archive there.
    Move,
    /// Verify the archive against its statement.
    Authorize,
    /// Install the plugin.
    Install,
    /// Upgrade the plugin.
    Upgrade,
    /// The request is refused.
    Refuse(ApiError),
    /// The plugin is installed.
    Done(InstallResponse),
}

/// What an installed plugin is reported as.
#[derive(Debug)]
pub struct InstallResponse {
    pub plugin_id: String,
    pub version: String,
}

/// What comes next. Where `discard` is set, the plugin's directory is removed first.
#[derive(Debug)]
pub struct InstallStep {
    pub discard: bool,
    pub ask: InstallAsk,
}

/// What the installation waits for.
#[derive(Clone, Copy, Debug, PartialEq, Eq, Structural)]
pub enum InstallStage {
    Locating,
    Reading,
    Staging,
    ReadingProvenance,
    Inspecting,
    Clearing,
    MakingParent,
    Moving,
    Authorizing,
    Installing,
    Ended,
}

impl InstallStage {
    /// How far an installation has come. Every answer takes it further, so it ends.
    pub open spec fn place(self) -> nat {
        match self {
            InstallStage::Locating => 0,
            InstallStage::Reading => 1,
            InstallStage::Staging => 2,
            InstallStage::ReadingProvenance => 3,
            InstallStage::Inspecting => 4,
            InstallStage::Clearing => 5,
            InstallStage::MakingParent => 6,
            InstallStage::Moving => 7,
            InstallStage::Authorizing => 8,
            InstallStage::Installing => 9,
            InstallStage::Ended => 10,
        }
    }
}

/// An installation on its way.
#[derive(Debug)]
pub struct InstallTurn {
    pub file: String,
    pub upgrade: bool,
    /// The archive's path, for people.
    pub path: String,
    pub plugin_id: String,
    pub version: String,
    pub stage: InstallStage,
}

/// The request is refused, and nothing is removed.
pub open spec fn refuses(
    step: InstallStep,
    status: u16,
    code: Seq<char>,
    message: Seq<char>,
) -> bool {
    &&& !step.discard
    &&& step.ask matches InstallAsk::Refuse(e)
    &&& e@ == error(status, code, message)
}

/// The request is refused, and the plugin's directory is removed.
pub open spec fn refuses_and_discards(
    step: InstallStep,
    status: u16,
    code: Seq<char>,
    message: Seq<char>,
) -> bool {
    &&& step.discard
    &&& step.ask matches InstallAsk::Refuse(e)
    &&& e@ == error(status, code, message)
}

fn go(ask: InstallAsk) -> (r: InstallStep)
    ensures
        !r.discard,
        r.ask == ask,
{
    InstallStep { discard: false, ask }
}

fn refuse(status: u16, code: &str, message: String) -> (r: InstallStep)
    ensures
        refuses(r, status, code@, message@),
{
    go(InstallAsk::Refuse(ApiError::new(status, code, message)))
}

fn lead(head: &str, tail: &str) -> (r: String)
    ensures
        r@ == head@ + tail@,
{
    let mut out: String = head.to_owned();
    out.append(tail);
    out
}

fn three(a: &str, b: &str, c: &str) -> (r: String)
    ensures
        r@ == a@ + b@ + c@,
{
    let mut out: String = a.to_owned();
    out.append(b);
    out.append(c);
    out
}

impl InstallTurn {
    /// The same installation at another stage.
    pub open spec fn at(self, stage: InstallStage) -> InstallTurn {
        InstallTurn { stage, ..self }
    }

    /// Begins an installation.
    pub fn begin(query: InstallBundledQuery) -> (r: (InstallTurn, InstallStep))
        ensures
            r.0.file == query.file,
            r.0.upgrade == (opt_view(query.if_existing) == Some("upgrade"@)),
            !bare(query.file@) ==> r.0.stage == InstallStage::Ended && refuses(
                r.1,
                400,
                "bad_filename"@,
                "file must be a bare filename inside bundled-plugins/"@,
            ),
            bare(query.file@) && !".zip"@.is_suffix_of(query.file@) ==> r.0.stage
                == InstallStage::Ended && refuses(
                r.1,
                400,
                "bad_filename"@,
                "file must end in .zip"@,
            ),
            bare(query.file@) && ".zip"@.is_suffix_of(query.file@) ==> r.0.stage
                == InstallStage::Locating && r.1 == (InstallStep {
                discard: false,
                ask: InstallAsk::Locate { file: query.file },
            }),
    {
        let upgrade: bool = match &query.if_existing {
            Some(s) => same(s.as_str(), "upgrade"),
            None => false,
        };
        let mut turn = InstallTurn {
            file: query.file,
            upgrade,
            path: String::new(),
            plugin_id: String::new(),
            version: String::new(),
            stage: InstallStage::Locating,
        };
        match check_bundled_name(turn.file.as_str()) {
            Err(e) => {
                turn.stage = InstallStage::Ended;
                (turn, go(InstallAsk::Refuse(e)))
            },
            Ok(_) => {
                let file: String = turn.file.clone();
                (turn, go(InstallAsk::Locate { file }))
            },
        }
    }

    /// The archive is there, at this path, or is not.
    pub fn on_located(&mut self, exists_there: bool, path: String) -> (r: InstallStep)
        requires
            old(self).stage == InstallStage::Locating,
        ensures
            old(self).stage.place() < final(self).stage.place(),
            exists_there ==> *final(self) == (InstallTurn { path, ..*old(self) }).at(
                InstallStage::Reading,
            ) && !r.discard && r.ask == InstallAsk::ReadArchive,
            !exists_there ==> final(self).stage == InstallStage::Ended && refuses(
                r,
                404,
                "not_found"@,
                "no bundled plugin at "@ + path@,
            ),
    {
        if !exists_there {
            self.stage = InstallStage::Ended;
            return refuse(404, "not_found", lead("no bundled plugin at ", path.as_str()));
        }
        self.path = path;
        self.stage = InstallStage::Reading;
        go(InstallAsk::ReadArchive)
    }

    /// The archive was read, or could not be.
    pub fn on_read(&mut self, read: Result<(), String>) -> (r: InstallStep)
        requires
            old(self).stage == InstallStage::Reading,
        ensures
            old(self).stage.place() < final(self).stage.place(),
            read is Ok ==> *final(self) == old(self).at(InstallStage::Staging) && !r.discard && r.ask
                == InstallAsk::Stage,
            read matches Err(e) ==> *final(self) == old(self).at(InstallStage::Ended) && refuses(
                r,
                500,
                "read_failed"@,
                "read "@ + old(self).path@ + ": "@ + e@,
            ),
    {
        match read {
            Ok(_) => {
                self.stage = InstallStage::Staging;
                go(InstallAsk::Stage)
            },
            Err(e) => {
                self.stage = InstallStage::Ended;
                let mut message: String = three("read ", self.path.as_str(), ": ");
                message.append(e.as_str());
                refuse(500, "read_failed", message)
            },
        }
    }

    /// The archive was unpacked and names its plugin and version, or is not an
    /// archive.
    pub fn on_staged(&mut self, staged: Result<(String, String), String>) -> (r: InstallStep)
        requires
            old(self).stage == InstallStage::Staging,
        ensures
            old(self).stage.place() < final(self).stage.place(),
            staged matches Ok((plugin_id, version)) ==> {
                &&& *final(self) == (InstallTurn { plugin_id, version, ..*old(self) }).at(
                    InstallStage::ReadingProvenance,
                )
                &&& !r.discard
                &&& r.ask matches InstallAsk::ReadProvenance { file }
                &&& file@ == old(self).file@ + ".provenance.json"@
            },
            staged matches Err(e) ==> *final(self) == old(self).at(InstallStage::Ended) && refuses(
                r,
                400,
                "stage_failed"@,
                "stage failed: "@ + e@,
            ),
    {
        match staged {
            Ok((plugin_id, version)) => {
                self.plugin_id = plugin_id;
                self.version = version;
                self.stage = InstallStage::ReadingProvenance;
                go(
                    InstallAsk::ReadProvenance {
                        file: lead(self.file.as_str(), ".provenance.json"),
                    },
                )
            },
            Err(e) => {
                self.stage = InstallStage::Ended;
                refuse(400, "stage_failed", lead("stage failed: ", e.as_str()))
            },
        }
    }

    /// The statement was read and names the format of its bill of materials; or it is
    /// missing; or it is no statement.
    pub fn on_provenance(&mut self, provenance: Result<String, ProvenanceFault>) -> (r: InstallStep)
        requires
            old(self).stage == InstallStage::ReadingProvenance,
        ensures
            old(self).stage.place() < final(self).stage.place(),
            provenance matches Ok(sbom_format) ==> {
                &&& *final(self) == old(self).at(InstallStage::Inspecting)
                &&& !r.discard
                &&& r.ask matches InstallAsk::Inspect { signature, sbom, directory }
                &&& signature@ == old(self).file@ + ".sigstore.json"@
                &&& sbom@ == old(self).file@ + sbom_ending(sbom_format@)
                &&& directory@ == old(self).plugin_id@ + "-"@ + old(self).version@
            },
            provenance matches Err(ProvenanceFault::Missing { path, cause }) ==> *final(self)
                == old(self).at(InstallStage::Ended) && refuses(
                r,
                403,
                "provenance_required"@,
                "missing detached provenance "@ + path@ + ": "@ + cause@,
            ),
            provenance matches Err(ProvenanceFault::Invalid(e)) ==> *final(self) == old(self).at(
                InstallStage::Ended,
            ) && refuses(r, 400, "invalid_provenance"@, e@),
    {
        match provenance {
            Ok(sbom_format) => {
                self.stage = InstallStage::Inspecting;
                let ending: &str = if same(sbom_format.as_str(), "cyclonedx") {
                    ".cdx.json"
                } else if same(sbom_format.as_str(), "spdx") {
                    ".spdx.json"
                } else {
                    ".invalid"
                };
                go(
                    InstallAsk::Inspect {
                        signature: lead(self.file.as_str(), ".sigstore.json"),
                        sbom: lead(self.file.as_str(), ending),
                        directory: three(self.plugin_id.as_str(), "-", self.version.as_str()),
                    },
                )
            },
            Err(ProvenanceFault::Missing { path, cause }) => {
                self.stage = InstallStage::Ended;
                let mut message: String = three(
                    "missing detached provenance ",
                    path.as_str(),
                    ": ",
                );
                message.append(cause.as_str());
                refuse(403, "provenance_required", message)
            },
            Err(ProvenanceFault::Invalid(e)) => {
                self.stage = InstallStage::Ended;
                refuse(400, "invalid_provenance", e)
            },
        }
    }

    /// The plugin's directory is there, at this path, or is not; and a plugin with
    /// its id is installed or is not. Without `upgrade` neither may be.
    pub fn on_inspected(&mut self, exists_there: bool, path: &str, installed: bool) -> (r:
        InstallStep)
        requires
            old(self).stage == InstallStage::Inspecting,
        ensures
            old(self).stage.place() < final(self).stage.place(),
            exists_there && !old(self).upgrade ==> *final(self) == old(self).at(InstallStage::Ended)
                && refuses(
                r,
                409,
                "already_staged"@,
                "a staged dir already exists at "@ + path@
                    + "; pass if_existing=upgrade to replace it"@,
            ),
            !exists_there && installed && !old(self).upgrade ==> *final(self) == old(self).at(
                InstallStage::Ended,
            ) && refuses(
                r,
                409,
                "already_installed"@,
                "Plugin already installed (use if_existing=upgrade)"@,
            ),
            exists_there && old(self).upgrade ==> *final(self) == old(self).at(
                InstallStage::Clearing,
            ) && !r.discard && r.ask == InstallAsk::Clear,
            !exists_there && (old(self).upgrade || !installed) ==> *final(self) == old(self).at(
                InstallStage::MakingParent,
            ) && !r.discard && r.ask == InstallAsk::MakeParent,
    {
        if !self.upgrade && exists_there {
            self.stage = InstallStage::Ended;
            return refuse(
                409,
                "already_staged",
                three(
                    "a staged dir already exists at ",
                    path,
                    "; pass if_existing=upgrade to replace it",
                ),
            );
        }
        if !self.upgrade && installed {
            self.stage = InstallStage::Ended;
            return refuse(
                409,
                "already_installed",
                "Plugin already installed (use if_existing=upgrade)".to_owned(),
            );
        }
        if exists_there {
            self.stage = InstallStage::Clearing;
            return go(InstallAsk::Clear);
        }
        self.stage = InstallStage::MakingParent;
        go(InstallAsk::MakeParent)
    }

    /// The plugin's directory was removed, or could not be.
    pub fn on_cleared(&mut self, cleared: Result<(), String>) -> (r: InstallStep)
        requires
            old(self).stage == InstallStage::Clearing,
        ensures
            old(self).stage.place() < final(self).stage.place(),
            cleared is Ok ==> *final(self) == old(self).at(InstallStage::MakingParent) && !r.discard
                && r.ask == InstallAsk::MakeParent,
            cleared matches Err(e) ==> *final(self) == old(self).at(InstallStage::Ended) && refuses(
                r,
                500,
                "stage_clear"@,
                "could not clear existing stage dir: "@ + e@,
            ),
    {
        match cleared {
            Ok(_) => {
                self.stage = InstallStage::MakingParent;
                go(InstallAsk::MakeParent)
            },
            Err(e) => {
                self.stage = InstallStage::Ended;
                refuse(
                    500,
                    "stage_clear",
                    lead("could not clear existing stage dir: ", e.as_str()),
                )
            },
        }
    }

    /// The parent directory is there, or could not be made.
    pub fn on_parent(&mut self, made: Result<(), String>) -> (r: InstallStep)
        requires
            old(self).stage == InstallStage::MakingParent,
        ensures
            old(self).stage.place() < final(self).stage.place(),
            made is Ok ==> *final(self) == old(self).at(InstallStage::Moving) && !r.discard && r.ask
                == InstallAsk::Move,
            made matches Err(e) ==> *final(self) == old(self).at(InstallStage::Ended) && refuses(
                r,
                500,
                "stage_mkdir"@,
                "mkdir: "@ + e@,
            ),
    {
        match made {
            Ok(_) => {
                self.stage = InstallStage::Moving;
                go(InstallAsk::Move)
            },
            Err(e) => {
                self.stage = InstallStage::Ended;
                refuse(500, "stage_mkdir", lead("mkdir: ", e.as_str()))
            },
        }
    }

    /// The unpacked archive was moved, or could be neither renamed nor copied.
    pub fn on_moved(&mut self, moved: Result<(), (String, String)>) -> (r: InstallStep)
        requires
            old(self).stage == InstallStage::Moving,
        ensures
            old(self).stage.place() < final(self).stage.place(),
            moved is Ok ==> *final(self) == old(self).at(InstallStage::Authorizing) && !r.discard
                && r.ask == InstallAsk::Authorize,
            moved matches Err((rename, copy)) ==> *final(self) == old(self).at(InstallStage::Ended)
                && refuses(
                r,
                500,
                "stage_move"@,
                "rename+copy failed: "@ + rename@ + " / "@ + copy@,
            ),
    {
        match moved {
            Ok(_) => {
                self.stage = InstallStage::Authorizing;
                go(InstallAsk::Authorize)
            },
            Err((rename, copy)) => {
                self.stage = InstallStage::Ended;
                let mut message: String = three("rename+copy failed: ", rename.as_str(), " / ");
                message.append(copy.as_str());
                refuse(500, "stage_move", message)
            },
        }
    }

    /// The archive was verified against its statement, or is refused. Only a verified
    /// plugin is installed; an upgrade of a plugin that is not there installs it.
    pub fn on_authorized(&mut self, authorized: Result<(), String>, installed: bool) -> (r:
        InstallStep)
        requires
            old(self).stage == InstallStage::Authorizing,
        ensures
            old(self).stage.place() < final(self).stage.place(),
            authorized is Ok ==> *final(self) == old(self).at(InstallStage::Installing)
                && !r.discard && r.ask == (if old(self).upgrade && installed {
                InstallAsk::Upgrade
            } else {
                InstallAsk::Install
            }),
            authorized matches Err(e) ==> *final(self) == old(self).at(InstallStage::Ended)
                && refuses_and_discards(r, 403, "provenance_verification_failed"@, e@),
    {
        match authorized {
            Ok(_) => {
                self.stage = InstallStage::Installing;
                if self.upgrade && installed {
                    go(InstallAsk::Upgrade)
                } else {
                    go(InstallAsk::Install)
                }
            },
            Err(e) => {
                self.stage = InstallStage::Ended;
                InstallStep {
                    discard: true,
                    ask: InstallAsk::Refuse(
                        ApiError::new(403, "provenance_verification_failed", e),
                    ),
                }
            },
        }
    }

    /// The plugin was installed, or could not be.
    pub fn on_installed(&mut self, installed: Result<InstallResponse, String>) -> (r: InstallStep)
        requires
            old(self).stage == InstallStage::Installing,
        ensures
            old(self).stage.place() < final(self).stage.place(),
            *final(self) == old(self).at(InstallStage::Ended),
            installed matches Ok(done) ==> !r.discard && r.ask == InstallAsk::Done(done),
            installed matches Err(e) ==> refuses_and_discards(r, 500, "install_failed"@, e@),
    {
        self.stage = InstallStage::Ended;
        match installed {
            Ok(done) => go(InstallAsk::Done(done)),
            Err(e) => InstallStep {
                discard: true,
                ask: InstallAsk::Refuse(ApiError::new(500, "install_failed", e)),
            },
        }
    }
}

/// Why there is no statement.
#[derive(Debug)]
pub enum ProvenanceFault {
    Missing { path: String, cause: String },
    Invalid(String),
}

/// An archive and each of the documents that vouch for it are mirrored: copied,
/// unless the copy is there and as large. No other file is.
pub proof fn archives_and_their_documents_are_mirrored(file: ShippedFile)
    ensures
        action_for(file) is Ignore <==> !".zip"@.is_suffix_of(file.name@)
            && !".zip.provenance.json"@.is_suffix_of(file.name@)
            && !".zip.sigstore.json"@.is_suffix_of(file.name@) && !".zip.cdx.json"@.is_suffix_of(
            file.name@,
        ) && !".zip.spdx.json"@.is_suffix_of(file.name@),
        action_for(file) is Skip ==> file.copy_exists && file.size is Some && file.copy_size
            == file.size,
        action_for(file) is Copy ==> !file.copy_exists || file.size is None || file.copy_size
            != file.size,
{
}

/// A file that was left alone counts as skipped, one that was copied as mirrored,
/// and a copy that failed or a file that was ignored counts nowhere.
pub proof fn only_what_went_well_counts(done: Seq<(MirrorAction, bool)>, ok: bool)
    ensures
        count_of(Seq::empty(), MirrorAction::Copy) == 0,
        count_of(Seq::empty(), MirrorAction::Skip) == 0,
        count_of(done.push((MirrorAction::Copy, true)), MirrorAction::Copy) == count_of(
            done,
            MirrorAction::Copy,
        ) + 1,
        count_of(done.push((MirrorAction::Copy, false)), MirrorAction::Copy) == count_of(
            done,
            MirrorAction::Copy,
        ),
        count_of(done.push((MirrorAction::Copy, ok)), MirrorAction::Skip) == count_of(
            done,
            MirrorAction::Skip,
        ),
        count_of(done.push((MirrorAction::Skip, ok)), MirrorAction::Skip) == count_of(
            done,
            MirrorAction::Skip,
        ) + 1,
        count_of(done.push((MirrorAction::Skip, ok)), MirrorAction::Copy) == count_of(
            done,
            MirrorAction::Copy,
        ),
        count_of(done.push((MirrorAction::Ignore, ok)), MirrorAction::Skip) == count_of(
            done,
            MirrorAction::Skip,
        ),
        count_of(done.push((MirrorAction::Ignore, ok)), MirrorAction::Copy) == count_of(
            done,
            MirrorAction::Copy,
        ),
{
    assert(done.push((MirrorAction::Copy, true)).drop_last() =~= done);
    assert(done.push((MirrorAction::Copy, false)).drop_last() =~= done);
    assert(done.push((MirrorAction::Copy, ok)).drop_last() =~= done);
    assert(done.push((MirrorAction::Skip, ok)).drop_last() =~= done);
    assert(done.push((MirrorAction::Ignore, ok)).drop_last() =~= done);
}

/// The archives come from the first place that is a directory; where none is, there
/// are none.
pub proof fn the_first_directory_serves(candidates: Seq<Seq<char>>, is_dir: Seq<bool>, i: int)
    requires
        candidates.len() == is_dir.len(),
        0 <= i <= is_dir.len(),
        forall|j: int| 0 <= j < i ==> !#[trigger] is_dir[j],
        i < is_dir.len() ==> is_dir[i],
    ensures
        first_place(candidates, is_dir) == (if i < is_dir.len() {
            Some(candidates[i])
        } else {
            None
        }),
    decreases i,
{
    if i > 0 {
        let rest = is_dir.skip(1);
        assert(!is_dir[0]);
        assert forall|j: int| 0 <= j < i - 1 implies !#[trigger] rest[j] by {
            assert(rest[j] == is_dir[j + 1]);
        }
        if i < is_dir.len() {
            assert(rest[i - 1] == is_dir[i]);
            assert(candidates.skip(1)[i - 1] == candidates[i]);
        }
        the_first_directory_serves(candidates.skip(1), rest, i - 1);
    }
}

/// An archive is listed under its name and size, and with the id, the version and
/// the description of its manifest; it counts as installed where that id is.
pub proof fn an_archive_is_listed_by_its_manifest(file: BundledFile, installed: Seq<Seq<char>>)
    ensures
        shown(file, installed).file == file.name@,
        file.size matches Some(n) ==> shown(file, installed).size_bytes == n,
        file.size is None ==> shown(file, installed).size_bytes == 0,
        file.manifest matches Some(m) ==> shown(file, installed).plugin_id == Some(m.id@),
        file.manifest matches Some(m) ==> shown(file, installed).version == Some(m.version@),
        file.manifest matches Some(m) ==> (m.description matches Some(d) ==> (trimmed(d@).len() > 0
            ==> shown(file, installed).description == Some(trimmed(d@)))),
        file.manifest matches Some(m) ==> (m.description matches Some(d) ==> (trimmed(d@).len() == 0
            ==> shown(file, installed).description is None)),
        file.manifest matches Some(m) ==> (shown(file, installed).already_installed <==> exists|
            i: int,
        | 0 <= i < installed.len() && #[trigger] installed[i] == m.id@),
        file.manifest is None ==> shown(file, installed).plugin_id is None && shown(
            file,
            installed,
        ).version is None && shown(file, installed).description is None && !shown(
            file,
            installed,
        ).already_installed,
{
}

/// The name of an archive is anything but nothing, with `.zip` behind it.
pub proof fn archives_end_in_zip(stem: Seq<char>, name: Seq<char>)
    ensures
        archive_name(stem + ".zip"@) <==> stem.len() > 0,
        archive_name(name) ==> ".zip"@.is_suffix_of(name),
{
    reveal_strlit(".zip");
    let whole = stem + ".zip"@;
    assert(whole.skip(stem.len() as int) =~= ".zip"@);
    assert(".zip"@.len() == 4);
}

/// A name is bare if and only if none of its characters is a separator and no two
/// dots stand side by side.
pub proof fn a_bare_name_leads_nowhere_else(name: Seq<char>)
    ensures
        bare(name) <==> (forall|i: int|
            0 <= i < name.len() ==> (#[trigger] name[i]) != '/' && name[i] != '\\' && !(i + 1
                < name.len() && name[i] == '.' && name[i + 1] == '.')),
{
    reveal_strlit("..");
    if has_text(name, ".."@) {
        let k = choose|k: int| occurs_at(name, ".."@, k);
        let found = name.subrange(k, k + 2);
        assert(found[0] == ".."@[0] && found[1] == ".."@[1]);
        assert(name[k] == '.' && name[k + 1] == '.');
    }
    if !has_text(name, ".."@) {
        assert forall|i: int| 0 <= i && i + 1 < name.len() implies !((#[trigger] name[i]) == '.'
            && name[i + 1] == '.') by {
            if name[i] == '.' && name[i + 1] == '.' {
                assert(name.subrange(i, i + 2) =~= ".."@);
                assert(occurs_at(name, ".."@, i));
            }
        }
    }
}

} // verus!
