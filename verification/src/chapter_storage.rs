//! Where chapters are stored.
use vstd::prelude::*;
use vstd::string::*;
use vstd::utf8::encode_utf8;

use crate::chapter_paths::{
    lemma_chapter_lies_below_its_folder, lemma_in_memory_if_and_only_if_enabled,
};
use crate::digest::{
    base64_url_text, encode_base64_url, is_url_safe, lemma_base64_is_url_safe, sha256_digest,
    sha256_of_parts,
};
use crate::filenames::{names_entry, sanitize_name, sanitized};
use crate::model::{ChapterId, MangaId};
use crate::paths::{
    components, is_path_below, join_path, lemma_component_holds_no_separator,
    lemma_components_joined, lemma_extension, lemma_one_component, lemma_parent_components,
    parent_path, path_below, path_extension, path_joined, path_parent, path_stem, stem_of_path,
};
use crate::text::{concat3, decimal, decimal_text, optional_text, same_text, texts};

verus! {

/// Where chapters are stored, and how much room they may take.
#[derive(Clone, Debug, PartialEq, Eq)]
pub struct ChapterStorage {
    /// The folder on the disk; chapters in memory never change it.
    pub downloads_folder_path: String,
    pub ram_enabled: bool,
    pub tmpfs_mount_error: Option<String>,
    /// How many bytes the chapters may take.
    pub storage_size_limit: i64,
}

/// What the name of a chapter's file is made of. Numbers are held as decimal text.
pub struct ChapterName {
    pub id: (Seq<char>, Seq<char>, Seq<char>),
    pub manga_title: Seq<char>,
    pub chapter_number: Option<Seq<char>>,
    pub volume_number: Option<Seq<char>>,
}

/// The folder in memory: it stands beside the one on the disk.
pub open spec fn tmpfs_folder(downloads: Seq<char>) -> Seq<char> {
    path_joined(
        match path_parent(downloads) {
            Some(parent) => parent,
            None => downloads,
        },
        "tmpfs"@,
    )
}

/// What a chapter is called in the name of its file.
pub open spec fn chapter_label(name: ChapterName) -> Seq<char> {
    match (name.volume_number, name.chapter_number) {
        (Some(v), Some(c)) => "Vol."@ + v + " Chapter "@ + c,
        (None, Some(c)) => "Chapter "@ + c,
        (_, None) => "Chapter Unknown ("@ + name.id.2 + ")"@,
    }
}

/// The end of the name of a chapter's file.
pub open spec fn chapter_suffix(is_novel: bool) -> Seq<char> {
    if is_novel {
        ".epub"@
    } else {
        ".cbz"@
    }
}

/// The path of a chapter below a folder: in a folder for its manga, under the title
/// of the manga and the label of the chapter.
pub open spec fn path_in_folder(folder: Seq<char>, name: ChapterName, is_novel: bool) -> Seq<char> {
    let title = sanitized(name.manga_title, "-"@);
    path_joined(
        path_joined(folder, title),
        title + " - "@ + chapter_label(name) + chapter_suffix(is_novel),
    )
}

/// The path that chapters had in an older layout.
pub open spec fn legacy_path(
    downloads: Seq<char>,
    id: (Seq<char>, Seq<char>, Seq<char>),
    is_novel: bool,
) -> Seq<char> {
    path_joined(
        downloads,
        sanitized(
            id.0 + "-"@ + id.2 + (if is_novel {
                ".epub"@
            } else {
                ".cbz"@
            }),
            ""@,
        ),
    )
}

/// The first of some paths at which there is a file.
pub open spec fn first_existing(paths: Seq<Seq<char>>, existing: Seq<Seq<char>>) -> Option<
    Seq<char>,
>
    decreases paths.len(),
{
    if paths.len() == 0 {
        None
    } else if existing.contains(paths[0]) {
        Some(paths[0])
    } else {
        first_existing(paths.drop_first(), existing)
    }
}

/// The path of the poster of a manga.
pub open spec fn poster_path(downloads: Seq<char>, id: (Seq<char>, Seq<char>)) -> Seq<char> {
    path_joined(
        path_joined(downloads, ".posters"@),
        base64_url_text(sha256_digest(encode_utf8(id.0) + encode_utf8(id.1))) + ".jpg"@,
    )
}

/// Why a file has no file beside it for the errors of its download.
#[derive(Clone, Copy, Debug, PartialEq, Eq, Structural)]
pub enum ErrorsPathError {
    NoParent,
    NoFileStem,
}

impl ErrorsPathError {
    /// The error in words.
    pub fn message(&self) -> (r: &'static str)
        ensures
            r@ == match *self {
                ErrorsPathError::NoParent => ".errors file has no parent directory"@,
                ErrorsPathError::NoFileStem => ".errors file has no filename stem"@,
            },
    {
        match self {
            ErrorsPathError::NoParent => ".errors file has no parent directory",
            ErrorsPathError::NoFileStem => ".errors file has no filename stem",
        }
    }
}

/// The file beside a chapter that holds the errors of its download: a hidden file
/// named after it.
pub open spec fn errors_path(path: Seq<char>) -> Result<Seq<char>, ErrorsPathError> {
    match (path_parent(path), path_stem(path)) {
        (None, _) => Err(ErrorsPathError::NoParent),
        (Some(_), None) => Err(ErrorsPathError::NoFileStem),
        (Some(parent), Some(stem)) => Ok(path_joined(parent, "."@ + stem + ".errors"@)),
    }
}

/// The text of a result.
pub open spec fn result_text<E>(r: Result<String, E>) -> Result<Seq<char>, E> {
    match r {
        Ok(t) => Ok(t@),
        Err(e) => Err(e),
    }
}

/// What is asked of the system to get a folder in memory.
#[derive(Clone, Debug, PartialEq, Eq)]
pub struct MountRequest {
    pub path: String,
    pub options: String,
}

/// Which attempt to mount it is: the first, or one on what is mounted already.
#[derive(Clone, Copy, Debug, PartialEq, Eq, Structural)]
pub enum MountAttempt {
    First,
    Remount,
}

/// What the system answered to an attempt to mount.
#[derive(Clone, Debug, PartialEq, Eq)]
pub enum MountResult {
    Mounted,
    /// It failed, for the reason given; `busy` where something is mounted already.
    Failed { busy: bool, error: String },
}

/// What follows from an attempt to mount.
#[derive(Clone, Debug, PartialEq, Eq)]
pub enum MountStep {
    Enabled,
    Remount,
    Failed(String),
}

/// What an attempt to mount that failed is reported as.
pub open spec fn mount_message(attempt: MountAttempt, error: Seq<char>) -> Seq<char> {
    match attempt {
        MountAttempt::First => "mount failed: "@ + error,
        MountAttempt::Remount => "remount failed: "@ + error,
    }
}

/// Why a file may not be deleted.
#[derive(Clone, Copy, Debug, PartialEq, Eq, Structural)]
pub enum DeleteError {
    TmpfsNotEnabled,
    PathTraversal,
}

impl DeleteError {
    /// The error in words.
    pub fn message(&self) -> (r: &'static str)
        ensures
            r@ == match *self {
                DeleteError::TmpfsNotEnabled => "tmpfs is not enabled"@,
                DeleteError::PathTraversal => "path traversal denied"@,
            },
    {
        match self {
            DeleteError::TmpfsNotEnabled => "tmpfs is not enabled",
            DeleteError::PathTraversal => "path traversal denied",
        }
    }
}

/// A file that is to be deleted, and the folder it must be in.
#[derive(Clone, Debug, PartialEq, Eq)]
pub struct DeleteRequest {
    pub folder: String,
    pub file: String,
}

/// What is to be done with an entry of the folder in memory when it is cleared.
#[derive(Clone, Debug, PartialEq, Eq)]
pub enum Removal {
    Folder(String),
    File(String),
}

/// What is known of the poster of a manga.
#[derive(Clone, Debug, PartialEq, Eq)]
pub struct PosterRequest {
    pub folder: String,
    pub file: String,
    /// Whether the poster must be fetched.
    pub fetch: bool,
}

/// Says whether a path is one of those at which there is a file.
pub fn is_existing(existing: &Vec<String>, path: &str) -> (r: bool)
    ensures
        r == texts(existing@).contains(path@),
{
    let mut i: usize = 0;
    while i < existing.len()
        invariant
            i <= existing.len(),
            forall|j: int| 0 <= j < i ==> (#[trigger] existing@[j])@ != path@,
        decreases existing.len() - i,
    {
        if same_text(existing[i].as_str(), path) {
            assert(texts(existing@)[i as int] == path@);
            return true;
        }
        i += 1;
    }
    proof {
        if texts(existing@).contains(path@) {
            let k = choose|k: int| 0 <= k < texts(existing@).len() && texts(existing@)[k] == path@;
            assert(existing@[k]@ == path@);
        }
    }
    false
}

/// Finds the first of some paths at which there is a file.
pub fn find_first_existing(paths: &Vec<String>, existing: &Vec<String>) -> (r: Option<String>)
    ensures
        optional_text(r) == first_existing(texts(paths@), texts(existing@)),
{
    let ghost all = texts(paths@);
    let mut i: usize = 0;
    assert(all.skip(0) =~= all);
    while i < paths.len()
        invariant
            i <= paths.len(),
            all == texts(paths@),
            first_existing(all, texts(existing@)) == first_existing(
                all.skip(i as int),
                texts(existing@),
            ),
        decreases paths.len() - i,
    {
        assert(all.skip(i as int).drop_first() =~= all.skip(i + 1));
        if is_existing(existing, paths[i].as_str()) {
            return Some(paths[i].clone());
        }
        i += 1;
    }
    None
}

impl ChapterStorage {
    /// A storage in a folder.
    pub fn new(
        downloads_folder_path: String,
        storage_size_limit: i64,
        ram_enabled: bool,
    ) -> (r: ChapterStorage)
        ensures
            r.downloads_folder_path == downloads_folder_path,
            r.ram_enabled == ram_enabled,
            r.tmpfs_mount_error is None,
            r.storage_size_limit == storage_size_limit,
    {
        ChapterStorage {
            downloads_folder_path,
            ram_enabled,
            tmpfs_mount_error: None,
            storage_size_limit,
        }
    }

    /// What is to be asked of the system for chapters in memory, of a size in
    /// mebibytes.
    pub fn mount_request(&self, size_mb: usize) -> (r: MountRequest)
        ensures
            r.path@ == tmpfs_folder(self.downloads_folder_path@),
            r.options@ == "size="@ + decimal(size_mb as nat) + "M"@,
    {
        MountRequest {
            path: self.tmpfs_path(),
            options: concat3("size=", decimal_text(size_mb).as_str(), "M"),
        }
    }

    /// Goes over to chapters in memory, as the answer to an attempt to mount allows.
    /// Where something is mounted already, the first attempt asks for a second one.
    pub fn enable_ram(&mut self, attempt: MountAttempt, result: MountResult) -> (r: MountStep)
        ensures
            final(self).downloads_folder_path == old(self).downloads_folder_path,
            final(self).storage_size_limit == old(self).storage_size_limit,
            match result {
                MountResult::Mounted => {
                    &&& r is Enabled
                    &&& final(self).ram_enabled
                    &&& final(self).tmpfs_mount_error is None
                },
                MountResult::Failed { busy, error } => if busy && attempt is First {
                    &&& r is Remount
                    &&& *final(self) == *old(self)
                } else {
                    &&& r matches MountStep::Failed(message)
                    &&& message@ == mount_message(attempt, error@)
                    &&& final(self).tmpfs_mount_error == Some(message)
                    &&& !final(self).ram_enabled
                },
            },
    {
        match result {
            MountResult::Mounted => {
                self.tmpfs_mount_error = None;
                self.ram_enabled = true;
                MountStep::Enabled
            },
            MountResult::Failed { busy, error } => {
                let prefix = match attempt {
                    MountAttempt::First => {
                        if busy {
                            return MountStep::Remount;
                        }
                        "mount failed: "
                    },
                    MountAttempt::Remount => "remount failed: ",
                };
                let mut message = prefix.to_owned();
                message.append(error.as_str());
                self.tmpfs_mount_error = Some(message.clone());
                self.ram_enabled = false;
                MountStep::Failed(message)
            },
        }
    }

    /// Goes back to chapters on the disk. The folder that is returned is to be
    /// unmounted and removed; what comes of that does not matter.
    pub fn disable_ram(&mut self) -> (r: Option<String>)
        ensures
            final(self).downloads_folder_path == old(self).downloads_folder_path,
            final(self).storage_size_limit == old(self).storage_size_limit,
            !final(self).ram_enabled,
            if old(self).ram_enabled {
                &&& r matches Some(path)
                &&& path@ == tmpfs_folder(old(self).downloads_folder_path@)
                &&& final(self).tmpfs_mount_error is None
            } else {
                &&& r is None
                &&& *final(self) == *old(self)
            },
    {
        if !self.ram_enabled {
            return None;
        }
        let path = self.tmpfs_path();
        self.ram_enabled = false;
        self.tmpfs_mount_error = None;
        Some(path)
    }

    /// Whether chapters go to memory.
    pub fn is_ram_enabled(&self) -> (r: bool)
        ensures
            r == self.ram_enabled,
    {
        self.ram_enabled
    }

    /// Why memory could not be had, when it was last asked for.
    pub fn tmpfs_mount_error(&self) -> (r: Option<&str>)
        ensures
            match self.tmpfs_mount_error {
                Some(e) => r matches Some(t) && t@ == e@,
                None => r is None,
            },
    {
        match &self.tmpfs_mount_error {
            Some(e) => Some(e.as_str()),
            None => None,
        }
    }

    /// The folder in memory that is to be cleared, where there is one.
    pub fn clean_tmpfs(&self) -> (r: Option<String>)
        ensures
            optional_text(r) == (if self.ram_enabled {
                Some(tmpfs_folder(self.downloads_folder_path@))
            } else {
                None
            }),
    {
        if self.ram_enabled {
            Some(self.tmpfs_path())
        } else {
            None
        }
    }

    /// How an entry of the folder in memory is removed when it is cleared.
    pub fn clean_entry(&self, path: String, is_folder: bool) -> (r: Removal)
        ensures
            r == (if is_folder {
                Removal::Folder(path)
            } else {
                Removal::File(path)
            }),
    {
        if is_folder {
            Removal::Folder(path)
        } else {
            Removal::File(path)
        }
    }

    /// Says whether less than four kibibytes of memory are free, where `free` is the
    /// number of free blocks and their size, if it could be had.
    pub fn tmpfs_full_storage(&self, free: Option<(u64, u64)>) -> (r: bool)
        requires
            free matches Some(f) ==> f.0 * f.1 <= u64::MAX,
        ensures
            r == (self.ram_enabled && (free matches Some(f) && f.0 * f.1 < 4096)),
    {
        if !self.ram_enabled {
            return false;
        }
        match free {
            Some((blocks, size)) => blocks * size < 4096,
            None => false,
        }
    }

    /// The folder in memory.
    pub fn tmpfs_path(&self) -> (r: String)
        ensures
            r@ == tmpfs_folder(self.downloads_folder_path@),
    {
        match parent_path(self.downloads_folder_path.as_str()) {
            Some(parent) => join_path(parent.as_str(), "tmpfs"),
            None => join_path(self.downloads_folder_path.as_str(), "tmpfs"),
        }
    }

    /// The folder on the disk.
    pub fn downloads_path(&self) -> (r: &String)
        ensures
            *r == self.downloads_folder_path,
    {
        &self.downloads_folder_path
    }

    /// Changes the folder on the disk.
    pub fn set_downloads_folder_path(&mut self, path: String)
        ensures
            final(self).downloads_folder_path == path,
            final(self).ram_enabled == old(self).ram_enabled,
            final(self).tmpfs_mount_error == old(self).tmpfs_mount_error,
            final(self).storage_size_limit == old(self).storage_size_limit,
    {
        self.downloads_folder_path = path;
    }

    /// The file that is to be deleted for a name, and the folder it must be in.
    pub fn delete_filename(&self, filename: &str, tmpfs: bool) -> (r: Result<
        DeleteRequest,
        DeleteError,
    >)
        ensures
            match r {
                Ok(request) => {
                    &&& tmpfs ==> self.ram_enabled
                    &&& request.folder@ == (if tmpfs {
                        tmpfs_folder(self.downloads_folder_path@)
                    } else {
                        self.downloads_folder_path@
                    })
                    &&& request.file@ == path_joined(request.folder@, filename@)
                },
                Err(e) => e is TmpfsNotEnabled && tmpfs && !self.ram_enabled,
            },
    {
        let folder = if tmpfs {
            if self.ram_enabled {
                self.tmpfs_path()
            } else {
                return Err(DeleteError::TmpfsNotEnabled);
            }
        } else {
            self.downloads_folder_path.clone()
        };
        let file = join_path(folder.as_str(), filename);
        Ok(DeleteRequest { folder, file })
    }

    /// Whether a file may be deleted, where its path and that of the folder it must be
    /// in have been resolved.
    pub fn confirm_delete(&self, file: &str, folder: &str) -> (r: Result<(), DeleteError>)
        ensures
            r == (if path_below(file@, folder@) {
                Ok(())
            } else {
                Err(DeleteError::PathTraversal)
            }),
    {
        if is_path_below(file, folder) {
            Ok(())
        } else {
            Err(DeleteError::PathTraversal)
        }
    }

    /// By how much the chapters on the disk take less room, after a file of a size
    /// was deleted.
    pub fn deleted_size(&self, tmpfs: bool, size: Option<u64>) -> (r: Option<u64>)
        ensures
            r == (if tmpfs {
                None
            } else {
                size
            }),
    {
        if tmpfs {
            None
        } else {
            size
        }
    }

    /// The path of the poster of a manga.
    pub fn path_for_poster(&self, manga_id: &MangaId) -> (r: String)
        ensures
            r@ == poster_path(self.downloads_folder_path@, manga_id@),
    {
        let digest = sha256_of_parts(
            manga_id.source_id().value().as_str().as_bytes(),
            manga_id.value().as_str().as_bytes(),
        );
        let mut name = encode_base64_url(digest.as_slice());
        name.append(".jpg");
        let folder = join_path(self.downloads_folder_path.as_str(), ".posters");
        join_path(folder.as_str(), name.as_str())
    }

    /// The path of the poster of a manga, where there is one.
    pub fn poster_exists(&self, manga_id: &MangaId, existing: &Vec<String>) -> (r: Option<String>)
        ensures
            optional_text(r) == (if texts(existing@).contains(
                poster_path(self.downloads_folder_path@, manga_id@),
            ) {
                Some(poster_path(self.downloads_folder_path@, manga_id@))
            } else {
                None
            }),
    {
        let file = self.path_for_poster(manga_id);
        if is_existing(existing, file.as_str()) {
            Some(file)
        } else {
            None
        }
    }

    /// Where the poster of a manga is kept, and whether it must be fetched first.
    pub fn cached_poster(&self, manga_id: &MangaId, existing: &Vec<String>) -> (r: PosterRequest)
        ensures
            r.folder@ == path_joined(self.downloads_folder_path@, ".posters"@),
            r.file@ == poster_path(self.downloads_folder_path@, manga_id@),
            r.fetch == !texts(existing@).contains(r.file@),
    {
        let folder = join_path(self.downloads_folder_path.as_str(), ".posters");
        let file = self.path_for_poster(manga_id);
        let fetch = !is_existing(existing, file.as_str());
        PosterRequest { folder, file, fetch }
    }

    /// The folder that chapters are stored in: the one in memory where that is asked for
    /// and on, and else the one on the disk.
    pub open spec fn chapter_folder(self, use_ram: bool) -> Seq<char> {
        if use_ram && self.ram_enabled {
            tmpfs_folder(self.downloads_folder_path@)
        } else {
            self.downloads_folder_path@
        }
    }

    /// The path of a chapter in the folder that it is stored in.
    pub open spec fn chapter_path(self, name: ChapterName, is_novel: bool, use_ram: bool) -> Seq<
        char,
    > {
        path_in_folder(self.chapter_folder(use_ram), name, is_novel)
    }

    /// The paths at which a chapter may be stored, in the order in which they are
    /// tried. In memory nothing has the older layout.
    pub open spec fn stored_paths(self, name: ChapterName, use_ram: bool) -> Seq<Seq<char>> {
        let now = seq![
            self.chapter_path(name, false, use_ram),
            self.chapter_path(name, true, use_ram),
        ];
        if use_ram {
            now
        } else {
            now + seq![
                legacy_path(self.downloads_folder_path@, name.id, false),
                legacy_path(self.downloads_folder_path@, name.id, true),
            ]
        }
    }

    /// The path that a chapter is stored at.
    pub fn get_path_to_store_chapter(
        &self,
        chapter_number: &Option<String>,
        manga_title: &str,
        volume_number: &Option<String>,
        id: &ChapterId,
        is_novel: bool,
        use_ram: bool,
    ) -> (r: String)
        ensures
            r@ == self.chapter_path(
                chapter_name(id@, manga_title@, *chapter_number, *volume_number),
                is_novel,
                use_ram,
            ),
            names_entry(sanitized(manga_title@, "-"@)),
            path_below(r@, self.chapter_folder(use_ram)),
            path_parent(self.downloads_folder_path@) is Some && components(
                self.downloads_folder_path@,
            ).last() != "tmpfs"@ && use_ram ==> (self.ram_enabled <==> path_below(
                r@,
                tmpfs_folder(self.downloads_folder_path@),
            )),
    {
        proof {
            reveal_strlit("-");
        }
        let label = match (volume_number, chapter_number) {
            (Some(v), Some(c)) => {
                let mut label = concat3("Vol.", v.as_str(), " Chapter ");
                label.append(c.as_str());
                label
            },
            (None, Some(c)) => {
                let mut label = "Chapter ".to_owned();
                label.append(c.as_str());
                label
            },
            (_, None) => concat3("Chapter Unknown (", id.value().as_str(), ")"),
        };
        let title = sanitize_name(manga_title, "-");
        let mut file = concat3(title.as_str(), " - ", label.as_str());
        file.append(
            if is_novel {
                ".epub"
            } else {
                ".cbz"
            },
        );
        let tmpfs = self.tmpfs_path();
        let folder = if use_ram && self.ram_enabled {
            join_path(tmpfs.as_str(), title.as_str())
        } else {
            join_path(self.downloads_folder_path.as_str(), title.as_str())
        };
        proof {
            let name = chapter_name(id@, manga_title@, *chapter_number, *volume_number);
            lemma_chapter_lies_below_its_folder(self.chapter_folder(use_ram), name, is_novel);
            if path_parent(self.downloads_folder_path@) is Some && components(
                self.downloads_folder_path@,
            ).last() != "tmpfs"@ {
                lemma_in_memory_if_and_only_if_enabled(*self, name, is_novel);
            }
        }
        join_path(folder.as_str(), file.as_str())
    }

    /// The path that a chapter had in an older layout.
    fn path_for_chapter_legacy(&self, id: &ChapterId, is_novel: bool) -> (r: String)
        ensures
            r@ == legacy_path(self.downloads_folder_path@, id@, is_novel),
    {
        proof {
            reveal_strlit("");
        }
        let mut name = concat3(id.source_id().value().as_str(), "-", id.value().as_str());
        name.append(
            if is_novel {
                ".epub"
            } else {
                ".cbz"
            },
        );
        let name = sanitize_name(name.as_str(), "");
        join_path(self.downloads_folder_path.as_str(), name.as_str())
    }

    /// The paths at which a chapter may be stored, in the order in which they are
    /// tried.
    pub fn stored_chapter_paths(
        &self,
        chapter_number: &Option<String>,
        manga_title: &str,
        volume_number: &Option<String>,
        id: &ChapterId,
        use_ram: bool,
    ) -> (r: Vec<String>)
        ensures
            texts(r@) == self.stored_paths(
                chapter_name(id@, manga_title@, *chapter_number, *volume_number),
                use_ram,
            ),
    {
        let mut r: Vec<String> = Vec::new();
        r.push(
            self.get_path_to_store_chapter(
                chapter_number,
                manga_title,
                volume_number,
                id,
                false,
                use_ram,
            ),
        );
        r.push(
            self.get_path_to_store_chapter(
                chapter_number,
                manga_title,
                volume_number,
                id,
                true,
                use_ram,
            ),
        );
        if !use_ram {
            r.push(self.path_for_chapter_legacy(id, false));
            r.push(self.path_for_chapter_legacy(id, true));
        }
        assert(texts(r@) =~= self.stored_paths(
            chapter_name(id@, manga_title@, *chapter_number, *volume_number),
            use_ram,
        ));
        r
    }

    /// The path at which a chapter is stored, where it is, and `existing` are the paths
    /// at which there are files.
    pub fn get_stored_chapter(
        &self,
        chapter_number: &Option<String>,
        manga_title: &str,
        volume_number: &Option<String>,
        id: &ChapterId,
        use_ram: bool,
        existing: &Vec<String>,
    ) -> (r: Option<String>)
        ensures
            optional_text(r) == first_existing(
                self.stored_paths(
                    chapter_name(id@, manga_title@, *chapter_number, *volume_number),
                    use_ram,
                ),
                texts(existing@),
            ),
    {
        let paths = self.stored_chapter_paths(
            chapter_number,
            manga_title,
            volume_number,
            id,
            use_ram,
        );
        find_first_existing(&paths, existing)
    }

    /// The path at which a chapter is stored, where it is, and that of the file with the
    /// errors of its download.
    pub fn get_stored_chapter_and_errors(
        &self,
        chapter_number: &Option<String>,
        manga_title: &str,
        volume_number: &Option<String>,
        id: &ChapterId,
        use_ram: bool,
        existing: &Vec<String>,
    ) -> (r: Result<Option<(String, String)>, ErrorsPathError>)
        ensures
            match first_existing(
                self.stored_paths(
                    chapter_name(id@, manga_title@, *chapter_number, *volume_number),
                    use_ram,
                ),
                texts(existing@),
            ) {
                Some(path) => match r {
                    Ok(found) => found matches Some(found) && found.0@ == path && errors_path(path)
                        == Ok::<Seq<char>, ErrorsPathError>(found.1@),
                    Err(e) => errors_path(path) == Err::<Seq<char>, ErrorsPathError>(e),
                },
                None => r matches Ok(found) && found is None,
            },
    {
        match self.get_stored_chapter(
            chapter_number,
            manga_title,
            volume_number,
            id,
            use_ram,
            existing,
        ) {
            Some(path) => match self.errors_source_path(path.as_str()) {
                Ok(errors) => Ok(Some((path, errors))),
                Err(e) => Err(e),
            },
            None => Ok(None),
        }
    }

    /// The path of the file with the errors of a chapter's download.
    pub fn errors_source_path(&self, path: &str) -> (r: Result<String, ErrorsPathError>)
        ensures
            result_text(r) == errors_path(path@),
    {
        match parent_path(path) {
            Some(parent) => match stem_of_path(path) {
                Some(stem) => {
                    let name = concat3(".", stem.as_str(), ".errors");
                    Ok(join_path(parent.as_str(), name.as_str()))
                },
                None => Err(ErrorsPathError::NoFileStem),
            },
            None => Err(ErrorsPathError::NoParent),
        }
    }
}

/// What the name of a chapter's file is made of.
pub open spec fn chapter_name(
    id: (Seq<char>, Seq<char>, Seq<char>),
    manga_title: Seq<char>,
    chapter_number: Option<String>,
    volume_number: Option<String>,
) -> ChapterName {
    ChapterName {
        id,
        manga_title,
        chapter_number: optional_text(chapter_number),
        volume_number: optional_text(volume_number),
    }
}

/// A chapter is found if and only if there is a file at one of the paths at which it
/// may be stored, and where it is found there is a file.
pub proof fn lemma_first_existing(paths: Seq<Seq<char>>, existing: Seq<Seq<char>>)
    ensures
        first_existing(paths, existing) is Some <==> exists|i: int|
            0 <= i < paths.len() && existing.contains(#[trigger] paths[i]),
        first_existing(paths, existing) matches Some(p) ==> existing.contains(p)
            && paths.contains(p),
    decreases paths.len(),
{
    if paths.len() > 0 && !existing.contains(paths[0]) {
        let rest = paths.drop_first();
        lemma_first_existing(rest, existing);
        if exists|i: int| 0 <= i < paths.len() && existing.contains(#[trigger] paths[i]) {
            let i = choose|i: int| 0 <= i < paths.len() && existing.contains(#[trigger] paths[i]);
            assert(rest[i - 1] == paths[i]);
        }
        if exists|i: int| 0 <= i < rest.len() && existing.contains(#[trigger] rest[i]) {
            let i = choose|i: int| 0 <= i < rest.len() && existing.contains(#[trigger] rest[i]);
            assert(paths[i + 1] == rest[i]);
        }
        if let Some(p) = first_existing(paths, existing) {
            let k = choose|k: int| 0 <= k < rest.len() && rest[k] == p;
            assert(paths[k + 1] == p);
        }
    }
}

/// A chapter that is stored at the path for it is found again, whether it goes to memory
/// or to the disk: at that path, unless it is an epub and a cbz of it is there too.
pub proof fn lemma_stored_chapter_is_found(
    storage: ChapterStorage,
    name: ChapterName,
    is_novel: bool,
    use_ram: bool,
    existing: Seq<Seq<char>>,
)
    requires
        existing.contains(storage.chapter_path(name, is_novel, use_ram)),
    ensures
        first_existing(storage.stored_paths(name, use_ram), existing) == Some(
            storage.chapter_path(
                name,
                is_novel && !existing.contains(storage.chapter_path(name, false, use_ram)),
                use_ram,
            ),
        ),
{
    let paths = storage.stored_paths(name, use_ram);
    assert(paths[0] == storage.chapter_path(name, false, use_ram));
    assert(paths[1] == storage.chapter_path(name, true, use_ram));
    assert(paths.drop_first()[0] == paths[1]);
    reveal_with_fuel(first_existing, 2);
}

/// After memory was turned off, a chapter that is asked for in memory is looked for on
/// the disk.
pub proof fn lemma_without_memory_the_disk_is_used(
    storage: ChapterStorage,
    name: ChapterName,
    is_novel: bool,
)
    requires
        !storage.ram_enabled,
    ensures
        storage.chapter_path(name, is_novel, true) == storage.chapter_path(name, is_novel, false),
{
}

/// Of the paths at which there is a file the first is taken: there is none at those before
/// it.
pub proof fn lemma_first_existing_is_first(
    paths: Seq<Seq<char>>,
    existing: Seq<Seq<char>>,
    i: int,
)
    requires
        0 <= i < paths.len(),
        existing.contains(paths[i]),
        forall|j: int| 0 <= j < i ==> !existing.contains(#[trigger] paths[j]),
    ensures
        first_existing(paths, existing) == Some(paths[i]),
    decreases paths.len(),
{
    if i > 0 {
        let rest = paths.drop_first();
        assert(!existing.contains(paths[0]));
        assert(rest[i - 1] == paths[i]);
        assert forall|j: int| 0 <= j < i - 1 implies !existing.contains(#[trigger] rest[j]) by {
            assert(rest[j] == paths[j + 1]);
        }
        lemma_first_existing_is_first(rest, existing, i - 1);
    }
}

/// A chapter is looked for as a cbz and then as an epub. On the disk it is looked for in the
/// older layout after that, and in memory it is not.
pub proof fn lemma_paths_are_tried_in_order(
    storage: ChapterStorage,
    name: ChapterName,
    use_ram: bool,
)
    ensures
        storage.stored_paths(name, use_ram)[0] == storage.chapter_path(name, false, use_ram),
        storage.stored_paths(name, use_ram)[1] == storage.chapter_path(name, true, use_ram),
        use_ram ==> storage.stored_paths(name, use_ram).len() == 2,
        !use_ram ==> {
            &&& storage.stored_paths(name, use_ram).len() == 4
            &&& storage.stored_paths(name, use_ram)[2] == legacy_path(
                storage.downloads_folder_path@,
                name.id,
                false,
            )
            &&& storage.stored_paths(name, use_ram)[3] == legacy_path(
                storage.downloads_folder_path@,
                name.id,
                true,
            )
        },
{
}

/// Where a chapter is stored does not depend on whether memory is on, unless memory is asked
/// for; with memory on and asked for it is stored in the folder in memory, as it would be in
/// that on the disk.
pub proof fn lemma_memory_is_used_where_asked_for(
    storage: ChapterStorage,
    name: ChapterName,
    is_novel: bool,
    use_ram: bool,
)
    ensures
        use_ram && storage.ram_enabled ==> storage.chapter_path(name, is_novel, use_ram)
            == path_in_folder(tmpfs_folder(storage.downloads_folder_path@), name, is_novel),
        !use_ram || !storage.ram_enabled ==> storage.chapter_path(name, is_novel, use_ram)
            == path_in_folder(storage.downloads_folder_path@, name, is_novel),
{
}

/// What is reported of an attempt to mount that failed ends in the reason that the system
/// gave, and tells a second attempt from a first.
pub proof fn lemma_mount_message_tells_the_reason(attempt: MountAttempt, error: Seq<char>)
    ensures
        mount_message(attempt, error).len() >= error.len(),
        mount_message(attempt, error).skip(mount_message(attempt, error).len() - error.len())
            == error,
        attempt is First ==> "mount failed: "@.is_prefix_of(mount_message(attempt, error)),
        attempt is Remount ==> "remount failed: "@.is_prefix_of(mount_message(attempt, error)),
{
    let message = mount_message(attempt, error);
    assert(message.skip(message.len() - error.len()) =~= error);
    assert("mount failed: "@ =~= ("mount failed: "@ + error).take("mount failed: "@.len() as int));
    assert("remount failed: "@ =~= ("remount failed: "@ + error).take(
        "remount failed: "@.len() as int,
    ));
}

/// The file for the errors of a download stands in the folder of its chapter. Its name
/// begins with a dot, goes on with that of the chapter without the extension, and has an
/// extension of its own.
pub proof fn lemma_errors_file_stands_in_the_folder(path: Seq<char>)
    ensures
        errors_path(path) is Ok <==> path_parent(path) is Some && path_stem(path) is Some,
        errors_path(path) matches Ok(errors) ==> components(errors) == components(
            path,
        ).drop_last().push(seq!['.'] + path_stem(path)->0 + ".errors"@),
        errors_path(path) matches Err(e) ==> (e is NoParent <==> path_parent(path) is None),
{
    reveal_strlit(".");
    reveal_strlit(".errors");
    if let Ok(errors) = errors_path(path) {
        let parent = path_parent(path)->0;
        let stem = path_stem(path)->0;
        let name = "."@ + stem + ".errors"@;
        assert(seq!['.'] + stem + ".errors"@ =~= name);
        lemma_parent_components(path);
        lemma_component_holds_no_separator(path);
        let last = components(path).last();
        assert forall|i: int| 0 <= i < name.len() implies name[i] != '/' by {
            if 1 <= i < 1 + stem.len() {
                assert(stem[i - 1] == last[i - 1]);
                assert(last.contains(last[i - 1]));
            }
        }
        lemma_one_component(name);
        lemma_components_joined(parent, name);
        assert(components(errors) =~= components(path).drop_last().push(name));
    }
}

/// The folder in memory stands beside the one on the disk, under a name of its own.
pub proof fn lemma_memory_stands_beside_the_disk(downloads: Seq<char>)
    requires
        path_parent(downloads) is Some,
    ensures
        components(tmpfs_folder(downloads)) == components(downloads).drop_last().push("tmpfs"@),
{
    reveal_strlit("tmpfs");
    lemma_parent_components(downloads);
    assert(!"tmpfs"@.contains('/'));
    assert("tmpfs"@.len() == 5);
    assert(seq!['.'].len() == 1);
    lemma_one_component("tmpfs"@);
    lemma_components_joined(path_parent(downloads)->0, "tmpfs"@);
    assert(components(tmpfs_folder(downloads)) =~= components(downloads).drop_last().push(
        "tmpfs"@,
    ));
}

/// The poster of a manga stands in a folder of its own below the one on the disk, under the
/// text of a digest of its source and its id, as a jpg.
pub proof fn lemma_poster_stands_below_the_disk(downloads: Seq<char>, id: (Seq<char>, Seq<char>))
    ensures
        components(poster_path(downloads, id)) == components(downloads).push(".posters"@).push(
            base64_url_text(sha256_digest(encode_utf8(id.0) + encode_utf8(id.1))) + ".jpg"@,
        ),
        path_extension(poster_path(downloads, id)) == Some("jpg"@) || sha256_digest(
            encode_utf8(id.0) + encode_utf8(id.1),
        ).len() == 0,
{
    reveal_strlit(".posters");
    reveal_strlit(".jpg");
    reveal_strlit("jpg");
    let digest = sha256_digest(encode_utf8(id.0) + encode_utf8(id.1));
    let text = base64_url_text(digest);
    let name = text + ".jpg"@;
    lemma_base64_is_url_safe(digest);
    assert(!".posters"@.contains('/'));
    assert forall|i: int| 0 <= i < name.len() implies name[i] != '/' by {
        if i < text.len() {
            assert(is_url_safe(text[i]));
        }
    }
    lemma_one_component(".posters"@);
    lemma_one_component(name);
    lemma_components_joined(downloads, ".posters"@);
    lemma_components_joined(path_joined(downloads, ".posters"@), name);
    assert(components(poster_path(downloads, id)) =~= components(downloads).push(".posters"@).push(
        name,
    ));
    if digest.len() > 0 {
        let path = poster_path(downloads, id);
        let head = path.take(path.len() - 5);
        let c = text.last();
        assert(is_url_safe(text[text.len() - 1]));
        assert(path =~= head.push(c).push('.') + "jpg"@);
        lemma_extension(head, c, "jpg"@);
    }
}

}
