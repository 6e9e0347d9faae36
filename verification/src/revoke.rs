//! Taking a stored chapter away again.
use vstd::prelude::*;
use vstd::string::*;

use crate::chapter_storage::{
    chapter_name, errors_path, first_existing, lemma_first_existing, lemma_stored_chapter_is_found,
    ChapterName, ChapterStorage,
};
use crate::model::{ChapterId, ChapterInformation};
use crate::text::{optional_text, texts};

verus! {

/// The files that are to be removed for a chapter.
#[derive(Clone, Debug, PartialEq, Eq)]
pub struct Revocation {
    pub path: String,
    /// The file with the errors of its download. It does not matter whether it goes.
    pub errors: Option<String>,
}

/// What the file of a chapter is looked for under, where its description may be cached.
pub open spec fn revoked_name(info: Option<ChapterInformation>, id: ChapterId) -> ChapterName {
    match info {
        Some(info) => chapter_name(
            id@,
            match info.title {
                Some(title) => title@,
                None => "Unknown"@,
            },
            info.chapter_number,
            info.volume_number,
        ),
        None => chapter_name(id@, "Unknown"@, None, None),
    }
}

/// Whether these are the files that are to be removed for a chapter, where `existing` are
/// the paths at which there are files.
pub open spec fn revokes(
    storage: ChapterStorage,
    info: Option<ChapterInformation>,
    chapter: ChapterId,
    use_ram: bool,
    existing: Seq<Seq<char>>,
    r: Option<Revocation>,
) -> bool {
    match first_existing(storage.stored_paths(revoked_name(info, chapter), use_ram), existing) {
        Some(path) => {
            &&& r matches Some(revocation)
            &&& revocation.path@ == path
            &&& optional_text(revocation.errors) == match errors_path(path) {
                Ok(errors) => Some(errors),
                Err(_) => None,
            }
        },
        None => r is None,
    }
}

/// The paths at which a chapter that is to be taken away may be stored.
pub fn revoke_candidates(
    chapter_storage: &ChapterStorage,
    info: &Option<ChapterInformation>,
    chapter: &ChapterId,
    use_ram: bool,
) -> (r: Vec<String>)
    ensures
        texts(r@) == chapter_storage.stored_paths(revoked_name(*info, *chapter), use_ram),
{
    match info {
        Some(info) => {
            let title = match &info.title {
                Some(title) => title.as_str(),
                None => "Unknown",
            };
            chapter_storage.stored_chapter_paths(
                &info.chapter_number,
                title,
                &info.volume_number,
                chapter,
                use_ram,
            )
        },
        None => chapter_storage.stored_chapter_paths(&None, "Unknown", &None, chapter, use_ram),
    }
}

/// The files that are to be removed for a chapter, where it is stored and `existing` are
/// the paths at which there are files.
pub fn find_revocation(
    chapter_storage: &ChapterStorage,
    info: &Option<ChapterInformation>,
    chapter: &ChapterId,
    use_ram: bool,
    existing: &Vec<String>,
) -> (r: Option<Revocation>)
    ensures
        match first_existing(
            chapter_storage.stored_paths(revoked_name(*info, *chapter), use_ram),
            texts(existing@),
        ) {
            Some(path) => {
                &&& r matches Some(revocation)
                &&& revocation.path@ == path
                &&& optional_text(revocation.errors) == match errors_path(path) {
                    Ok(errors) => Some(errors),
                    Err(_) => None,
                }
            },
            None => r is None,
        },
        revokes(*chapter_storage, *info, *chapter, use_ram, texts(existing@), r),
{
    let paths = revoke_candidates(chapter_storage, info, chapter, use_ram);
    match crate::chapter_storage::find_first_existing(&paths, existing) {
        Some(path) => {
            let errors = match chapter_storage.errors_source_path(path.as_str()) {
                Ok(errors) => Some(errors),
                Err(_) => None,
            };
            Some(Revocation { path, errors })
        },
        None => None,
    }
}

/// Says whether a chapter was taken away: where it was stored, and its file could be
/// removed.
pub fn revoke_manga_chapter(revocation: &Option<Revocation>, removed: bool) -> (r: bool)
    ensures
        r == (revocation is Some && removed),
{
    match revocation {
        Some(_) => removed,
        None => false,
    }
}

/// A chapter that is stored under its id, and under the title and the numbers of its
/// description, is taken away: its file is found, that of a cbz before that of an epub,
/// and with it the file for the errors of its download.
pub proof fn lemma_described_chapter_is_revoked(
    storage: ChapterStorage,
    info: ChapterInformation,
    chapter: ChapterId,
    is_novel: bool,
    use_ram: bool,
    existing: Seq<Seq<char>>,
    name: ChapterName,
    revocation: Option<Revocation>,
)
    requires
        name.id == chapter@,
        info.title matches Some(title) ==> name.manga_title == title@,
        info.title is None ==> name.manga_title == "Unknown"@,
        info.chapter_number matches Some(number) ==> name.chapter_number == Some(number@),
        info.chapter_number is None ==> name.chapter_number is None,
        info.volume_number matches Some(number) ==> name.volume_number == Some(number@),
        info.volume_number is None ==> name.volume_number is None,
        existing.contains(storage.chapter_path(name, is_novel, use_ram)),
        revokes(storage, Some(info), chapter, use_ram, existing, revocation),
    ensures
        revocation matches Some(found) && found.path@ == storage.chapter_path(
            name,
            is_novel && !existing.contains(storage.chapter_path(name, false, use_ram)),
            use_ram,
        ) && existing.contains(found.path@) && (match errors_path(found.path@) {
            Ok(errors) => found.errors matches Some(file) && file@ == errors,
            Err(_) => found.errors is None,
        }),
{
    lemma_stored_chapter_is_found(storage, name, is_novel, use_ram, existing);
}

/// A chapter whose description is not cached is taken away where it is stored without
/// numbers, under the title that stands for one that is not known.
pub proof fn lemma_chapter_without_description_is_revoked(
    storage: ChapterStorage,
    chapter: ChapterId,
    is_novel: bool,
    use_ram: bool,
    existing: Seq<Seq<char>>,
    name: ChapterName,
    revocation: Option<Revocation>,
)
    requires
        name.id == chapter@,
        name.manga_title == "Unknown"@,
        name.chapter_number is None,
        name.volume_number is None,
        existing.contains(storage.chapter_path(name, is_novel, use_ram)),
        revokes(storage, None, chapter, use_ram, existing, revocation),
    ensures
        revocation matches Some(found) && existing.contains(found.path@) && found.path@
            == storage.chapter_path(
            name,
            is_novel && !existing.contains(storage.chapter_path(name, false, use_ram)),
            use_ram,
        ),
{
    lemma_stored_chapter_is_found(storage, name, is_novel, use_ram, existing);
}

/// Only a file that is there is taken away, and where there is none at all nothing is.
pub proof fn lemma_only_files_are_revoked(
    storage: ChapterStorage,
    info: Option<ChapterInformation>,
    chapter: ChapterId,
    use_ram: bool,
    existing: Seq<Seq<char>>,
    revocation: Option<Revocation>,
)
    requires
        revokes(storage, info, chapter, use_ram, existing, revocation),
    ensures
        revocation matches Some(found) ==> existing.contains(found.path@),
        existing.len() == 0 ==> revocation is None,
{
    lemma_first_existing(
        storage.stored_paths(revoked_name(info, chapter), use_ram),
        existing,
    );
}

}
