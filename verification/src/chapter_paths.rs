//! What can be said of the paths of chapters.
use vstd::prelude::*;
use vstd::string::*;

use crate::chapter_storage::{
    chapter_label, chapter_suffix, legacy_path, path_in_folder, tmpfs_folder, ChapterName,
    ChapterStorage,
};
use crate::filenames::{names_entry, sanitized};
use crate::paths::{
    components, is_absolute, lemma_components_joined, lemma_extension, lemma_first_part,
    lemma_one_component, lemma_parent_components, path_below, path_extension, path_joined,
    path_parent,
};
use crate::storage_files::chapter_extension;
use crate::text::split_parts;

verus! {

/// The name of a chapter's file.
pub open spec fn chapter_file(name: ChapterName, is_novel: bool) -> Seq<char> {
    sanitized(name.manga_title, "-"@) + " - "@ + chapter_label(name) + chapter_suffix(is_novel)
}

proof fn lemma_no_separator_joined(a: Seq<char>, b: Seq<char>)
    requires
        !a.contains('/'),
        !b.contains('/'),
    ensures
        !(a + b).contains('/'),
{
    if (a + b).contains('/') {
        let k = choose|k: int| 0 <= k < (a + b).len() && (a + b)[k] == '/';
        if k < a.len() {
            assert(a.contains(a[k]));
        } else {
            assert(b.contains(b[k - a.len()]));
        }
    }
}

proof fn lemma_title_dash(title: Seq<char>)
    requires
        names_entry(title),
    ensures
        !(title + " - "@).contains('/'),
        (title + " - "@).len() >= 3,
        title != seq!['.'],
{
    reveal_strlit(" - ");
    reveal_strlit(".");
    assert("."@ =~= seq!['.']);
    assert(!" - "@.contains('/'));
    lemma_no_separator_joined(title, " - "@);
}

proof fn lemma_file_is_relative(name: ChapterName, is_novel: bool)
    requires
        names_entry(sanitized(name.manga_title, "-"@)),
    ensures
        !is_absolute(chapter_file(name, is_novel)),
        split_parts(chapter_file(name, is_novel), '/')[0] != seq!['.'],
{
    let title = sanitized(name.manga_title, "-"@);
    let head = title + " - "@;
    let tail = chapter_label(name) + chapter_suffix(is_novel);
    lemma_title_dash(title);
    lemma_first_part(head, tail, '/');
    assert(chapter_file(name, is_novel) =~= head + tail);
    assert(head.contains(head[0]));
}

/// The components of a chapter's path: those of the folder, that of the title of its
/// manga, and those of its file.
pub proof fn lemma_chapter_components(folder: Seq<char>, name: ChapterName, is_novel: bool)
    requires
        names_entry(sanitized(name.manga_title, "-"@)),
    ensures
        components(path_in_folder(folder, name, is_novel)) == components(folder) + components(
            sanitized(name.manga_title, "-"@),
        ) + components(chapter_file(name, is_novel)),
{
    let title = sanitized(name.manga_title, "-"@);
    lemma_title_dash(title);
    lemma_one_component(title);
    lemma_components_joined(folder, title);
    lemma_file_is_relative(name, is_novel);
    lemma_components_joined(path_joined(folder, title), chapter_file(name, is_novel));
}

/// A chapter lies below the folder that it is stored in.
pub proof fn lemma_chapter_lies_below_its_folder(
    folder: Seq<char>,
    name: ChapterName,
    is_novel: bool,
)
    requires
        names_entry(sanitized(name.manga_title, "-"@)),
    ensures
        path_below(path_in_folder(folder, name, is_novel), folder),
{
    lemma_chapter_components(folder, name, is_novel);
    let c = components(path_in_folder(folder, name, is_novel));
    assert(components(folder) =~= c.take(components(folder).len() as int));
}

/// A chapter that is asked for in memory lies below the folder in memory if and only if
/// memory is on. One that is not lies below the folder on the disk. That holds wherever
/// the folder on the disk has a parent and is not itself called as the one in memory.
pub proof fn lemma_in_memory_if_and_only_if_enabled(
    storage: ChapterStorage,
    name: ChapterName,
    is_novel: bool,
)
    requires
        names_entry(sanitized(name.manga_title, "-"@)),
        path_parent(storage.downloads_folder_path@) is Some,
        components(storage.downloads_folder_path@).last() != "tmpfs"@,
    ensures
        storage.ram_enabled <==> path_below(
            storage.chapter_path(name, is_novel, true),
            tmpfs_folder(storage.downloads_folder_path@),
        ),
        path_below(
            storage.chapter_path(name, is_novel, false),
            storage.downloads_folder_path@,
        ),
{
    let downloads = storage.downloads_folder_path@;
    let tmpfs = tmpfs_folder(downloads);
    let parent = path_parent(downloads)->0;
    lemma_parent_components(downloads);
    lemma_chapter_lies_below_its_folder(downloads, name, is_novel);
    lemma_chapter_lies_below_its_folder(tmpfs, name, is_novel);
    reveal_strlit("tmpfs");
    assert(!"tmpfs"@.contains('/'));
    lemma_one_component("tmpfs"@);
    lemma_components_joined(parent, "tmpfs"@);
    if !storage.ram_enabled {
        let path = storage.chapter_path(name, is_novel, true);
        lemma_chapter_components(downloads, name, is_novel);
        let k = components(downloads).len() - 1;
        assert(components(tmpfs)[k] == "tmpfs"@);
        assert(components(path)[k] == components(downloads)[k]);
        if path_below(path, tmpfs) {
            assert(components(tmpfs) == components(path).take(components(tmpfs).len() as int));
            assert(components(path)[k] == "tmpfs"@);
        }
    }
}

/// Chapters of one manga with one number share a path, whatever their ids.
pub proof fn lemma_numbered_chapters_share_a_path(
    storage: ChapterStorage,
    a: ChapterName,
    b: ChapterName,
    is_novel: bool,
    use_ram: bool,
)
    requires
        a.manga_title == b.manga_title,
        a.chapter_number == b.chapter_number,
        a.volume_number == b.volume_number,
        a.chapter_number is Some,
    ensures
        storage.chapter_path(a, is_novel, use_ram) == storage.chapter_path(b, is_novel, use_ram),
{
}

/// The two formats of a chapter differ in the extension alone.
pub proof fn lemma_formats_differ_in_extension(
    storage: ChapterStorage,
    name: ChapterName,
    use_ram: bool,
) -> (stem: Seq<char>)
    ensures
        storage.chapter_path(name, false, use_ram) == stem + ".cbz"@,
        storage.chapter_path(name, true, use_ram) == stem + ".epub"@,
{
    let title = sanitized(name.manga_title, "-"@);
    let folder = storage.chapter_folder(use_ram);
    let stem = title + " - "@ + chapter_label(name);
    reveal_strlit(" - ");
    let full = path_joined(path_joined(folder, title), stem);
    assert(storage.chapter_path(name, false, use_ram) =~= full + ".cbz"@);
    assert(storage.chapter_path(name, true, use_ram) =~= full + ".epub"@);
    full
}

proof fn lemma_middle_differs(
    before: Seq<char>,
    a: Seq<char>,
    b: Seq<char>,
    after: Seq<char>,
)
    requires
        before + a + after == before + b + after,
    ensures
        a == b,
{
    let x = before + a + after;
    let y = before + b + after;
    assert(x.len() == y.len());
    assert forall|i: int| 0 <= i < a.len() implies a[i] == b[i] by {
        assert(x[before.len() + i] == a[i]);
        assert(y[before.len() + i] == b[i]);
    }
    assert(a =~= b);
}

/// Chapters of one manga without a number have different paths where their ids differ:
/// the texts differ, and, where the ids hold no separator, the components.
pub proof fn lemma_unnumbered_chapters_have_paths_of_their_own(
    storage: ChapterStorage,
    a: ChapterName,
    b: ChapterName,
    is_novel: bool,
    use_ram: bool,
)
    requires
        names_entry(sanitized(a.manga_title, "-"@)),
        a.manga_title == b.manga_title,
        a.chapter_number is None,
        b.chapter_number is None,
        a.id.2 != b.id.2,
    ensures
        storage.chapter_path(a, is_novel, use_ram) != storage.chapter_path(b, is_novel, use_ram),
        !a.id.2.contains('/') && !b.id.2.contains('/') ==> components(
            storage.chapter_path(a, is_novel, use_ram),
        ) != components(storage.chapter_path(b, is_novel, use_ram)),
{
    let title = sanitized(a.manga_title, "-"@);
    let folder = storage.chapter_folder(use_ram);
    let head = title + " - "@ + "Chapter Unknown ("@;
    let tail = ")"@ + chapter_suffix(is_novel);
    let file_a = chapter_file(a, is_novel);
    let file_b = chapter_file(b, is_novel);
    assert(file_a =~= head + a.id.2 + tail);
    assert(file_b =~= head + b.id.2 + tail);
    lemma_file_is_relative(a, is_novel);
    lemma_file_is_relative(b, is_novel);
    let front = crate::paths::as_folder(path_joined(folder, title));
    let path_a = storage.chapter_path(a, is_novel, use_ram);
    let path_b = storage.chapter_path(b, is_novel, use_ram);
    assert(path_a =~= (front + head) + a.id.2 + tail);
    assert(path_b =~= (front + head) + b.id.2 + tail);
    if path_a == path_b {
        lemma_middle_differs(front + head, a.id.2, b.id.2, tail);
    }
    if file_a == file_b {
        lemma_middle_differs(head, a.id.2, b.id.2, tail);
    }
    if !a.id.2.contains('/') && !b.id.2.contains('/') {
        lemma_title_dash(title);
        reveal_strlit("Chapter Unknown (");
        reveal_strlit(")");
        reveal_strlit(".cbz");
        reveal_strlit(".epub");
        assert(!"Chapter Unknown ("@.contains('/'));
        assert(!")"@.contains('/'));
        assert(!chapter_suffix(is_novel).contains('/'));
        lemma_no_separator_joined(title + " - "@, "Chapter Unknown ("@);
        lemma_no_separator_joined(")"@, chapter_suffix(is_novel));
        lemma_no_separator_joined(head, a.id.2);
        lemma_no_separator_joined(head, b.id.2);
        lemma_no_separator_joined(head + a.id.2, tail);
        lemma_no_separator_joined(head + b.id.2, tail);
        lemma_one_component(file_a);
        lemma_one_component(file_b);
        lemma_chapter_components(folder, a, is_novel);
        lemma_chapter_components(folder, b, is_novel);
        assert(components(path_a).last() == file_a);
        assert(components(path_b).last() == file_b);
    }
}

/// The file of a chapter has the extension that chapters of its format have, so that it
/// counts as a chapter wherever files are looked through. The number of a chapter must be
/// one: neither empty nor with a separator in it.
pub proof fn lemma_stored_chapter_has_its_extension(
    storage: ChapterStorage,
    name: ChapterName,
    is_novel: bool,
    use_ram: bool,
)
    requires
        name.chapter_number matches Some(number) ==> number.len() > 0 && !number.contains('/'),
    ensures
        path_extension(storage.chapter_path(name, is_novel, use_ram)) == Some(
            if is_novel {
                "epub"@
            } else {
                "cbz"@
            },
        ),
        chapter_extension(path_extension(storage.chapter_path(name, is_novel, use_ram))->0),
{
    reveal_strlit(".epub");
    reveal_strlit(".cbz");
    reveal_strlit("epub");
    reveal_strlit("cbz");
    reveal_strlit(")");
    let path = storage.chapter_path(name, is_novel, use_ram);
    let extension = if is_novel {
        "epub"@
    } else {
        "cbz"@
    };
    let label = chapter_label(name);
    if let Some(number) = name.chapter_number {
        assert(number.contains(number[number.len() - 1]));
        assert(label.last() == number.last());
    } else {
        assert(label.last() == ')');
    }
    let n = path.len() - extension.len() - 2;
    let head = path.take(n);
    assert(chapter_suffix(is_novel) =~= seq!['.'] + extension);
    assert(path =~= head.push(label.last()).push('.') + extension);
    lemma_extension(head, label.last(), extension);
}

/// The label of a chapter tells its number and its volume: two chapters with a number have
/// the same label if and only if they have the same number and the same volume, or both no
/// volume. A number holds no space.
pub proof fn lemma_label_tells_the_numbers(a: ChapterName, b: ChapterName)
    requires
        a.chapter_number matches Some(c) && !c.contains(' '),
        b.chapter_number matches Some(c) && !c.contains(' '),
        a.volume_number matches Some(v) ==> !v.contains(' '),
        b.volume_number matches Some(v) ==> !v.contains(' '),
    ensures
        chapter_label(a) == chapter_label(b) <==> a.chapter_number == b.chapter_number
            && a.volume_number == b.volume_number,
{
    reveal_strlit("Vol.");
    reveal_strlit(" Chapter ");
    reveal_strlit("Chapter ");
    let c = a.chapter_number->0;
    let d = b.chapter_number->0;
    let x = chapter_label(a);
    let y = chapter_label(b);
    if x == y {
        match (a.volume_number, b.volume_number) {
            (Some(v), Some(w)) => {
                if v.len() < w.len() {
                    assert(x[4 + v.len() as int] == ' ');
                    assert(y[4 + v.len() as int] == w[v.len() as int]);
                    assert(w.contains(w[v.len() as int]));
                }
                if w.len() < v.len() {
                    assert(y[4 + w.len() as int] == ' ');
                    assert(x[4 + w.len() as int] == v[w.len() as int]);
                    assert(v.contains(v[w.len() as int]));
                }
                assert forall|i: int| 0 <= i < v.len() implies v[i] == w[i] by {
                    assert(x[4 + i] == v[i]);
                    assert(y[4 + i] == w[i]);
                }
                assert(v =~= w);
                assert(x =~= ("Vol."@ + v + " Chapter "@) + c + Seq::empty());
                assert(y =~= ("Vol."@ + v + " Chapter "@) + d + Seq::empty());
                lemma_middle_differs("Vol."@ + v + " Chapter "@, c, d, Seq::empty());
            },
            (None, None) => {
                assert(x =~= "Chapter "@ + c + Seq::empty());
                assert(y =~= "Chapter "@ + d + Seq::empty());
                lemma_middle_differs("Chapter "@, c, d, Seq::empty());
            },
            (Some(_), None) => {
                assert(x[0] == 'V');
                assert(y[0] == 'C');
            },
            (None, Some(_)) => {
                assert(x[0] == 'C');
                assert(y[0] == 'V');
            },
        }
    }
}

/// Chapters of one manga with a number are stored at one path if and only if their numbers
/// and their volumes are the same.
pub proof fn lemma_numbers_tell_paths_apart(
    storage: ChapterStorage,
    a: ChapterName,
    b: ChapterName,
    is_novel: bool,
    use_ram: bool,
)
    requires
        names_entry(sanitized(a.manga_title, "-"@)),
        a.manga_title == b.manga_title,
        a.chapter_number matches Some(c) && !c.contains(' '),
        b.chapter_number matches Some(c) && !c.contains(' '),
        a.volume_number matches Some(v) ==> !v.contains(' '),
        b.volume_number matches Some(v) ==> !v.contains(' '),
    ensures
        storage.chapter_path(a, is_novel, use_ram) == storage.chapter_path(b, is_novel, use_ram)
            <==> a.chapter_number == b.chapter_number && a.volume_number == b.volume_number,
{
    let title = sanitized(a.manga_title, "-"@);
    let folder = storage.chapter_folder(use_ram);
    let front = crate::paths::as_folder(path_joined(folder, title));
    let tail = chapter_suffix(is_novel);
    lemma_label_tells_the_numbers(a, b);
    lemma_file_is_relative(a, is_novel);
    lemma_file_is_relative(b, is_novel);
    let path_a = storage.chapter_path(a, is_novel, use_ram);
    let path_b = storage.chapter_path(b, is_novel, use_ram);
    assert(path_a =~= (front + title + " - "@) + chapter_label(a) + tail);
    assert(path_b =~= (front + title + " - "@) + chapter_label(b) + tail);
    if path_a == path_b {
        lemma_middle_differs(
            front + title + " - "@,
            chapter_label(a),
            chapter_label(b),
            tail,
        );
    }
}

/// A chapter is stored in a folder that is named after its manga, in a file that is named
/// after its manga and then after itself. One without a number is named after its id.
pub proof fn lemma_chapter_is_named_after_its_manga(
    storage: ChapterStorage,
    name: ChapterName,
    is_novel: bool,
    use_ram: bool,
)
    requires
        names_entry(sanitized(name.manga_title, "-"@)),
    ensures
        ({
            let title = sanitized(name.manga_title, "-"@);
            let path = storage.chapter_path(name, is_novel, use_ram);
            &&& path_below(path, path_joined(storage.chapter_folder(use_ram), title))
            &&& (title + " - "@).is_prefix_of(chapter_file(name, is_novel))
            &&& name.chapter_number is None ==> chapter_file(name, is_novel) == title + " - "@
                + "Chapter Unknown ("@ + name.id.2 + ")"@ + (if is_novel {
                ".epub"@
            } else {
                ".cbz"@
            })
            &&& path == path_joined(
                path_joined(storage.chapter_folder(use_ram), title),
                chapter_file(name, is_novel),
            )
        }),
{
    let title = sanitized(name.manga_title, "-"@);
    let folder = storage.chapter_folder(use_ram);
    let path = storage.chapter_path(name, is_novel, use_ram);
    let file = chapter_file(name, is_novel);
    lemma_chapter_components(folder, name, is_novel);
    lemma_title_dash(title);
    lemma_one_component(title);
    lemma_components_joined(folder, title);
    let inner = components(path_joined(folder, title));
    assert(inner =~= components(path).take(inner.len() as int));
    assert(title + " - "@ =~= file.take((title + " - "@).len() as int));
    assert(name.chapter_number is None ==> file =~= title + " - "@ + "Chapter Unknown ("@
        + name.id.2 + ")"@ + chapter_suffix(is_novel));
}

/// In the older layout a chapter is named after its source and its own id, whatever manga it
/// is of, and stands in the folder on the disk itself.
pub proof fn lemma_older_layout(
    downloads: Seq<char>,
    a: (Seq<char>, Seq<char>, Seq<char>),
    b: (Seq<char>, Seq<char>, Seq<char>),
    is_novel: bool,
)
    ensures
        a.0 == b.0 && a.2 == b.2 ==> legacy_path(downloads, a, is_novel) == legacy_path(
            downloads,
            b,
            is_novel,
        ),
        legacy_path(downloads, a, false) == path_joined(
            downloads,
            sanitized(a.0 + "-"@ + a.2 + ".cbz"@, ""@),
        ),
        legacy_path(downloads, a, true) == path_joined(
            downloads,
            sanitized(a.0 + "-"@ + a.2 + ".epub"@, ""@),
        ),
{
}

}
