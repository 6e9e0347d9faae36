//! Paths on Unix, as text, and what the functions of `std::path` make of them.
use vstd::prelude::*;
use vstd::string::*;

use crate::text::{lemma_split_joins_back, split_parts};

verus! {

/// Whether a path is absolute.
pub open spec fn is_absolute(path: Seq<char>) -> bool {
    path.len() > 0 && path[0] == '/'
}

/// A path with a separator behind it, unless it is empty or ends in one.
pub open spec fn as_folder(path: Seq<char>) -> Seq<char> {
    if path.len() == 0 || path.last() == '/' {
        path
    } else {
        path.push('/')
    }
}

/// A path and another one behind it; an absolute one takes the place of the first.
pub open spec fn path_joined(base: Seq<char>, rest: Seq<char>) -> Seq<char> {
    if is_absolute(rest) {
        rest
    } else {
        as_folder(base) + rest
    }
}

/// The parts of a path that count: not those that are empty, and a dot only where the
/// path begins with it.
pub open spec fn counting_parts(parts: Seq<Seq<char>>) -> Seq<Seq<char>>
    decreases parts.len(),
{
    if parts.len() == 0 {
        Seq::empty()
    } else {
        let front = counting_parts(parts.drop_last());
        let last = parts.last();
        if last.len() == 0 || (last == seq!['.'] && parts.len() > 1) {
            front
        } else {
            front.push(last)
        }
    }
}

/// The components of a path: the root, where the path is absolute, and then what stands
/// between the separators.
pub open spec fn components(path: Seq<char>) -> Seq<Seq<char>> {
    let root = if is_absolute(path) {
        seq![seq!['/']]
    } else {
        Seq::empty()
    };
    root + counting_parts(split_parts(path, '/'))
}

/// Whether a path is another one or lies below it: it begins with its components.
pub open spec fn path_below(path: Seq<char>, base: Seq<char>) -> bool {
    components(base).is_prefix_of(components(path))
}

/// The shortest beginning of a path, of at least `n` characters, that has some components;
/// the path itself where no shorter one has them.
pub open spec fn beginning_from(path: Seq<char>, n: int, wanted: Seq<Seq<char>>) -> Seq<char>
    decreases path.len() - n,
{
    if n >= path.len() {
        path
    } else if components(path.take(n)) == wanted {
        path.take(n)
    } else {
        beginning_from(path, n + 1, wanted)
    }
}

/// The shortest beginning of a path that has some components.
pub open spec fn beginning(path: Seq<char>, wanted: Seq<Seq<char>>) -> Seq<char> {
    beginning_from(path, 0, wanted)
}

/// A path without what does not count at its end: separators, and dots behind them.
pub open spec fn path_body(path: Seq<char>) -> Seq<char> {
    beginning(path, components(path))
}

/// The shortest ending of a path, with at most `n` characters before it, that has some
/// components; the path itself where no shorter one has them.
pub open spec fn ending_from(path: Seq<char>, n: int, wanted: Seq<Seq<char>>) -> Seq<char>
    decreases n,
{
    if n <= 0 {
        path
    } else if components(path.skip(n)) == wanted {
        path.skip(n)
    } else {
        ending_from(path, n - 1, wanted)
    }
}

/// The shortest ending of a path that has some components.
pub open spec fn ending(path: Seq<char>, wanted: Seq<Seq<char>>) -> Seq<char> {
    ending_from(path, path.len() as int, wanted)
}

/// A path without its last component, where it has one that is not the root.
pub open spec fn path_parent(path: Seq<char>) -> Option<Seq<char>> {
    let c = components(path);
    if c.len() == 0 || c.last() == seq!['/'] {
        None
    } else {
        Some(beginning(path, c.drop_last()))
    }
}

/// The last component of a path, where it is the name of an entry: neither the root nor
/// one or two dots.
pub open spec fn path_file_name(path: Seq<char>) -> Option<Seq<char>> {
    let c = components(path);
    if c.len() == 0 || c.last() == seq!['/'] || c.last() == seq!['.'] || c.last() == seq![
        '.',
        '.',
    ] {
        None
    } else {
        Some(c.last())
    }
}

/// What stands before the last dot of a name and what stands behind it. A name without a
/// dot, or with none but the first character, has no extension.
pub open spec fn stem_and_extension(name: Seq<char>) -> (Seq<char>, Option<Seq<char>>) {
    let extension = split_parts(name, '.').last();
    let dot = name.len() - extension.len() - 1;
    if dot <= 0 {
        (name, None)
    } else {
        (name.take(dot), Some(extension))
    }
}

/// The file name of a path without its extension.
pub open spec fn path_stem(path: Seq<char>) -> Option<Seq<char>> {
    match path_file_name(path) {
        Some(name) => Some(stem_and_extension(name).0),
        None => None,
    }
}

/// The extension of the file name of a path.
pub open spec fn path_extension(path: Seq<char>) -> Option<Seq<char>> {
    match path_file_name(path) {
        Some(name) => stem_and_extension(name).1,
        None => None,
    }
}

/// What `Path::with_extension` makes of a path and an extension.
pub uninterp spec fn path_with_extension(path: Seq<char>, extension: Seq<char>) -> Seq<char>;

/// A path with another extension; one without a file name stays as it is.
pub open spec fn extension_replaced(path: Seq<char>, extension: Seq<char>) -> Seq<char> {
    match path_file_name(path) {
        Some(name) => {
            let body = path_body(path);
            let stem = body.take(body.len() - name.len()) + stem_and_extension(name).0;
            if extension.len() == 0 {
                stem
            } else {
                stem.push('.') + extension
            }
        },
        None => path,
    }
}

/// Whether two texts are one path: they have the same components.
pub open spec fn path_same(a: Seq<char>, b: Seq<char>) -> bool {
    components(a) == components(b)
}

/// What is left of a path below another one: its components behind those of the other.
pub open spec fn path_stripped(path: Seq<char>, base: Seq<char>) -> Option<Seq<char>> {
    let n = components(base).len() as int;
    if !path_below(path, base) {
        None
    } else if n == 0 {
        Some(path_body(path))
    } else {
        Some(ending(path_body(path), components(path).skip(n)))
    }
}

/// Puts a path behind another, with a separator between them where the first is not empty
/// and does not end in one. An absolute one takes the place of the first.
pub(crate) fn join_path(base: &str, rest: &str) -> (r: String)
    ensures
        r@ == path_joined(base@, rest@),
{
    let m: usize = rest.unicode_len();
    if m > 0 && rest.get_char(0) == '/' {
        return rest.to_owned();
    }
    let n: usize = base.unicode_len();
    let mut r = base.to_owned();
    if n > 0 && base.get_char(n - 1) != '/' {
        proof {
            reveal_strlit("/");
        }
        r.append("/");
        assert(r@ =~= base@.push('/'));
    }
    r.append(rest);
    r
}

/// `Path::parent`: the path up to the end of the last component but one, where the last
/// is not the root.
#[verifier::external_body]
pub(crate) fn parent_path(path: &str) -> (r: Option<String>)
    ensures
        crate::text::optional_text(r) == path_parent(path@),
{
    std::path::Path::new(path).parent().and_then(|p| p.to_str()).map(|p| p.to_owned())
}

/// `Path::file_stem`: what stands before the last dot of the file name, and all of it
/// where there is no dot but at its beginning.
#[verifier::external_body]
pub(crate) fn stem_of_path(path: &str) -> (r: Option<String>)
    ensures
        crate::text::optional_text(r) == path_stem(path@),
{
    std::path::Path::new(path).file_stem().and_then(|p| p.to_str()).map(|p| p.to_owned())
}

/// `Path::extension`: what stands behind the last dot of the file name, where there is
/// one that is not at its beginning.
#[verifier::external_body]
pub(crate) fn extension_of_path(path: &str) -> (r: Option<String>)
    ensures
        crate::text::optional_text(r) == path_extension(path@),
{
    std::path::Path::new(path).extension().and_then(|p| p.to_str()).map(|p| p.to_owned())
}

/// `Path::with_extension`: the path up to the end of its file stem, a dot and the
/// extension. A path without a file name stays as it is. Of a path whose file stem is a dot
/// nothing is said but that the result depends on the two texts alone: where the old
/// extension is taken off first, two dots are left, which are no file name. The extension
/// must hold no path separator: `with_extension` panics on one.
#[verifier::external_body]
pub(crate) fn path_with_new_extension(path: &str, extension: &str) -> (r: String)
    requires
        !extension@.contains('/'),
        !extension@.contains('\\'),
    ensures
        r@ == path_with_extension(path@, extension@),
        path_stem(path@) != Some(seq!['.']) ==> r@ == extension_replaced(path@, extension@),
{
    std::path::Path::new(path).with_extension(extension).to_str().unwrap().to_owned()
}

/// `Path::starts_with`: whether the components of `path` begin with those of `base`. They
/// are those of `Path::components`: repeated separators, a trailing one, and dots that do
/// not begin the path do not count.
#[verifier::external_body]
pub(crate) fn is_path_below(path: &str, base: &str) -> (r: bool)
    ensures
        r == path_below(path@, base@),
{
    std::path::Path::new(path).starts_with(base)
}

/// `==` on `Path`: whether two paths have the same components.
#[verifier::external_body]
pub(crate) fn is_same_path(a: &str, b: &str) -> (r: bool)
    ensures
        r == path_same(a@, b@),
{
    std::path::Path::new(a) == std::path::Path::new(b)
}

/// `Path::strip_prefix`: what is left of a path below `base`, from its first component
/// that `base` does not have to its last, and `None` where it is not below it.
#[verifier::external_body]
pub(crate) fn strip_path_prefix(path: &str, base: &str) -> (r: Option<String>)
    ensures
        crate::text::optional_text(r) == path_stripped(path@, base@),
{
    std::path::Path::new(path).strip_prefix(base).ok().and_then(|p| p.to_str()).map(
        |p| p.to_owned(),
    )
}

proof fn lemma_split_not_empty(s: Seq<char>, mark: char)
    ensures
        split_parts(s, mark).len() >= 1,
    decreases s.len(),
{
    if s.len() > 0 {
        lemma_split_not_empty(s.drop_last(), mark);
    }
}

/// The parts of two texts with the mark between them are those of the one and of the
/// other.
proof fn lemma_split_around(a: Seq<char>, mark: char, b: Seq<char>)
    ensures
        split_parts(a.push(mark) + b, mark) == split_parts(a, mark) + split_parts(b, mark),
    decreases b.len(),
{
    let whole = a.push(mark) + b;
    lemma_split_not_empty(b, mark);
    if b.len() == 0 {
        assert(b =~= Seq::<char>::empty());
        assert(whole =~= a.push(mark));
        assert(whole.drop_last() =~= a);
        assert(split_parts(whole, mark) =~= split_parts(a, mark) + split_parts(b, mark));
    } else {
        let front = b.drop_last();
        lemma_split_around(a, mark, front);
        lemma_split_not_empty(front, mark);
        assert(whole.drop_last() =~= a.push(mark) + front);
        assert(whole.last() == b.last());
        assert(split_parts(whole, mark) =~= split_parts(a, mark) + split_parts(b, mark));
    }
}

proof fn lemma_split_unmarked(s: Seq<char>, mark: char)
    requires
        !s.contains(mark),
    ensures
        split_parts(s, mark) == seq![s],
    decreases s.len(),
{
    if s.len() > 0 {
        let front = s.drop_last();
        assert(s.contains(s[s.len() - 1]));
        assert forall|i: int| 0 <= i < front.len() implies front[i] != mark by {
            assert(s.contains(s[i]));
        }
        lemma_split_unmarked(front, mark);
        assert(front.push(s.last()) =~= s);
        assert(split_parts(s, mark) =~= seq![s]);
    }
}

/// Parts that come behind others count as they would by themselves, unless they begin
/// with a dot.
proof fn lemma_counting_parts_add(a: Seq<Seq<char>>, b: Seq<Seq<char>>)
    requires
        a.len() >= 1,
        b.len() >= 1,
        b[0] != seq!['.'],
    ensures
        counting_parts(a + b) == counting_parts(a) + counting_parts(b),
    decreases b.len(),
{
    assert((a + b).drop_last() =~= a + b.drop_last());
    if b.len() == 1 {
        assert(a + b.drop_last() =~= a);
        assert(b.drop_last() =~= Seq::<Seq<char>>::empty());
        assert(counting_parts(b.drop_last()) =~= Seq::<Seq<char>>::empty());
    } else {
        lemma_counting_parts_add(a, b.drop_last());
    }
    assert(counting_parts(a + b) =~= counting_parts(a) + counting_parts(b));
}

proof fn lemma_absolute_joined(base: Seq<char>, rest: Seq<char>)
    requires
        base.len() > 0,
        !is_absolute(rest),
    ensures
        is_absolute(path_joined(base, rest)) == is_absolute(base),
{
}

/// A path that goes behind another has its components behind those of the other, as long
/// as it is not absolute and does not begin with a dot for a part.
pub proof fn lemma_components_joined(base: Seq<char>, rest: Seq<char>)
    requires
        !is_absolute(rest),
        split_parts(rest, '/')[0] != seq!['.'],
    ensures
        components(path_joined(base, rest)) == components(base) + components(rest),
{
    let joined = path_joined(base, rest);
    lemma_split_not_empty(rest, '/');
    lemma_split_not_empty(base, '/');
    let parts = split_parts(rest, '/');
    if base.len() == 0 {
        assert(joined =~= rest);
        assert(split_parts(base, '/') =~= seq![base]);
        assert(split_parts(base, '/').drop_last() =~= Seq::<Seq<char>>::empty());
        assert(counting_parts(Seq::<Seq<char>>::empty()) =~= Seq::<Seq<char>>::empty());
        assert(counting_parts(split_parts(base, '/')) =~= Seq::<Seq<char>>::empty());
        assert(components(joined) =~= components(base) + components(rest));
    } else {
        lemma_absolute_joined(base, rest);
        if base.last() == '/' {
            let front = base.drop_last();
            lemma_split_not_empty(front, '/');
            assert(base =~= front.push('/'));
            assert(joined =~= front.push('/') + rest);
            lemma_split_around(front, '/', rest);
            lemma_counting_parts_add(split_parts(front, '/'), parts);
            assert(split_parts(base, '/').drop_last() =~= split_parts(front, '/'));
            assert(counting_parts(split_parts(base, '/')) == counting_parts(
                split_parts(front, '/'),
            ));
        } else {
            assert(joined =~= base.push('/') + rest);
            lemma_split_around(base, '/', rest);
            lemma_counting_parts_add(split_parts(base, '/'), parts);
        }
        assert(components(joined) =~= components(base) + components(rest));
    }
}

/// A text without a separator that is neither empty nor a dot is one component.
pub proof fn lemma_one_component(name: Seq<char>)
    requires
        !name.contains('/'),
        name != seq!['.'],
    ensures
        components(name) == (if name.len() == 0 {
            Seq::<Seq<char>>::empty()
        } else {
            seq![name]
        }),
        !is_absolute(name),
        split_parts(name, '/')[0] != seq!['.'],
{
    lemma_split_unmarked(name, '/');
    let parts = split_parts(name, '/');
    assert(parts.drop_last() =~= Seq::<Seq<char>>::empty());
    assert(counting_parts(parts.drop_last()) =~= Seq::<Seq<char>>::empty());
    if is_absolute(name) {
        assert(name.contains(name[0]));
    }
    assert(components(name) =~= if name.len() == 0 {
        Seq::<Seq<char>>::empty()
    } else {
        seq![name]
    });
}

/// The first part of a text is what stands before the first mark, and longer where more
/// goes behind it.
pub proof fn lemma_first_part(head: Seq<char>, tail: Seq<char>, mark: char)
    requires
        !head.contains(mark),
    ensures
        split_parts(head + tail, mark).len() >= 1,
        split_parts(head + tail, mark)[0].len() >= head.len(),
    decreases tail.len(),
{
    let whole = head + tail;
    if tail.len() == 0 {
        assert(whole =~= head);
        lemma_split_unmarked(head, mark);
    } else {
        assert(whole.drop_last() =~= head + tail.drop_last());
        lemma_first_part(head, tail.drop_last(), mark);
    }
}

/// A beginning of at least `m` characters that has some components is found.
proof fn lemma_beginning_found(path: Seq<char>, m: int, n: int, wanted: Seq<Seq<char>>)
    requires
        0 <= m <= n <= path.len(),
        components(path.take(n)) == wanted,
    ensures
        components(beginning_from(path, m, wanted)) == wanted,
        beginning_from(path, m, wanted).len() <= n,
        beginning_from(path, m, wanted).is_prefix_of(path),
    decreases n - m,
{
    if m >= path.len() {
        assert(path.take(n) =~= path);
    } else if components(path.take(m)) != wanted {
        lemma_beginning_found(path, m + 1, n, wanted);
    }
}

/// A path whose last component is not the root has a beginning with all of its components
/// but the last.
proof fn lemma_beginning_without_last(path: Seq<char>) -> (n: int)
    requires
        components(path).len() > 0,
        components(path).last() != seq!['/'],
    ensures
        0 <= n < path.len(),
        components(path.take(n)) == components(path).drop_last(),
    decreases path.len(),
{
    let parts = split_parts(path, '/');
    lemma_split_joins_back(path, '/');
    if path.len() == 0 {
        assert(parts =~= seq![path]);
        assert(parts.drop_last() =~= Seq::<Seq<char>>::empty());
        assert(counting_parts(parts.drop_last()) =~= Seq::<Seq<char>>::empty());
        assert(counting_parts(parts) =~= Seq::<Seq<char>>::empty());
        assert(components(path) =~= Seq::<Seq<char>>::empty());
    }
    let last = parts.last();
    assert(!parts[parts.len() - 1].contains('/'));
    let front = path.drop_last();
    if last.len() == 0 || (last == seq!['.'] && parts.len() > 1) {
        lemma_split_joins_back(front, '/');
        let before = split_parts(front, '/');
        if path.last() == '/' {
            assert(parts.drop_last() =~= before);
        } else {
            assert(last == before.last().push(path.last()));
            assert(before.last() =~= Seq::<char>::empty());
            assert(parts.drop_last() =~= before.drop_last());
        }
        assert(counting_parts(parts) == counting_parts(before));
        if front.len() == 0 {
            assert(before =~= seq![front]);
            assert(before.drop_last() =~= Seq::<Seq<char>>::empty());
            assert(counting_parts(before.drop_last()) =~= Seq::<Seq<char>>::empty());
            assert(counting_parts(before) =~= Seq::<Seq<char>>::empty());
            if path.last() == '/' {
                assert(components(path) =~= seq![seq!['/']]);
            } else {
                assert(components(path) =~= Seq::<Seq<char>>::empty());
            }
        }
        assert(is_absolute(front) == is_absolute(path));
        assert(components(front) =~= components(path));
        let n = lemma_beginning_without_last(front);
        assert(front.take(n) =~= path.take(n));
        n
    } else {
        lemma_part_taken_off(path);
        let n = path.len() - last.len();
        let head = path.take(n);
        let before = split_parts(head, '/');
        assert(before.drop_last() =~= parts.drop_last());
        assert(before.last().len() == 0);
        assert(counting_parts(before) == counting_parts(parts.drop_last()));
        assert(counting_parts(parts).drop_last() =~= counting_parts(parts.drop_last()));
        if n == 0 {
            assert(path =~= last);
            if is_absolute(path) {
                assert(last.contains(last[0]));
            }
        }
        assert(is_absolute(head) == is_absolute(path));
        assert(components(path).drop_last() =~= components(head));
        n
    }
}

/// A text without its last part ends in a mark, or is empty, and has the other parts.
proof fn lemma_part_taken_off(s: Seq<char>)
    ensures
        ({
            let parts = split_parts(s, '/');
            let n = s.len() - parts.last().len();
            &&& parts.len() >= 1
            &&& 0 <= n
            &&& s.skip(n) == parts.last()
            &&& split_parts(s.take(n), '/') == parts.drop_last().push(Seq::empty())
        }),
    decreases s.len(),
{
    let parts = split_parts(s, '/');
    lemma_split_joins_back(s, '/');
    if s.len() == 0 {
        assert(s =~= Seq::empty());
        assert(s.take(0) =~= s);
        assert(s.skip(0) =~= s);
        assert(split_parts(s, '/') =~= parts.drop_last().push(Seq::empty()));
    } else if s.last() == '/' {
        assert(s.take(s.len() as int) =~= s);
        assert(s.skip(s.len() as int) =~= Seq::empty());
        assert(parts =~= parts.drop_last().push(Seq::empty()));
    } else {
        let front = s.drop_last();
        let before = split_parts(front, '/');
        lemma_part_taken_off(front);
        let n = front.len() - before.last().len();
        assert(s.take(n) =~= front.take(n));
        assert(s.skip(n) =~= front.skip(n).push(s.last()));
        assert(parts.drop_last() =~= before.drop_last());
    }
}

/// The parent of a path has all components of the path but the last, and is a beginning
/// of it.
pub proof fn lemma_parent_components(path: Seq<char>)
    ensures
        path_parent(path) matches Some(parent) ==> {
            &&& components(parent) == components(path).drop_last()
            &&& parent.is_prefix_of(path)
            &&& parent.len() < path.len()
        },
{
    if path_parent(path) is Some {
        let n = lemma_beginning_without_last(path);
        lemma_beginning_found(path, 0, n, components(path).drop_last());
    }
}

/// The parts that count behind the first part of a path: not those that are empty or a
/// dot.
spec fn later_parts(parts: Seq<Seq<char>>) -> Seq<Seq<char>>
    decreases parts.len(),
{
    if parts.len() == 0 {
        Seq::empty()
    } else {
        let front = later_parts(parts.drop_last());
        let last = parts.last();
        if last.len() == 0 || last == seq!['.'] {
            front
        } else {
            front.push(last)
        }
    }
}

proof fn lemma_later_parts(first: Seq<char>, parts: Seq<Seq<char>>)
    ensures
        counting_parts(seq![first] + parts) == counting_parts(seq![first]) + later_parts(parts),
        later_parts(seq![first] + parts) == later_parts(seq![first]) + later_parts(parts),
    decreases parts.len(),
{
    let all = seq![first] + parts;
    if parts.len() == 0 {
        assert(all =~= seq![first]);
        assert(counting_parts(all) =~= counting_parts(seq![first]) + later_parts(parts));
        assert(later_parts(all) =~= later_parts(seq![first]) + later_parts(parts));
    } else {
        lemma_later_parts(first, parts.drop_last());
        assert(all.drop_last() =~= seq![first] + parts.drop_last());
        assert(counting_parts(all) =~= counting_parts(seq![first]) + later_parts(parts));
        assert(later_parts(all) =~= later_parts(seq![first]) + later_parts(parts));
    }
}

proof fn lemma_first_counts(first: Seq<char>)
    ensures
        counting_parts(seq![first]) == (if first.len() == 0 {
            Seq::<Seq<char>>::empty()
        } else {
            seq![first]
        }),
        later_parts(seq![first]) == (if first.len() == 0 || first == seq!['.'] {
            Seq::<Seq<char>>::empty()
        } else {
            seq![first]
        }),
{
    assert(seq![first].drop_last() =~= Seq::<Seq<char>>::empty());
    assert(counting_parts(Seq::<Seq<char>>::empty()) =~= Seq::<Seq<char>>::empty());
    assert(later_parts(Seq::<Seq<char>>::empty()) =~= Seq::<Seq<char>>::empty());
    assert(counting_parts(seq![first]) =~= if first.len() == 0 {
        Seq::<Seq<char>>::empty()
    } else {
        seq![first]
    });
    assert(later_parts(seq![first]) =~= if first.len() == 0 || first == seq!['.'] {
        Seq::<Seq<char>>::empty()
    } else {
        seq![first]
    });
}

/// A text is its first part alone, or its first part, a separator and the rest.
proof fn lemma_first_part_off(s: Seq<char>) -> (n: int)
    ensures
        0 <= n <= s.len(),
        !s.take(n).contains('/'),
        n < s.len() ==> s[n] == '/' && split_parts(s, '/') == seq![s.take(n)] + split_parts(
            s.skip(n + 1),
            '/',
        ),
        n == s.len() ==> split_parts(s, '/') == seq![s],
{
    if !s.contains('/') {
        lemma_split_unmarked(s, '/');
        assert(s.take(s.len() as int) =~= s);
        s.len() as int
    } else {
        let n = s.index_of_first('/').unwrap();
        s.index_of_first_ensures('/');
        let first = s.take(n);
        let rest = s.skip(n + 1);
        assert forall|i: int| 0 <= i < first.len() implies first[i] != '/' by {
            assert(s[i] != '/');
        }
        assert(s =~= first.push('/') + rest);
        lemma_split_around(first, '/', rest);
        lemma_split_unmarked(first, '/');
        n
    }
}

/// What comes behind a component of a path has an ending that begins with a component,
/// and has the components that come there.
proof fn lemma_ending_of_later(s: Seq<char>) -> (m: int)
    ensures
        0 <= m <= s.len(),
        components(s.skip(m)) == later_parts(split_parts(s, '/')),
        !is_absolute(s.skip(m)),
        split_parts(s.skip(m), '/')[0] != seq!['.'],
    decreases s.len(),
{
    let n = lemma_first_part_off(s);
    let first = s.take(n);
    lemma_first_counts(first);
    assert(s.skip(0) =~= s);
    if first.len() == 0 || first == seq!['.'] {
        if n == s.len() {
            assert(first =~= s);
            let m = s.len() as int;
            assert(s.skip(m) =~= Seq::<char>::empty());
            assert(!s.skip(m).contains('/'));
            lemma_one_component(s.skip(m));
            m
        } else {
            let rest = s.skip(n + 1);
            lemma_later_parts(first, split_parts(rest, '/'));
            assert(later_parts(split_parts(s, '/')) =~= later_parts(split_parts(rest, '/')));
            let m = lemma_ending_of_later(rest);
            assert(rest.skip(m) =~= s.skip(n + 1 + m));
            n + 1 + m
        }
    } else {
        assert(s[0] == first[0]);
        assert(first.contains(first[0]));
        if n == s.len() {
            assert(first =~= s);
            lemma_one_component(s);
            assert(components(s) =~= later_parts(split_parts(s, '/')));
        } else {
            lemma_later_parts(first, split_parts(s.skip(n + 1), '/'));
            assert(components(s) =~= later_parts(split_parts(s, '/')));
        }
        0
    }
}

/// A path has an ending with all of its components but the first.
proof fn lemma_ending_without_first(path: Seq<char>) -> (m: int)
    requires
        components(path).len() > 0,
    ensures
        0 < m <= path.len(),
        components(path.skip(m)) == components(path).skip(1),
        !is_absolute(path.skip(m)),
        split_parts(path.skip(m), '/')[0] != seq!['.'],
{
    let n = lemma_first_part_off(path);
    let first = path.take(n);
    lemma_first_counts(first);
    if n == path.len() {
        assert(first =~= path);
        if is_absolute(path) {
            assert(first.contains(first[0]));
        }
        assert(components(path) =~= counting_parts(seq![first]));
        assert(path.skip(n) =~= Seq::<char>::empty());
        assert(!path.skip(n).contains('/'));
        lemma_one_component(path.skip(n));
        assert(components(path).skip(1) =~= Seq::<Seq<char>>::empty());
        n
    } else {
        let rest = path.skip(n + 1);
        let m = lemma_ending_of_later(rest);
        lemma_later_parts(first, split_parts(rest, '/'));
        assert(rest.skip(m) =~= path.skip(n + 1 + m));
        if is_absolute(path) {
            if n > 0 {
                assert(first.contains(first[0]));
            }
        } else {
            assert(n > 0);
        }
        assert(components(path).skip(1) =~= later_parts(split_parts(rest, '/')));
        n + 1 + m
    }
}

/// A path has an ending with all of its components but the first `n`.
proof fn lemma_ending_behind(path: Seq<char>, n: int) -> (m: int)
    requires
        0 < n <= components(path).len(),
    ensures
        0 < m <= path.len(),
        components(path.skip(m)) == components(path).skip(n),
        !is_absolute(path.skip(m)),
        split_parts(path.skip(m), '/')[0] != seq!['.'],
    decreases n,
{
    let m = lemma_ending_without_first(path);
    if n == 1 {
        m
    } else {
        let rest = path.skip(m);
        let k = lemma_ending_behind(rest, n - 1);
        assert(rest.skip(k) =~= path.skip(m + k));
        assert(components(path).skip(1).skip(n - 1) =~= components(path).skip(n));
        m + k
    }
}

/// An ending that has some components is found.
proof fn lemma_ending_found(path: Seq<char>, m: int, n: int, wanted: Seq<Seq<char>>)
    requires
        0 <= m <= n <= path.len(),
        components(path.skip(m)) == wanted,
    ensures
        components(ending_from(path, n, wanted)) == wanted,
    decreases n,
{
    if n <= 0 {
        assert(path.skip(m) =~= path);
    } else if components(path.skip(n)) != wanted {
        lemma_ending_found(path, m, n - 1, wanted);
    }
}

/// What is left of a path below another one has the components of the path behind those
/// of the other.
pub proof fn lemma_stripped_components(path: Seq<char>, base: Seq<char>)
    ensures
        path_stripped(path, base) matches Some(rest) ==> components(base) + components(rest)
            == components(path),
{
    if path_below(path, base) {
        let n = components(base).len() as int;
        let c = components(path);
        let body = path_body(path);
        assert(path.take(path.len() as int) =~= path);
        lemma_beginning_found(path, 0, path.len() as int, c);
        assert(c.take(n) + c.skip(n) =~= c);
        assert(components(base) =~= c.take(n));
        if n > 0 {
            let m = lemma_ending_behind(body, n);
            lemma_ending_found(body, m, body.len() as int, c.skip(n));
        } else {
            assert(c.skip(0) =~= c);
        }
    }
}

/// A text without the mark makes the last part of what stands before it longer.
proof fn lemma_last_part_grows(a: Seq<char>, b: Seq<char>, mark: char)
    requires
        !b.contains(mark),
    ensures
        split_parts(a, mark).len() >= 1,
        split_parts(a + b, mark) == split_parts(a, mark).drop_last().push(
            split_parts(a, mark).last() + b,
        ),
    decreases b.len(),
{
    let parts = split_parts(a, mark);
    lemma_split_not_empty(a, mark);
    if b.len() == 0 {
        assert(a + b =~= a);
        assert(parts.last() + b =~= parts.last());
        assert(parts =~= parts.drop_last().push(parts.last()));
    } else {
        let front = b.drop_last();
        assert(b.contains(b[b.len() - 1]));
        assert forall|i: int| 0 <= i < front.len() implies front[i] != mark by {
            assert(b.contains(b[i]));
        }
        lemma_last_part_grows(a, front, mark);
        let whole = a + b;
        assert(whole.drop_last() =~= a + front);
        let before = split_parts(a + front, mark);
        assert(before.drop_last() =~= parts.drop_last());
        assert((parts.last() + front).push(b.last()) =~= parts.last() + b);
    }
}

/// What stands behind the last dot of a path is its extension, as long as it holds no
/// separator, and some other character that is none stands before the dot.
pub proof fn lemma_extension(head: Seq<char>, c: char, extension: Seq<char>)
    requires
        c != '/',
        !extension.contains('/'),
        !extension.contains('.'),
        extension.len() > 0,
    ensures
        path_extension(head.push(c).push('.') + extension) == Some(extension),
{
    let path = head.push(c).push('.') + extension;
    let end = seq![c, '.'] + extension;
    assert(path =~= head + end);
    assert forall|i: int| 0 <= i < end.len() implies end[i] != '/' by {
        if i >= 2 {
            assert(extension.contains(extension[i - 2]));
        }
    }
    lemma_last_part_grows(head, end, '/');
    let parts = split_parts(path, '/');
    let name = split_parts(head, '/').last() + end;
    assert(parts.last() == name);
    assert(name.len() >= 3);
    assert(components(path).last() == name);
    let stem = split_parts(head, '/').last().push(c);
    assert(name =~= stem.push('.') + extension);
    lemma_split_around(stem, '.', extension);
    lemma_split_unmarked(extension, '.');
    lemma_split_not_empty(stem, '.');
    assert(split_parts(name, '.').last() == extension);
}

/// No component of a path but the root holds a separator, and none is empty.
pub proof fn lemma_component_holds_no_separator(path: Seq<char>)
    ensures
        components(path).len() > 0 ==> components(path).last().len() > 0 && (components(path).last()
            == seq!['/'] || !components(path).last().contains('/')),
{
    lemma_split_joins_back(path, '/');
    lemma_counting_parts_hold_no_mark(split_parts(path, '/'));
    let parts = counting_parts(split_parts(path, '/'));
    if parts.len() > 0 {
        assert(components(path).last() == parts.last());
        assert(!parts[parts.len() - 1].contains('/'));
    }
}

proof fn lemma_counting_parts_hold_no_mark(parts: Seq<Seq<char>>)
    requires
        forall|i: int| 0 <= i < parts.len() ==> !(#[trigger] parts[i]).contains('/'),
    ensures
        forall|i: int|
            0 <= i < counting_parts(parts).len() ==> !(#[trigger] counting_parts(parts)[i]).contains(
                '/',
            ) && counting_parts(parts)[i].len() > 0,
    decreases parts.len(),
{
    if parts.len() > 0 {
        let front = parts.drop_last();
        assert forall|i: int| 0 <= i < front.len() implies !(#[trigger] front[i]).contains(
            '/',
        ) by {
            assert(parts[i] == front[i]);
        }
        lemma_counting_parts_hold_no_mark(front);
        assert(!parts[parts.len() - 1].contains('/'));
        let before = counting_parts(front);
        let now = counting_parts(parts);
        assert forall|i: int| 0 <= i < now.len() implies !(#[trigger] now[i]).contains('/')
            && now[i].len() > 0 by {
            if i < before.len() {
                assert(now[i] == before[i]);
            } else {
                assert(now[i] == parts.last());
            }
        }
    }
}

}
