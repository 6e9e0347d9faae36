//! File names that are safe to use.
use vstd::prelude::*;
use vstd::string::*;

verus! {

/// What `sanitize_filename` makes of a name, with `replacement` for what may not
/// stand in a file name.
pub uninterp spec fn sanitized(name: Seq<char>, replacement: Seq<char>) -> Seq<char>;

/// Whether a text names an entry of a folder: it holds no separator, and is neither the
/// folder itself nor the one above it.
pub open spec fn names_entry(name: Seq<char>) -> bool {
    &&& !name.contains('/')
    &&& name != "."@
    &&& name != ".."@
}

/// `sanitize_filename::sanitize_with_options`, with the options that are its defaults on
/// Unix but for the replacement. With no replacement this is
/// `sanitize_filename::sanitize`. The replacement must hold no `$`, which would stand for
/// what is replaced. Where it holds neither separators nor dots, the result holds no
/// separator, and is neither `.` nor `..`.
#[verifier::external_body]
pub(crate) fn sanitize_name(name: &str, replacement: &str) -> (r: String)
    requires
        !replacement@.contains('$'),
    ensures
        r@ == sanitized(name@, replacement@),
        !replacement@.contains('/') && !replacement@.contains('.') ==> names_entry(r@),
{
    let options = sanitize_filename::Options { windows: false, truncate: true, replacement };
    sanitize_filename::sanitize_with_options(name, options)
}

}
