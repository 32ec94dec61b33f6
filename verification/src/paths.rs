use vstd::prelude::*;

verus! {

/// `c` separates the components of a path on some platform (`/` on every
/// platform, `\` on Windows).
pub open spec fn is_separator(c: char) -> bool {
    c == '\\' || c == '/'
}

/// `p` begins with two separators: the form of Windows' network, device and
/// verbatim prefixes, whose paths follow rules of their own.
pub open spec fn two_separators_first(p: Seq<char>) -> bool {
    p.len() >= 2 && is_separator(p[0]) && is_separator(p[1])
}

/// `name` is a relative path on every platform: not empty, not starting at
/// a root, and without a drive prefix.
pub open spec fn relative_name(name: Seq<char>) -> bool {
    &&& name.len() > 0
    &&& !is_separator(name[0])
    &&& !(name.len() >= 2 && name[1] == ':')
}

/// `name` is a single ordinary file name on every platform: not empty, not
/// `.` or `..`, without separators and without `:`.
pub open spec fn plain_name(name: Seq<char>) -> bool {
    &&& name.len() > 0
    &&& name != seq!['.']
    &&& name != seq!['.', '.']
    &&& forall|i: int| 0 <= i < name.len() ==> !is_separator(#[trigger] name[i]) && name[i] != ':'
}

/// `s` ends with `t`.
pub open spec fn ends_with(s: Seq<char>, t: Seq<char>) -> bool {
    t.len() <= s.len() && s.subrange(s.len() - t.len(), s.len() as int) == t
}

/// `r` is `dir` extended by `name`: `name` follows `dir` directly when `dir`
/// is empty, ends with a separator or is a bare drive (`C:`), and after one
/// separator otherwise; a `dir` ending with `/` is never given another one.
pub open spec fn joined(dir: Seq<char>, name: Seq<char>, r: Seq<char>) -> bool {
    ||| r == dir + name && (dir.len() == 0 || is_separator(dir.last()) || dir.last() == ':')
    ||| {
        &&& dir.len() > 0
        &&& dir.last() != '/'
        &&& r.len() == dir.len() + 1 + name.len()
        &&& is_separator(r[dir.len() as int])
        &&& r == dir + seq![r[dir.len() as int]] + name
    }
}

/// The location of `name` inside `dir`, as the platform forms it.
///
/// Trusted: calls `std::path::Path::join` and writes the path back as text
/// (the path comes from UTF-8 text, so nothing is lost). `join` extends
/// `dir` with `name` (`PathBuf::push`): a relative `name` is added after a
/// separator, which is left out when `dir` is empty, already ends with a
/// separator, or is a bare drive. The contract states this for a relative
/// `name` and a `dir` that does not begin with two separators (Windows
/// normalises paths with a verbatim prefix, and network prefixes have rules
/// of their own), and, for a plain file name, that the result ends with it.
/// Which separator is added depends on the platform and is not stated.
#[verifier::external_body]
pub(crate) fn path_join(dir: &str, name: &str) -> (r: String)
    ensures
        relative_name(name@) && !two_separators_first(dir@) ==> joined(dir@, name@, r@),
        plain_name(name@) ==> ends_with(r@, name@),
{
    std::path::Path::new(dir).join(name).to_string_lossy().into_owned()
}

/// The index of the last `.` in `s`, or `-1`.
pub open spec fn last_dot(s: Seq<char>) -> int
    decreases s.len(),
{
    if s.len() == 0 {
        -1
    } else if s.last() == '.' {
        s.len() - 1
    } else {
        last_dot(s.drop_last())
    }
}

/// The file name `name` with its extension set to `extension`: the part
/// after the last `.` is replaced, unless that `.` begins the name (or there
/// is none), in which case the extension is added.
pub open spec fn with_extension(name: Seq<char>, extension: Seq<char>) -> Seq<char> {
    let k = last_dot(name);
    if k > 0 {
        name.take(k) + seq!['.'] + extension
    } else {
        name + seq!['.'] + extension
    }
}

/// `p` is `stem`, a `.`, and the extension `old`, and every platform reads
/// `old` as the extension of the file name `p` ends with.
pub open spec fn extension_at(p: Seq<char>, stem: Seq<char>, old: Seq<char>) -> bool {
    &&& p == stem + seq!['.'] + old
    &&& old.len() > 0
    &&& forall|i: int| 0 <= i < old.len() ==> #[trigger] old[i] != '.' && !is_separator(old[i])
    &&& stem.len() > 0
    &&& !is_separator(stem.last())
    &&& stem.last() != ':'
    &&& !two_separators_first(p)
}

/// `p` is the directory part `dir`, ending with `/`, followed by the plain
/// file name `name`.
pub open spec fn file_name_at(p: Seq<char>, dir: Seq<char>, name: Seq<char>) -> bool {
    &&& p == dir + name
    &&& dir.len() > 0
    &&& dir.last() == '/'
    &&& plain_name(name)
    &&& !two_separators_first(p)
}

/// `path` with the extension of its file name set to `extension`, as the
/// platform forms it.
///
/// Trusted: calls `std::path::PathBuf::set_extension` and writes the path
/// back as text. `set_extension` panics on an extension that holds a path
/// separator, which `requires` leaves out. As documented, the extension of
/// a file name is the part after its last `.`, unless the name begins with
/// that `.`; `set_extension` replaces it, or adds one when there is none.
/// The contract states this where every platform reads the file name the
/// same way: an extension after a stem that does not end a component, and a
/// plain file name after a `/`. Elsewhere (a file name after `\`, which only
/// Windows separates) the result is not stated.
#[verifier::external_body]
pub(crate) fn path_with_extension(path: &str, extension: &str) -> (r: String)
    requires
        forall|i: int| 0 <= i < extension@.len() ==> !is_separator(#[trigger] extension@[i]),
    ensures
        forall|stem: Seq<char>, old: Seq<char>|
            #[trigger] extension_at(path@, stem, old) && extension@.len() > 0 ==> r@ == stem
                + seq!['.'] + extension@,
        forall|dir: Seq<char>, name: Seq<char>|
            #[trigger] file_name_at(path@, dir, name) && extension@.len() > 0 ==> r@ == dir
                + with_extension(name, extension@),
{
    let mut p = std::path::PathBuf::from(path);
    p.set_extension(extension);
    p.to_string_lossy().into_owned()
}

/// `p` is the directory `dir`, a `/`, and the plain file name `name`, with
/// `dir` not ending in a separator, a `.` or a `:`.
pub open spec fn parent_at(p: Seq<char>, dir: Seq<char>, name: Seq<char>) -> bool {
    &&& p == dir + seq!['/'] + name
    &&& dir.len() > 0
    &&& !is_separator(dir.last())
    &&& dir.last() != '.'
    &&& dir.last() != ':'
    &&& plain_name(name)
    &&& !two_separators_first(p)
}

/// The directory that holds `path`, as the platform sees it.
///
/// Trusted: calls `std::path::Path::parent` and writes the result back as
/// text. As documented, `parent` gives the path without its final
/// component; the contract states this where every platform reads the
/// components the same way: a plain file name after a `/`, in a directory
/// whose text does not end in a separator, a `.` or a `:`.
#[verifier::external_body]
pub(crate) fn path_parent(path: &str) -> (r: Option<String>)
    ensures
        forall|dir: Seq<char>, name: Seq<char>|
            #[trigger] parent_at(path@, dir, name) ==> opt_text(r) == Some(dir),
{
    match std::path::Path::new(path).parent() {
        Some(parent) => Some(parent.to_string_lossy().into_owned()),
        None => None,
    }
}

/// An optional string as plain values.
pub open spec fn opt_text(s: Option<String>) -> Option<Seq<char>> {
    match s {
        None => None,
        Some(s) => Some(s@),
    }
}

/// `last_dot` is `-1` or the index of a `.`.
pub proof fn lemma_last_dot_range(name: Seq<char>)
    ensures
        -1 <= last_dot(name) < name.len(),
        last_dot(name) >= 0 ==> name[last_dot(name)] == '.',
    decreases name.len(),
{
    if name.len() > 0 && name.last() != '.' {
        lemma_last_dot_range(name.drop_last());
    }
}

/// A plain name with its extension set to a plain extension is a plain
/// name.
pub proof fn lemma_with_extension_plain(name: Seq<char>, extension: Seq<char>)
    requires
        plain_name(name),
        plain_name(extension),
    ensures
        plain_name(with_extension(name, extension)),
        with_extension(name, extension).len() >= 2,
        with_extension(name, extension).last() == extension.last(),
{
    lemma_last_dot_range(name);
    let r = with_extension(name, extension);
    let k = last_dot(name);
    let head = if k > 0 { name.take(k) } else { name };
    assert(r == head + seq!['.'] + extension);
    assert forall|i: int| 0 <= i < r.len() implies !is_separator(#[trigger] r[i]) && r[i] != ':' by {
        if i < head.len() {
            assert(r[i] == name[i]);
        } else if i > head.len() {
            assert(r[i] == extension[i - head.len() - 1]);
        }
    }
    assert(r.len() >= 3);
}

} // verus!
