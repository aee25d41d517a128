use vstd::prelude::*;

use crate::text::opt_view;

verus! {

/// A character that separates path components on some platform.
pub open spec fn is_separator(c: char) -> bool {
    c == '/' || c == '\\'
}

/// A character that may stand in a plain component: no separator, drive colon or
/// verbatim mark.
pub open spec fn is_plain_char(c: char) -> bool {
    !is_separator(c) && c != ':' && c != '?'
}

/// No character of `p` from index `i` on separates components, names a drive or
/// marks a verbatim path.
pub open spec fn plain_chars_from(p: Seq<char>, i: int) -> bool
    decreases p.len() - i,
{
    if i < 0 || i >= p.len() {
        true
    } else {
        is_plain_char(p[i]) && plain_chars_from(p, i + 1)
    }
}

/// A single relative path component that carries no prefix, root or separator.
pub open spec fn is_plain_component(p: Seq<char>) -> bool {
    &&& p.len() > 0
    &&& p != seq!['.']
    &&& p != seq!['.', '.']
    &&& plain_chars_from(p, 0)
}

/// Every character of a plain component is plain.
pub proof fn lemma_plain_component_chars(p: Seq<char>, k: int)
    requires
        is_plain_component(p),
        0 <= k < p.len(),
    ensures
        !is_separator(p[k]) && p[k] != ':' && p[k] != '?',
{
    lemma_plain_chars_from(p, 0, k);
}

proof fn lemma_plain_chars_from(p: Seq<char>, i: int, k: int)
    requires
        0 <= i <= k < p.len(),
        plain_chars_from(p, i),
    ensures
        !is_separator(p[k]) && p[k] != ':' && p[k] != '?',
    decreases k - i,
{
    if i < k {
        lemma_plain_chars_from(p, i + 1, k);
    }
}

/// `r` is `base` extended by the component `part` as `PathBuf::push` does it: onto an
/// empty path the component alone; after a trailing `/` with no separator; after a
/// trailing `\` with none (where it is a separator) or with `/` (where it is a plain
/// character); after a two-character base ending in `:`, which is a bare drive where the
/// platform reads it as one, with none or with either separator; otherwise with the
/// platform's separator, `/` or `\`, in between.
pub open spec fn joined(r: Seq<char>, base: Seq<char>, part: Seq<char>) -> bool {
    if base.len() == 0 {
        r == part
    } else if base.last() == '/' {
        r == base + part
    } else if base.last() == '\\' {
        r == base + part || r == base + seq!['/'] + part
    } else if base.len() == 2 && base[1] == ':' {
        r == base + part || r == base + seq!['/'] + part || r == base + seq!['\\'] + part
    } else {
        r == base + seq!['/'] + part || r == base + seq!['\\'] + part
    }
}

/// A path whose third character is not `?`: no form of a Windows verbatim prefix
/// (`\\?\`) starts it, and joining plain components to it keeps it that way.
pub open spec fn keeps_plain_start(p: Seq<char>) -> bool {
    !(p.len() > 2 && p[2] == '?')
}

/// `Path::join` of a path string with one plain relative component. For a relative
/// component, std documents that the path is extended by it, as `PathBuf::push` does:
/// a separator goes in between unless the path is empty, ends in a separator or is a
/// bare drive prefix. Which characters are separators, and which one is added, depends
/// on the platform: `joined` allows each platform's outcome. Under a verbatim prefix std
/// normalizes the whole path, and nothing is claimed there.
#[verifier::external_body]
pub(crate) fn join_path(base: &str, part: &str) -> (res: String)
    requires
        is_plain_component(part@),
    ensures
        keeps_plain_start(base@) ==> joined(res@, base@, part@),
{
    std::path::Path::new(base).join(part).to_string_lossy().into_owned()
}

/// A `.` or `..` segment starts at index `i` of `p`.
pub open spec fn dot_segment_at(p: Seq<char>, i: int) -> bool {
    &&& p[i] == '.'
    &&& (i + 1 == p.len() || p[i + 1] == '/' || (p[i + 1] == '.' && (i + 2 == p.len() || p[i + 2]
        == '/')))
}

/// A relative path of plain components separated by single `/`, with no `/` at
/// either end.
pub open spec fn is_plain_slash_relative(p: Seq<char>) -> bool {
    &&& p.len() > 0
    &&& p[0] != '/'
    &&& p.last() != '/'
    &&& forall|i: int| 0 <= i < p.len() ==> #[trigger] p[i] == '/' || is_plain_char(p[i])
    &&& forall|i: int| 0 <= i < p.len() - 1 ==> !(#[trigger] p[i] == '/' && p[i + 1] == '/')
    &&& forall|i: int| 0 <= i < p.len() && (i == 0 || p[i - 1] == '/') ==> !#[trigger] dot_segment_at(p, i)
}

/// A path of plain components separated by single `/`, with at most one `/` before
/// them and none after: every platform reads it as the same components, so two such
/// paths are equal paths exactly when they are equal strings.
pub open spec fn is_plain_slash_path(p: Seq<char>) -> bool {
    ||| is_plain_slash_relative(p)
    ||| (p.len() > 1 && p[0] == '/' && is_plain_slash_relative(p.drop_first()))
}

/// `Path::eq` on two path strings: paths compare by their components, so two
/// equal strings are equal paths, and two paths of plain components separated by
/// single `/` are equal exactly when their strings are. Whether other different
/// strings name equal paths depends on the platform's separators and is not stated.
#[verifier::external_body]
pub(crate) fn same_path(a: &str, b: &str) -> (res: bool)
    ensures
        a@ == b@ ==> res,
        is_plain_slash_path(a@) && is_plain_slash_path(b@) ==> res == (a@ == b@),
{
    std::path::Path::new(a) == std::path::Path::new(b)
}

/// The characters after the last `/` of `p` (all of `p` when it has none).
pub open spec fn after_last_slash(p: Seq<char>) -> Seq<char>
    decreases p.len(),
{
    if p.len() == 0 {
        p
    } else if p.last() == '/' {
        Seq::empty()
    } else {
        after_last_slash(p.drop_last()).push(p.last())
    }
}

/// A path whose last component every platform reads alike: what follows its last `/`
/// is a plain component, and it does not start with two separators (a network, device
/// or verbatim prefix on Windows).
pub open spec fn has_plain_file_name(p: Seq<char>) -> bool {
    &&& is_plain_component(after_last_slash(p))
    &&& !(p.len() >= 2 && is_separator(p[0]) && is_separator(p[1]))
}

/// `Path::file_name` of a path string: its last component, if it has one. Where that
/// component is plain and follows a `/` or starts the path, it is what follows the last
/// `/`, on every platform. Elsewhere how the string splits into components depends on
/// the platform (`\` separates on Windows only; a drive or network prefix is not a
/// name there), and the name is not stated.
#[verifier::external_body]
pub(crate) fn file_name(path: &str) -> (res: Option<String>)
    ensures
        has_plain_file_name(path@) ==> opt_view(res) == Some(after_last_slash(path@)),
{
    std::path::Path::new(path).file_name().map(|n| n.to_string_lossy().into_owned())
}

/// `r` is `base` extended by each of `parts` in turn, each joined as `joined` says.
pub open spec fn joined_all(r: Seq<char>, base: Seq<char>, parts: Seq<Seq<char>>) -> bool
    decreases parts.len(),
{
    if parts.len() == 0 {
        r == base
    } else {
        let p = parts.last();
        &&& r.len() >= p.len()
        &&& {
            let rest = r.subrange(0, r.len() - p.len());
            ||| joined_all(rest, base, parts.drop_last()) && joined(r, rest, p)
            ||| (rest.len() > 0 && joined_all(rest.drop_last(), base, parts.drop_last()) && joined(
                r,
                rest.drop_last(),
                p,
            ))
        }
    }
}

/// The characters of each string slice of a sequence.
pub open spec fn str_views(parts: Seq<&str>) -> Seq<Seq<char>> {
    parts.map_values(|p: &str| p@)
}

/// A joined path is the base, at most one separator, then the component.
proof fn lemma_joined_forms(r: Seq<char>, base: Seq<char>, part: Seq<char>)
    requires
        joined(r, base, part),
    ensures
        r == base + part || r == base + seq!['/'] + part || r == base + seq!['\\'] + part,
{
    if base.len() == 0 {
        assert(base + part =~= part);
    }
}

proof fn lemma_joined_all_step(r: Seq<char>, mid: Seq<char>, base: Seq<char>, parts: Seq<Seq<char>>)
    requires
        parts.len() > 0,
        joined_all(mid, base, parts.drop_last()),
        joined(r, mid, parts.last()),
    ensures
        joined_all(r, base, parts),
{
    let p = parts.last();
    let rest = r.subrange(0, r.len() - p.len());
    lemma_joined_forms(r, mid, p);
    if r == mid + p {
        assert(rest =~= mid);
    } else {
        assert(rest.drop_last() =~= mid);
    }
}

proof fn lemma_join_keeps_plain_start(r: Seq<char>, base: Seq<char>, part: Seq<char>)
    requires
        keeps_plain_start(base),
        is_plain_component(part),
        joined(r, base, part),
    ensures
        keeps_plain_start(r),
{
    lemma_joined_forms(r, base, part);
    if r.len() > 2 {
        if base.len() <= 2 && r == base + part {
            lemma_plain_component_chars(part, 2 - base.len());
        } else if base.len() < 2 {
            lemma_plain_component_chars(part, 2 - base.len() - 1);
        }
        if base.len() > 2 {
            assert(r[2] == base[2]);
        } else if r == base + part {
            assert(r[2] == part[2 - base.len()]);
        } else if base.len() == 2 {
            assert(is_separator(r[2]));
        } else {
            assert(r[2] == part[2 - base.len() - 1]);
        }
    }
}

/// Joins the plain components `parts` onto `base`, one after the other.
pub fn join_all(base: &str, parts: &[&str]) -> (res: String)
    requires
        forall|i: int| 0 <= i < parts@.len() ==> is_plain_component(#[trigger] parts@[i]@),
    ensures
        keeps_plain_start(base@) ==> joined_all(res@, base@, str_views(parts@)) && keeps_plain_start(res@),
{
    let mut path: String = base.to_owned();
    let mut i: usize = 0;
    assert(str_views(parts@).take(0) =~= Seq::<Seq<char>>::empty());
    while i < parts.len()
        invariant
            i <= parts@.len(),
            forall|i: int| 0 <= i < parts@.len() ==> is_plain_component(#[trigger] parts@[i]@),
            keeps_plain_start(base@) ==> joined_all(path@, base@, str_views(parts@).take(i as int))
                && keeps_plain_start(path@),
        decreases parts@.len() - i,
    {
        let ghost prev = path@;
        let part = parts[i];
        path = join_path(path.as_str(), part);
        proof {
            if keeps_plain_start(base@) {
                lemma_join_keeps_plain_start(path@, prev, part@);
                let t = str_views(parts@).take(i + 1);
                assert(t.len() == i + 1);
                assert(t.drop_last() =~= str_views(parts@).take(i as int));
                assert(t.last() == part@);
                assert(joined_all(prev, base@, t.drop_last()));
                assert(joined(path@, prev, t.last()));
                lemma_joined_all_step(path@, prev, base@, t);
            }
        }
        i = i + 1;
    }
    assert(str_views(parts@).take(parts@.len() as int) =~= str_views(parts@));
    path
}

} // verus!
