//! Tools that read files and list directories, and how they are kept inside
//! the root of the project.
use vstd::prelude::*;

use crate::data::Data;
use crate::order::{sort_names, sorted_names};
use crate::text::{chars_of, join, joined, same_text, text_of, texts};
use crate::tool::{tool_result, ToolError, ToolErrorView};
use crate::tools::{catalogue, read_text_argument, text_argument};

verus! {

// ---------------------------------------------------------------------------
// Paths
// ---------------------------------------------------------------------------
/// The path of `name` under `root`: `name` itself where it starts at the root
/// of the file system.
pub open spec fn path_under(root: Seq<char>, name: Seq<char>) -> Seq<char> {
    if name.len() > 0 && name[0] == '/' {
        name
    } else if root.len() == 0 || root.last() == '/' {
        root + name
    } else {
        root + "/"@ + name
    }
}

/// The path of `name` under `root`.
pub fn join_path(root: &str, name: &str) -> (r: String)
    ensures
        r@ == path_under(root@, name@),
{
    if name.unicode_len() > 0 && name.get_char(0) == '/' {
        return name.to_owned();
    }
    let mut path = root.to_owned();
    let n: usize = root.unicode_len();
    if n > 0 && root.get_char(n - 1) != '/' {
        path.append("/");
    }
    path.append(name);
    path
}

/// Whether a part of a path stands for something: an empty part and `.` do
/// not.
pub open spec fn counts(part: Seq<char>) -> bool {
    part.len() > 0 && part != "."@
}

/// The position of the first slash from `from` on, or the end of the path.
pub open spec fn slash_from(path: Seq<char>, from: int) -> int
    decreases path.len() - from,
{
    if from < 0 || from >= path.len() || path[from] == '/' {
        from
    } else {
        slash_from(path, from + 1)
    }
}

/// The components of a path from position `from` on.
pub open spec fn components_from(path: Seq<char>, from: int) -> Seq<Seq<char>>
    decreases path.len() - from + 1,
    when 0 <= from
    via components_from_decreases
{
    if from >= path.len() {
        Seq::empty()
    } else {
        let end = slash_from(path, from);
        let part = path.subrange(from, end);
        (if counts(part) {
            seq![part]
        } else {
            Seq::empty()
        }) + components_from(path, end + 1)
    }
}

#[via_fn]
proof fn components_from_decreases(path: Seq<char>, from: int) {
    lemma_slash_from(path, from);
}

pub proof fn lemma_slash_from(path: Seq<char>, from: int)
    requires
        0 <= from,
    ensures
        from <= slash_from(path, from),
        from <= path.len() ==> slash_from(path, from) <= path.len(),
    decreases path.len() - from,
{
    if from < path.len() && path[from] != '/' {
        lemma_slash_from(path, from + 1);
    }
}

/// The components of a path that starts at the root of the file system.
pub open spec fn components(path: Seq<char>) -> Seq<Seq<char>> {
    components_from(path, 0)
}

/// Whether a path starts at the root of the file system.
pub open spec fn absolute(path: Seq<char>) -> bool {
    path.len() > 0 && path[0] == '/'
}

/// Whether a path is `root` or lies under it, component by component.
pub open spec fn inside(root: Seq<char>, path: Seq<char>) -> bool {
    absolute(root) == absolute(path) && components(root).is_prefix_of(components(path))
}

fn components_of(path: &str) -> (r: Vec<String>)
    ensures
        texts(r@) == components(path@),
{
    let chars = chars_of(path);
    let n: usize = chars.len();
    let mut found: Vec<String> = Vec::new();
    assert(texts(found@) =~= Seq::empty());
    let mut from: usize = 0;
    while from < n
        invariant
            n == chars@.len(),
            chars@ == path@,
            0 <= from <= n + 1,
            texts(found@) + components_from(path@, from as int) == components(path@),
        decreases n + 1 - from,
    {
        let mut end: usize = from;
        while end < n && chars[end] != '/'
            invariant
                from <= end <= n == chars@.len(),
                chars@ == path@,
                slash_from(path@, end as int) == slash_from(path@, from as int),
            decreases n - end,
        {
            end = end + 1;
        }
        assert(end == slash_from(path@, from as int));
        let part = text_of(&chars, from, end);
        let ghost before = texts(found@);
        if end > from && !same_text(part.as_str(), ".") {
            found.push(part);
            assert(texts(found@) =~= before.push(part@));
            assert(before.push(part@) + components_from(path@, end + 1) =~= before + (seq![part@]
                + components_from(path@, end + 1)));
        } else {
            assert(before + (Seq::<Seq<char>>::empty() + components_from(path@, end + 1))
                =~= before + components_from(path@, end + 1));
        }
        if end == n {
            proof {
                assert(components_from(path@, end + 1) =~= Seq::empty());
                assert(texts(found@) + Seq::<Seq<char>>::empty() =~= texts(found@));
            }
            return found;
        }
        from = end + 1;
    }
    assert(components_from(path@, from as int) =~= Seq::empty());
    assert(texts(found@) + Seq::<Seq<char>>::empty() =~= texts(found@));
    found
}

/// Whether a path starts at the root of the file system.
fn is_absolute(path: &str) -> (r: bool)
    ensures
        r == absolute(path@),
{
    path.unicode_len() > 0 && path.get_char(0) == '/'
}

/// Whether a path is `root` or lies under it.
pub fn lies_inside(root: &str, path: &str) -> (r: bool)
    ensures
        r == inside(root@, path@),
{
    if is_absolute(root) != is_absolute(path) {
        return false;
    }
    let outer = components_of(root);
    let inner = components_of(path);
    let ghost a = texts(outer@);
    let ghost b = texts(inner@);
    if outer.len() > inner.len() {
        return false;
    }
    let mut i: usize = 0;
    while i < outer.len()
        invariant
            i <= outer@.len() <= inner@.len(),
            a == texts(outer@),
            b == texts(inner@),
            a == components(root@),
            b == components(path@),
            forall|k: int| 0 <= k < i ==> #[trigger] a[k] == b[k],
        decreases outer@.len() - i,
    {
        if !same_text(outer[i].as_str(), inner[i].as_str()) {
            assert(a[i as int] != b[i as int]);
            assert(!a.is_prefix_of(b)) by {
                if a.is_prefix_of(b) {
                    assert(b.take(a.len() as int)[i as int] == b[i as int]);
                }
            }
            return false;
        }
        assert(a[i as int] == b[i as int]);
        i = i + 1;
    }
    assert(a =~= b.take(a.len() as int));
    true
}

/// What a call is told whose path leads out of the root.
pub open spec fn outside_root(requested: Seq<char>) -> ToolErrorView {
    ToolErrorView::Execution("path `"@ + requested + "` is outside the project root"@)
}

/// The path that a call is kept to, or what it is told.
pub open spec fn confined(
    root: Seq<char>,
    resolved: Seq<char>,
    requested: Seq<char>,
) -> Result<Seq<char>, ToolErrorView> {
    if inside(root, resolved) {
        Ok(resolved)
    } else {
        Err(outside_root(requested))
    }
}

/// Keep a call inside the root: the path that `requested` leads to, if that
/// lies inside the root. Both `root` and `resolved` are canonical, that is, as
/// they are when `..` and links are resolved.
pub fn confine_to_root(root: &str, resolved: &str, requested: &str) -> (r: Result<
    String,
    ToolError,
>)
    ensures
        tool_result(r) == if inside(root@, resolved@) {
            Ok(resolved@)
        } else {
            Err(outside_root(requested@))
        },
        tool_result(r) == confined(root@, resolved@, requested@),
{
    if lies_inside(root, resolved) {
        Ok(resolved.to_owned())
    } else {
        let mut message = "path `".to_owned();
        message.append(requested);
        message.append("` is outside the project root");
        Err(ToolError::Execution(message))
    }
}

/// What lies inside a root that lies inside another lies inside that one too.
pub proof fn lemma_inside_of_inside(outer: Seq<char>, root: Seq<char>, path: Seq<char>)
    requires
        inside(outer, root),
        inside(root, path),
    ensures
        inside(outer, path),
{
    let a = components(outer);
    let b = components(root);
    let c = components(path);
    assert(a =~= c.take(a.len() as int)) by {
        assert(b == c.take(b.len() as int));
        assert(a == b.take(a.len() as int));
    }
}

// ---------------------------------------------------------------------------
// The tools
// ---------------------------------------------------------------------------
/// Reads a text file inside the root of the project.
pub struct ReadFile {
    pub root: String,
}

impl ReadFile {
    /// A tool that reads files inside this root.
    pub fn new(root: &str) -> (r: Self)
        ensures
            r.root@ == root@,
    {
        Self { root: root.to_owned() }
    }

    /// The name of the tool.
    pub fn name(&self) -> (r: &'static str)
        ensures
            r@ == "read_file"@,
            r@ == catalogue()[4].0,
    {
        "read_file"
    }

    /// What the tool does, in words.
    pub fn description(&self) -> (r: &'static str)
        ensures
            r@
                == "Reads the UTF-8 text file at `path` (relative to the project root) and returns its contents."@,
            r@ == catalogue()[4].1,
    {
        "Reads the UTF-8 text file at `path` (relative to the project root) and returns its contents."
    }

    /// The path that a call asks for.
    pub fn requested(&self, args: &Data) -> (r: Result<String, ToolError>)
        ensures
            tool_result(r) == text_argument("struct ReadFileArgs", args@, "path"@),
    {
        read_text_argument("struct ReadFileArgs", args, "path")
    }
}

/// The listing of a directory with these entries.
pub open spec fn listed(names: Seq<Seq<char>>) -> Seq<char> {
    joined(sorted_names(names), "\n"@)
}

/// Lists a directory inside the root of the project.
pub struct ListDir {
    pub root: String,
}

impl ListDir {
    /// A tool that lists directories inside this root.
    pub fn new(root: &str) -> (r: Self)
        ensures
            r.root@ == root@,
    {
        Self { root: root.to_owned() }
    }

    /// The name of the tool.
    pub fn name(&self) -> (r: &'static str)
        ensures
            r@ == "list_dir"@,
            r@ == catalogue()[5].0,
    {
        "list_dir"
    }

    /// What the tool does, in words.
    pub fn description(&self) -> (r: &'static str)
        ensures
            r@
                == "Lists the entries of the directory at `path` (relative to the project root), one per line, sorted."@,
            r@ == catalogue()[5].1,
    {
        "Lists the entries of the directory at `path` (relative to the project root), one per line, sorted."
    }

    /// The path that a call asks for.
    pub fn requested(&self, args: &Data) -> (r: Result<String, ToolError>)
        ensures
            tool_result(r) == text_argument("struct ListDirArgs", args@, "path"@),
    {
        read_text_argument("struct ListDirArgs", args, "path")
    }

    /// The listing of a directory with these entries, in whatever order they
    /// were found.
    pub fn listing(&self, names: Vec<String>) -> (r: String)
        ensures
            r@ == joined(sorted_names(texts(names@)), "\n"@),
            r@ == listed(texts(names@)),
    {
        join(&sort_names(names), "\n")
    }
}

} // verus!
