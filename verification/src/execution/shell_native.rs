//! The decisions of the native filesystem builtins (`dir-chan`, `walk-chan`,
//! `stat`): how an entry is described, how arguments are read, in which order
//! a directory is listed and walked.  Reading the filesystem and delivering on
//! channels is left to the caller.
use vstd::prelude::*;
use vstd::string::*;
use crate::text::utf8;

verus! {

/// `n` stands somewhere in `p`, as a run of consecutive characters.
pub open spec fn is_piece(n: Seq<char>, p: Seq<char>) -> bool {
    exists|i: int| 0 <= i && i + n.len() <= p.len() && #[trigger] p.subrange(i, i + n.len()) == n
}

/// `Path::new(path).file_name()`, as text: the final component of the path,
/// `None` when it ends in `..` or is a root.  A component is a non-empty
/// piece of the path itself; which pieces count as components follows the
/// platform's path rules, which are not stated here.
#[verifier::external_body]
fn file_name_of(path: &str) -> (r: Option<String>)
    ensures
        r matches Some(n) ==> n@.len() > 0 && is_piece(n@, path@),
{
    std::path::Path::new(path).file_name().map(|n| n.to_string_lossy().into_owned())
}

/// The name under which an entry is listed, given what the platform reads as
/// the path's final component: that component, or the whole path when it has
/// none.
pub fn entry_name_from(path: &str, file_name: Option<String>) -> (r: String)
    ensures
        r@ == match file_name {
            Some(n) => n@,
            None => path@,
        },
{
    match file_name {
        Some(n) => n,
        None => path.to_owned(),
    }
}

/// The name under which an entry is listed: the final component of its
/// path (a non-empty piece of it), or the whole path when it has none.
pub fn entry_name(path: &str) -> (r: String)
    ensures
        r@ == path@ || (r@.len() > 0 && is_piece(r@, path@)),
{
    entry_name_from(path, file_name_of(path))
}


/// Namespace the builtins are interned into.
pub const NS: &'static str = "mnemosyne.shell.native";

/// Backpressure buffer of a streaming channel when the caller names none.
pub const DEFAULT_STREAM_CAP: usize = 8;

/// What kind of entry a path names; symlinks are never followed.
#[derive(Debug, Clone, Copy, PartialEq, Eq, Structural)]
pub enum EntryKind {
    File,
    Dir,
    Symlink,
    Other,
}

/// The kind reported for a file type, given its three tests: a symlink
/// first, then a directory, then a regular file.
pub open spec fn kind_of(is_symlink: bool, is_dir: bool, is_file: bool) -> EntryKind {
    if is_symlink {
        EntryKind::Symlink
    } else if is_dir {
        EntryKind::Dir
    } else if is_file {
        EntryKind::File
    } else {
        EntryKind::Other
    }
}

/// The keyword name of a kind.
pub open spec fn keyword_of(k: EntryKind) -> Seq<char> {
    match k {
        EntryKind::File => "file"@,
        EntryKind::Dir => "dir"@,
        EntryKind::Symlink => "symlink"@,
        EntryKind::Other => "other"@,
    }
}

impl EntryKind {
    /// The keyword name under which the kind is reported (`:file`, `:dir`,
    /// `:symlink`, `:other`).
    pub fn keyword(&self) -> (s: &'static str)
        ensures
            s@ == keyword_of(*self),
    {
        match self {
            EntryKind::File => "file",
            EntryKind::Dir => "dir",
            EntryKind::Symlink => "symlink",
            EntryKind::Other => "other",
        }
    }
}

/// The kind of an entry from the tests of its file type.
pub fn type_keyword(is_symlink: bool, is_dir: bool, is_file: bool) -> (k: EntryKind)
    ensures
        k == kind_of(is_symlink, is_dir, is_file),
{
    if is_symlink {
        EntryKind::Symlink
    } else if is_dir {
        EntryKind::Dir
    } else if is_file {
        EntryKind::File
    } else {
        EntryKind::Other
    }
}

/// One entry as the builtins deliver it: `{:path :name :type}`, and
/// `:depth` for the entries of a walk.
#[derive(Debug, Clone)]
pub struct ShellEntry {
    pub path: String,
    pub name: String,
    pub kind: EntryKind,
    pub depth: Option<i64>,
}

/// The entry for `path`, of kind `kind`, at `depth` when given.  Its name is
/// [`entry_name`] of the path.
pub fn entry_value(path: &str, kind: EntryKind, depth: Option<i64>) -> (e: ShellEntry)
    ensures
        e.path@ == path@,
        e.name@ == path@ || (e.name@.len() > 0 && is_piece(e.name@, path@)),
        e.kind == kind,
        e.depth == depth,
{
    ShellEntry { path: path.to_owned(), name: entry_name(path), kind, depth }
}

/// What the builtins read of an argument value: its shape, and the type name
/// that an error reports.
#[derive(Debug, Clone)]
pub enum ArgData {
    Nil,
    Str(String),
    Long(i64),
    Other,
}

/// A builtin's argument.
#[derive(Debug, Clone)]
pub struct ArgValue {
    pub data: ArgData,
    pub type_label: String,
}

/// An argument of the wrong type: what was expected, and the type name of
/// what came (empty when the argument is missing).
#[derive(Debug, Clone)]
pub struct WrongType {
    pub expected: String,
    pub got: String,
}

/// The type name reported for argument `idx`: its own, or empty when there
/// is none.
pub open spec fn got_name(args: Seq<ArgValue>, idx: int) -> Seq<char> {
    if 0 <= idx < args.len() {
        args[idx].type_label@
    } else {
        Seq::empty()
    }
}

/// Argument `idx` as a string.
pub fn str_arg(args: &[ArgValue], idx: usize, expected: &str) -> (r: Result<String, WrongType>)
    ensures
        r is Ok <==> (idx < args@.len() && args@[idx as int].data is Str),
        r matches Ok(s) ==> (args@[idx as int].data matches ArgData::Str(t) && s@ == t@),
        r matches Err(e) ==> e.expected@ == expected@ && e.got@ == got_name(args@, idx as int),
{
    if idx < args.len() {
        match &args[idx].data {
            ArgData::Str(s) => {
                return Ok(s.clone());
            },
            _ => {
                return Err(WrongType { expected: expected.to_owned(), got: args[idx].type_label.clone() });
            },
        }
    }
    Err(WrongType { expected: expected.to_owned(), got: String::new() })
}

/// A count read from a non-negative long: at least one.
pub open spec fn size_from(n: i64) -> usize {
    if (n as usize) == 0 {
        1
    } else {
        n as usize
    }
}

/// The size that an argument gives when it is a non-negative long.
pub open spec fn long_size(d: ArgData) -> Option<usize> {
    match d {
        ArgData::Long(n) => if n >= 0 {
            Some(size_from(n))
        } else {
            None
        },
        _ => None,
    }
}

/// Argument `idx` as a size: `default` when it is missing or nil, at least
/// one when it is a non-negative long, an error otherwise.
pub fn size_arg_or(args: &[ArgValue], idx: usize, default: usize) -> (r: Result<usize, WrongType>)
    ensures
        (idx >= args@.len() || args@[idx as int].data is Nil) ==> r == Ok::<usize, WrongType>(default),
        (idx < args@.len() && long_size(args@[idx as int].data) is Some) ==> r == Ok::<
            usize,
            WrongType,
        >(long_size(args@[idx as int].data)->0),
        r is Err <==> (idx < args@.len() && !(args@[idx as int].data is Nil) && long_size(
            args@[idx as int].data,
        ) is None),
        r matches Err(e) ==> e.expected@ == "non-negative long"@ && e.got@ == args@[
            idx as int
        ].type_label@,
{
    if idx >= args.len() {
        return Ok(default);
    }
    match &args[idx].data {
        ArgData::Nil => Ok(default),
        ArgData::Long(n) if *n >= 0 => {
            let v: usize = *n as usize;
            if v == 0 {
                Ok(1)
            } else {
                Ok(v)
            }
        },
        _ => Err(WrongType { expected: "non-negative long".to_owned(), got: args[idx].type_label.clone() }),
    }
}

/// One entry of a directory listing.
#[derive(Debug, Clone)]
pub struct Listed {
    pub path: String,
    pub name: String,
    pub kind: EntryKind,
}

/// `a` comes no later than `b` in byte order, comparing from position `i` on.
pub open spec fn bytes_le_from(a: Seq<u8>, b: Seq<u8>, i: int) -> bool
    decreases a.len() - i,
{
    if i < 0 || i >= a.len() {
        true
    } else if i >= b.len() {
        false
    } else if a[i] != b[i] {
        a[i] < b[i]
    } else {
        bytes_le_from(a, b, i + 1)
    }
}

/// `a` comes no later than `b` in byte order (a prefix comes first).
pub open spec fn bytes_le(a: Seq<u8>, b: Seq<u8>) -> bool {
    bytes_le_from(a, b, 0)
}

/// The bytes by which a listed entry is ordered: those of its name.
pub open spec fn name_bytes(e: Listed) -> Seq<u8> {
    utf8(e.name@)
}

/// The entries are in byte order of their names.
pub open spec fn sorted_by_name(s: Seq<Listed>) -> bool {
    forall|i: int, j: int|
        0 <= i < j < s.len() ==> bytes_le(#[trigger] name_bytes(s[i]), #[trigger] name_bytes(s[j]))
}

/// Byte order is total.
pub proof fn lemma_bytes_le_total(a: Seq<u8>, b: Seq<u8>, i: int)
    requires
        0 <= i,
    ensures
        bytes_le_from(a, b, i) || bytes_le_from(b, a, i),
    decreases a.len() - i,
{
    if i < a.len() && i < b.len() && a[i] == b[i] {
        lemma_bytes_le_total(a, b, i + 1);
    }
}

/// Byte order is transitive.
pub proof fn lemma_bytes_le_trans(a: Seq<u8>, b: Seq<u8>, c: Seq<u8>, i: int)
    requires
        0 <= i,
        bytes_le_from(a, b, i),
        bytes_le_from(b, c, i),
    ensures
        bytes_le_from(a, c, i),
    decreases a.len() - i,
{
    if i < a.len() && a[i] == b[i] && b[i] == c[i] {
        lemma_bytes_le_trans(a, b, c, i + 1);
    }
}

/// Whether `a` comes no later than `b` in byte order.
fn name_le(a: &str, b: &str) -> (r: bool)
    ensures
        r == bytes_le(utf8(a@), utf8(b@)),
{
    let x = a.as_bytes();
    let y = b.as_bytes();
    let mut i: usize = 0;
    while i < x.len()
        invariant
            i <= x@.len(),
            x@ == utf8(a@),
            y@ == utf8(b@),
            bytes_le_from(x@, y@, 0) == bytes_le_from(x@, y@, i as int),
        decreases x.len() - i,
    {
        if i >= y.len() {
            return false;
        }
        if x[i] != y[i] {
            return x[i] < y[i];
        }
        i = i + 1;
    }
    true
}

/// The entries of a directory in byte order of their names, as a listing
/// gives them; entries of equal name keep their order.
pub fn sort_by_name(entries: Vec<Listed>) -> (r: Vec<Listed>)
    ensures
        sorted_by_name(r@),
        r@.to_multiset() == entries@.to_multiset(),
{
    broadcast use vstd::seq_lib::group_to_multiset_ensures;

    let mut rest = entries;
    let mut out: Vec<Listed> = Vec::new();
    while rest.len() > 0
        invariant
            sorted_by_name(out@),
            out@.to_multiset().add(rest@.to_multiset()) == entries@.to_multiset(),
        decreases rest.len(),
    {
        let ghost rest_before = rest@;
        let e = rest.pop().unwrap();
        proof {
            assert(rest_before =~= rest@.push(e));
        }
        let mut p: usize = 0;
        while p < out.len() && !name_le(e.name.as_str(), out[p].name.as_str())
            invariant
                p <= out@.len(),
                forall|j: int| 0 <= j < p ==> bytes_le(#[trigger] name_bytes(out@[j]), name_bytes(e)),
            decreases out.len() - p,
        {
            proof {
                lemma_bytes_le_total(name_bytes(out@[p as int]), name_bytes(e), 0);
            }
            p = p + 1;
        }
        let ghost old_out = out@;
        out.insert(p, e);
        proof {
            assert forall|i: int, j: int| 0 <= i < j < out@.len() implies bytes_le(
                #[trigger] name_bytes(out@[i]),
                #[trigger] name_bytes(out@[j]),
            ) by {
                if j < p {
                } else if j == p {
                } else if i < p {
                    lemma_bytes_le_trans(
                        name_bytes(out@[i]),
                        name_bytes(e),
                        name_bytes(old_out[p as int]),
                        0,
                    );
                    if j - 1 > p {
                        lemma_bytes_le_trans(
                            name_bytes(out@[i]),
                            name_bytes(old_out[p as int]),
                            name_bytes(out@[j]),
                            0,
                        );
                    }
                } else if i == p {
                    if j - 1 > p {
                        lemma_bytes_le_trans(
                            name_bytes(e),
                            name_bytes(old_out[p as int]),
                            name_bytes(out@[j]),
                            0,
                        );
                    }
                } else {
                }
            }
            vstd::seq_lib::to_multiset_insert(old_out, p as int, e);
            vstd::seq_lib::to_multiset_build(rest@, e);
            assert(out@.to_multiset().add(rest@.to_multiset()) =~= old_out.to_multiset().add(
                rest_before.to_multiset(),
            ));
        }
    }
    proof {
        assert(rest@.to_multiset() =~= vstd::multiset::Multiset::empty());
        assert(out@.to_multiset().add(vstd::multiset::Multiset::empty()) =~= out@.to_multiset());
    }
    out
}

/// An entry waiting to be delivered by a walk.
#[derive(Debug, Clone)]
pub struct WalkItem {
    pub path: String,
    pub kind: EntryKind,
    pub depth: i64,
}

/// A walk item as mathematical values.
pub struct ItemView {
    pub path: Seq<char>,
    pub kind: EntryKind,
    pub depth: int,
}

pub open spec fn item_view(it: WalkItem) -> ItemView {
    ItemView { path: it.path@, kind: it.kind, depth: it.depth as int }
}

/// The listed entries as walk items at `depth`, in listing order.
pub open spec fn child_views(children: Seq<Listed>, depth: int) -> Seq<ItemView> {
    Seq::new(
        children.len(),
        |i: int| ItemView { path: children[i].path@, kind: children[i].kind, depth: depth },
    )
}

/// The items of a stack in the order in which they come off it.
pub open spec fn pending(stack: Seq<WalkItem>) -> Seq<ItemView> {
    Seq::new(stack.len(), |i: int| item_view(stack[stack.len() - 1 - i]))
}

/// A depth-first walk under a root: an explicit stack of the entries still
/// to deliver.  Its view lists them in the order in which they come out.
pub struct Walk {
    stack: Vec<WalkItem>,
}

impl View for Walk {
    type V = Seq<ItemView>;

    closed spec fn view(&self) -> Seq<ItemView> {
        pending(self.stack@)
    }
}

impl Walk {
    /// A walk that starts with the root itself, at depth zero.
    pub fn new(root: &str, kind: EntryKind) -> (w: Walk)
        ensures
            w@ == seq![ItemView { path: root@, kind: kind, depth: 0 }],
    {
        let mut stack: Vec<WalkItem> = Vec::new();
        stack.push(WalkItem { path: root.to_owned(), kind, depth: 0 });
        let w = Walk { stack };
        assert(w@ =~= seq![ItemView { path: root@, kind: kind, depth: 0 }]);
        w
    }

    /// The next entry to deliver, taken off the walk; `None` once the walk
    /// is over.
    pub fn next(&mut self) -> (r: Option<WalkItem>)
        ensures
            old(self)@.len() == 0 ==> r is None && final(self)@ == old(self)@,
            old(self)@.len() > 0 ==> (r matches Some(it) && item_view(it) == old(self)@[0])
                && final(self)@ == old(self)@.drop_first(),
    {
        let ghost before = self.stack@;
        let r = self.stack.pop();
        proof {
            if before.len() > 0 {
                assert(pending(self.stack@) =~= pending(before).drop_first());
            }
        }
        r
    }

    /// Queue the listing of a directory at `parent_depth`, so that its
    /// entries come out next, in listing order, one level deeper.
    pub fn descend(&mut self, parent_depth: i64, children: Vec<Listed>)
        requires
            parent_depth < i64::MAX,
        ensures
            final(self)@ == child_views(children@, parent_depth + 1) + old(self)@,
    {
        let depth = parent_depth + 1;
        let ghost all = children@;
        let ghost base = self.stack@;
        let mut rest = children;
        while rest.len() > 0
            invariant
                depth == parent_depth + 1,
                rest@.len() <= all.len(),
                rest@ == all.subrange(0, rest@.len() as int),
                pending(self.stack@) == child_views(
                    all.subrange(rest@.len() as int, all.len() as int),
                    depth as int,
                ) + pending(base),
            decreases rest.len(),
        {
            let ghost stack_before = self.stack@;
            let ghost m = rest@.len();
            let ghost rest_before = rest@;
            let c = rest.pop().unwrap();
            self.stack.push(WalkItem { path: c.path, kind: c.kind, depth });
            proof {
                assert(c == rest_before[m - 1]);
                assert(c == all[m - 1]);
                assert(rest@ =~= all.subrange(0, rest@.len() as int));
                let v = ItemView { path: c.path@, kind: c.kind, depth: depth as int };
                let tail = child_views(all.subrange(m as int, all.len() as int), depth as int);
                assert(pending(self.stack@) =~= seq![v] + pending(stack_before));
                assert(child_views(all.subrange(m - 1, all.len() as int), depth as int) =~= seq![v]
                    + tail);
                assert(pending(stack_before) == tail + pending(base));
                assert(seq![v] + (tail + pending(base)) =~= (seq![v] + tail) + pending(base));
            }
        }
        proof {
            assert(all.subrange(0, all.len() as int) =~= all);
        }
    }
}

/// Whether a walk goes below an entry: only into directories, so that
/// symlinks are reported but never followed.
pub fn descends_into(kind: EntryKind) -> (b: bool)
    ensures
        b == (kind == EntryKind::Dir),
{
    match kind {
        EntryKind::Dir => true,
        _ => false,
    }
}

/// A walk delivers a directory's entries right after the directory itself:
/// once the directory has come out and its listing, sorted by name, has been
/// queued, the next items are its entries in byte order of their names, one
/// level deeper, and after them comes what was pending before.
pub proof fn law_walk_lists_children_next(before: Seq<ItemView>, children: Seq<Listed>)
    requires
        before.len() > 0,
        sorted_by_name(children),
    ensures
        ({
            let rest = before.drop_first();
            let after = child_views(children, before[0].depth + 1) + rest;
            &&& forall|i: int|
                0 <= i < children.len() ==> (#[trigger] after[i]).path == children[i].path@
                    && after[i].kind == children[i].kind && after[i].depth == before[0].depth + 1
            &&& forall|i: int, j: int|
                0 <= i < j < children.len() ==> bytes_le(
                    #[trigger] name_bytes(children[i]),
                    #[trigger] name_bytes(children[j]),
                )
            &&& after.subrange(children.len() as int, after.len() as int) == rest
        }),
{
    let rest = before.drop_first();
    let after = child_views(children, before[0].depth + 1) + rest;
    assert(after.subrange(children.len() as int, after.len() as int) =~= rest);
}

/// What `stat` delivers: `{:path :name :type :size :readonly}`, and
/// `:modified` (milliseconds since the epoch) when the platform reports it.
#[derive(Debug, Clone)]
pub struct StatEntry {
    pub path: String,
    pub name: String,
    pub kind: EntryKind,
    pub size: i64,
    pub readonly: bool,
    pub modified: Option<i64>,
}

/// The `stat` entry of `path` from its metadata: its kind, its length in
/// bytes, whether it is read-only, and its modification time in milliseconds
/// when known.  Numbers are reported as longs.
pub fn stat_value(
    path: &str,
    kind: EntryKind,
    len: u64,
    readonly: bool,
    modified_millis: Option<u128>,
) -> (e: StatEntry)
    ensures
        e.path@ == path@,
        e.name@ == path@ || (e.name@.len() > 0 && is_piece(e.name@, path@)),
        e.kind == kind,
        e.size == len as i64,
        e.readonly == readonly,
        e.modified == match modified_millis {
            Some(m) => Some(m as i64),
            None => None::<i64>,
        },
{
    let modified = match modified_millis {
        Some(m) => Some(m as i64),
        None => None,
    };
    StatEntry {
        path: path.to_owned(),
        name: entry_name(path),
        kind,
        size: len as i64,
        readonly,
        modified,
    }
}

/// The in-band error text when a directory cannot be listed.
pub fn listing_failed(path: &str, reason: &str) -> (s: String)
    ensures
        s@ == "cannot list "@ + path@ + ": "@ + reason@,
{
    let mut out = String::new();
    out.append("cannot list ");
    out.append(path);
    out.append(": ");
    out.append(reason);
    out
}

/// The in-band error text when an entry's metadata cannot be read.
pub fn stat_failed(path: &str, reason: &str) -> (s: String)
    ensures
        s@ == "cannot stat "@ + path@ + ": "@ + reason@,
{
    let mut out = String::new();
    out.append("cannot stat ");
    out.append(path);
    out.append(": ");
    out.append(reason);
    out
}

} // verus!
