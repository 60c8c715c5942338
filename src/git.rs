//! Locating the control directories above a working directory, and what
//! the nearest of them shows.
use crate::stat::{label_spec, stat_spec, ControlDir, Stat, StatView};
use crate::text::{
    contains, contains_spec, join_path, join_spec, push_str, remove_all, remove_all_spec,
    strip_prefix, trim, trim_end_spec, trim_spec, trim_start_spec,
};
use crate::utility::{conditional, EnchantError, Failure, MarkerFile};
use vstd::prelude::*;
use vstd::string::StrSliceExecFns;

verus! {

/// What stands at `<ancestor>/.git`.
#[derive(Debug)]
pub enum Marker {
    /// Nothing.
    Absent,
    /// A directory.
    Directory,
    /// A regular file, with its text.
    File(String),
}

/// One directory on the way from the working directory up to the root.
#[derive(Debug)]
pub struct Ancestor {
    pub path: String,
    pub marker: Marker,
}

/// The text that starts an indirection file.
pub open spec fn gitdir_prefix() -> Seq<char> {
    "gitdir: "@
}

/// What one ancestor adds to the chain: nothing, a control directory, or a
/// failure.
pub open spec fn entry_spec(a: Ancestor) -> Option<Result<Seq<char>, Failure>> {
    match a.marker {
        Marker::Absent => None,
        Marker::Directory => Some(Ok(join_spec(a.path@, ".git"@))),
        Marker::File(c) => {
            let t = trim_spec(c@);
            if gitdir_prefix().is_prefix_of(t) {
                Some(Ok(join_spec(a.path@, t.subrange(gitdir_prefix().len() as int, t.len() as int))))
            } else {
                Some(Err(Failure::MalformedIndirection(join_spec(a.path@, ".git"@))))
            }
        },
    }
}

/// The chain of control directories of `anc` (nearest first), or the first
/// failure met on the way up.
pub open spec fn locate_spec(anc: Seq<Ancestor>) -> Result<Seq<Seq<char>>, Failure>
    decreases anc.len(),
{
    if anc.len() == 0 {
        Ok(Seq::empty())
    } else {
        match locate_spec(anc.drop_last()) {
            Err(e) => Err(e),
            Ok(c) => match entry_spec(anc.last()) {
                None => Ok(c),
                Some(Err(e)) => Err(e),
                Some(Ok(p)) => Ok(c.push(p)),
            },
        }
    }
}

/// A failure met among the nearest `i` ancestors is the failure of the walk.
proof fn lemma_failure_persists(anc: Seq<Ancestor>, i: int)
    requires
        0 <= i <= anc.len(),
        locate_spec(anc.take(i)) is Err,
    ensures
        locate_spec(anc) == locate_spec(anc.take(i)),
    decreases anc.len() - i,
{
    if i < anc.len() {
        assert(anc.take(i + 1).drop_last() =~= anc.take(i));
        lemma_failure_persists(anc, i + 1);
    } else {
        assert(anc.take(i) =~= anc);
    }
}

/// The reference text that a branch `HEAD` holds.
pub open spec fn refs_prefix() -> Seq<char> {
    "ref: refs/heads/"@
}

/// A `HEAD` text is long enough to show a commit: at least eight
/// characters.
pub open spec fn commit_shown(c: Seq<char>) -> bool {
    c.len() >= 8
}

/// The branch that a `HEAD` file shows: empty where it is absent, the
/// reference with `ref: refs/heads/` removed, or `HEAD-` and the start of a
/// commit hash.
pub open spec fn branch_spec(head: MarkerFile) -> Result<Seq<char>, Failure> {
    match head.contents {
        None => Ok(Seq::empty()),
        Some(c) => if contains_spec(c@, refs_prefix()) {
            Ok(remove_all_spec(trim_spec(c@), refs_prefix()))
        } else if commit_shown(c@) {
            Ok("HEAD-"@ + c@.subrange(0, 8))
        } else {
            Err(Failure::MalformedHead(head.path@))
        },
    }
}

/// The pieces of the prompt fragment, each styled by its role; the fragment
/// is `[`, the pieces in field order, and `]`.
#[derive(Debug)]
pub struct Portion {
    pub submodule: String,
    pub submodule_sep: String,
    pub branch: String,
    pub operation_sep: String,
    pub operation: String,
    pub ratio: String,
}

pub struct PortionView {
    pub submodule: Seq<char>,
    pub submodule_sep: Seq<char>,
    pub branch: Seq<char>,
    pub operation_sep: Seq<char>,
    pub operation: Seq<char>,
    pub ratio: Seq<char>,
}

impl View for Portion {
    type V = PortionView;

    open spec fn view(&self) -> PortionView {
        PortionView {
            submodule: self.submodule@,
            submodule_sep: self.submodule_sep@,
            branch: self.branch@,
            operation_sep: self.operation_sep@,
            operation: self.operation@,
            ratio: self.ratio@,
        }
    }
}

/// The pieces shown for a branch and a state, inside a submodule or not.
pub open spec fn portion_spec(in_submodule: bool, branch: Seq<char>, st: StatView) -> PortionView {
    PortionView {
        submodule: if in_submodule { "SUBMODULE"@ } else { Seq::empty() },
        submodule_sep: if in_submodule { " | "@ } else { Seq::empty() },
        branch: branch,
        operation_sep: if st.operation is Some { " | "@ } else { Seq::empty() },
        operation: match st.operation {
            Some(op) => label_spec(op),
            None => Seq::empty(),
        },
        ratio: st.ratio,
    }
}

/// The fragment without styling.
pub open spec fn plain_spec(p: PortionView) -> Seq<char> {
    seq!['['] + p.submodule + p.submodule_sep + p.branch + p.operation_sep + p.operation + p.ratio
        + seq![']']
}

impl Portion {
    /// The fragment without styling, brackets included.
    pub fn plain(&self) -> (r: String)
        ensures
            r@ == plain_spec(self@),
    {
        proof {
            reveal_strlit("[");
            reveal_strlit("]");
        }
        let mut r = "[".to_owned();
        push_str(&mut r, self.submodule.as_str());
        push_str(&mut r, self.submodule_sep.as_str());
        push_str(&mut r, self.branch.as_str());
        push_str(&mut r, self.operation_sep.as_str());
        push_str(&mut r, self.operation.as_str());
        push_str(&mut r, self.ratio.as_str());
        push_str(&mut r, "]");
        assert(r@ =~= plain_spec(self@));
        r
    }
}

/// The control directories above a working directory, nearest first.
#[derive(Debug)]
pub struct Git {
    root: Vec<String>,
}

impl View for Git {
    type V = Seq<Seq<char>>;

    closed spec fn view(&self) -> Seq<Seq<char>> {
        self.root@.map_values(|s: String| s@)
    }
}

/// The control directory that `.git` at `a` names.
fn entry(a: &Ancestor) -> (r: Option<Result<String, EnchantError>>)
    ensures
        match entry_spec(*a) {
            None => r is None,
            Some(Ok(p)) => r matches Some(Ok(s)) && s@ == p,
            Some(Err(e)) => r matches Some(Err(x)) && x@ == e,
        },
{
    match &a.marker {
        Marker::Absent => None,
        Marker::Directory => Some(Ok(join_path(a.path.as_str(), ".git"))),
        Marker::File(c) => {
            let t = trim(c.as_str());
            match strip_prefix(t, "gitdir: ") {
                Some(rest) => Some(Ok(join_path(a.path.as_str(), rest))),
                None => Some(Err(EnchantError::MalformedIndirection(join_path(a.path.as_str(), ".git")))),
            }
        },
    }
}

impl Git {
    /// Walks the ancestors, nearest first, and records every control
    /// directory met; an indirection file is resolved against its ancestor.
    pub fn get(ancestors: &Vec<Ancestor>) -> (r: Result<Git, EnchantError>)
        ensures
            match locate_spec(ancestors@) {
                Ok(c) => r matches Ok(g) && g@ == c,
                Err(e) => r matches Err(x) && x@ == e,
            },
    {
        let mut root: Vec<String> = Vec::new();
        let n = ancestors.len();
        assert(ancestors@.take(0) =~= Seq::<Ancestor>::empty());
        assert(root@.map_values(|s: String| s@) =~= Seq::<Seq<char>>::empty());
        for i in 0..n
            invariant
                n == ancestors@.len(),
                locate_spec(ancestors@.take(i as int)) == Ok::<Seq<Seq<char>>, Failure>(root@.map_values(|s: String| s@)),
        {
            let ghost prev = root@;
            proof {
                assert(ancestors@.take(i + 1).drop_last() =~= ancestors@.take(i as int));
            }
            match entry(&ancestors[i]) {
                None => {},
                Some(Ok(p)) => {
                    root.push(p);
                    assert(root@.map_values(|s: String| s@) =~= prev.map_values(|s: String| s@).push(p@));
                },
                Some(Err(e)) => {
                    proof {
                        lemma_failure_persists(ancestors@, i + 1);
                        assert(ancestors@.take(n as int) =~= ancestors@);
                    }
                    return Err(e);
                },
            }
        }
        assert(ancestors@.take(n as int) =~= ancestors@);
        Ok(Git { root })
    }

    /// The control directories, nearest first.
    pub fn chain(&self) -> (r: &Vec<String>)
        ensures
            r@.map_values(|s: String| s@) == self@,
    {
        &self.root
    }

    /// The nearest control directory, if any.
    fn root(&self) -> (r: Option<&String>)
        ensures
            r is None <==> self@.len() == 0,
            r matches Some(p) ==> p@ == self@[0],
    {
        self.root.first()
    }

    /// The branch shown for the nearest control directory, from its `HEAD`;
    /// empty where there is no control directory or no `HEAD`.
    pub fn branch(&self, head: &MarkerFile) -> (r: Result<String, EnchantError>)
        ensures
            self@.len() == 0 ==> (r matches Ok(s) && s@ == Seq::<char>::empty()),
            self@.len() > 0 ==> match branch_spec(*head) {
                Ok(b) => r matches Ok(s) && s@ == b,
                Err(e) => r matches Err(x) && x@ == e,
            },
    {
        if self.root().is_none() {
            return Ok(String::new());
        }
        match &head.contents {
            None => Ok(String::new()),
            Some(contents) => {
                let c = contents.as_str();
                if contains(c, "ref: refs/heads/") {
                    proof {
                        reveal_strlit("ref: refs/heads/");
                    }
                    Ok(remove_all(trim(c), "ref: refs/heads/"))
                } else if c.unicode_len() >= 8 {
                    let mut s = "HEAD-".to_owned();
                    push_str(&mut s, c.substring_char(0, 8));
                    Ok(s)
                } else {
                    Err(EnchantError::MalformedHead(head.path.clone()))
                }
            },
        }
    }

    /// Whether the nearest control directory lies inside another tracked
    /// tree.
    pub fn in_submodule(&self) -> (r: bool)
        ensures
            r == (self@.len() > 1),
    {
        self.root.len() > 1
    }

    /// The fragment's pieces for the nearest control directory, whose marker
    /// files are `root`; none outside any tracked tree.
    pub fn portion(&self, root: &ControlDir) -> (r: Result<Option<Portion>, EnchantError>)
        ensures
            self@.len() == 0 ==> r matches Ok(None),
            self@.len() > 0 ==> match stat_spec(*root) {
                Err(e) => r matches Err(x) && x@ == e,
                Ok(st) => match branch_spec(root.head) {
                    Err(e) => r matches Err(x) && x@ == e,
                    Ok(b) => r matches Ok(Some(p)) && p@ == portion_spec(self@.len() > 1, b, st),
                },
            },
    {
        if self.root.is_empty() {
            return Ok(None);
        }
        let git_stat = Stat::get(root)?;
        let in_submodule = self.in_submodule();
        let branch = self.branch(&root.head)?;
        let operation = match git_stat.operation {
            Some(op) => op.label(),
            None => "",
        };
        proof {
            reveal_strlit("");
        }
        let p = Portion {
            submodule: conditional("SUBMODULE", in_submodule).to_owned(),
            submodule_sep: conditional(" | ", in_submodule).to_owned(),
            branch,
            operation_sep: conditional(" | ", git_stat.operation.is_some()).to_owned(),
            operation: operation.to_owned(),
            ratio: git_stat.ratio,
        };
        assert(p@.operation == portion_spec(self@.len() > 1, branch@, git_stat@).operation);
        assert(p@ == portion_spec(self@.len() > 1, branch@, git_stat@));
        Ok(Some(p))
    }
}

} // verus!

verus! {

/// An ancestor whose `.git` names a control directory.
pub open spec fn is_marked(a: Ancestor) -> bool {
    entry_spec(a) matches Some(Ok(_))
}

/// An ancestor whose `.git` is a file without the `gitdir: ` prefix.
pub open spec fn is_malformed(a: Ancestor) -> bool {
    entry_spec(a) matches Some(Err(_))
}

/// How many of the ancestors name a control directory.
pub open spec fn marked_count(anc: Seq<Ancestor>) -> nat
    decreases anc.len(),
{
    if anc.len() == 0 {
        0
    } else {
        marked_count(anc.drop_last()) + if is_marked(anc.last()) {
            1nat
        } else {
            0nat
        }
    }
}

/// With no `.git` at any ancestor the chain is empty.
pub proof fn lemma_no_marker_empty_chain(anc: Seq<Ancestor>)
    requires
        forall|i: int| 0 <= i < anc.len() ==> (#[trigger] anc[i]).marker is Absent,
    ensures
        locate_spec(anc) == Ok::<Seq<Seq<char>>, Failure>(Seq::empty()),
    decreases anc.len(),
{
    if anc.len() > 0 {
        let rest = anc.drop_last();
        assert forall|i: int| 0 <= i < rest.len() implies (#[trigger] rest[i]).marker is Absent by {
            assert(rest[i] == anc[i]);
        }
        lemma_no_marker_empty_chain(rest);
    }
}

/// Where no `.git` file is malformed, the walk succeeds and the chain holds
/// one entry for each ancestor that names a control directory.
pub proof fn lemma_chain_length(anc: Seq<Ancestor>)
    requires
        forall|i: int| 0 <= i < anc.len() ==> !is_malformed(#[trigger] anc[i]),
    ensures
        locate_spec(anc) matches Ok(c) && c.len() == marked_count(anc),
    decreases anc.len(),
{
    if anc.len() > 0 {
        let rest = anc.drop_last();
        assert forall|i: int| 0 <= i < rest.len() implies !is_malformed(#[trigger] rest[i]) by {
            assert(rest[i] == anc[i]);
        }
        assert(!is_malformed(anc[anc.len() - 1]));
        lemma_chain_length(rest);
    }
}

proof fn lemma_count_positive(anc: Seq<Ancestor>, i: int)
    requires
        0 <= i < anc.len(),
        is_marked(anc[i]),
    ensures
        marked_count(anc) >= 1,
    decreases anc.len(),
{
    if i < anc.len() - 1 {
        assert(anc.drop_last()[i] == anc[i]);
        lemma_count_positive(anc.drop_last(), i);
    }
}

proof fn lemma_count_two(anc: Seq<Ancestor>, i: int, j: int)
    requires
        0 <= i < j < anc.len(),
        is_marked(anc[i]),
        is_marked(anc[j]),
    ensures
        marked_count(anc) >= 2,
    decreases anc.len(),
{
    let rest = anc.drop_last();
    assert(rest[i] == anc[i]);
    if j < anc.len() - 1 {
        assert(rest[j] == anc[j]);
        lemma_count_two(rest, i, j);
    } else {
        lemma_count_positive(rest, i);
    }
}

/// A working tree whose only `.git` among its ancestors is a directory
/// gives a chain of that one directory.
pub proof fn lemma_single_repository(anc: Seq<Ancestor>, k: int)
    requires
        0 <= k < anc.len(),
        anc[k].marker is Directory,
        forall|i: int| 0 <= i < anc.len() && i != k ==> (#[trigger] anc[i]).marker is Absent,
    ensures
        locate_spec(anc) == Ok::<Seq<Seq<char>>, Failure>(seq![join_spec(anc[k].path@, ".git"@)]),
    decreases anc.len(),
{
    let rest = anc.drop_last();
    if k < anc.len() - 1 {
        assert forall|i: int| 0 <= i < rest.len() && i != k implies (#[trigger] rest[i]).marker is Absent by {
            assert(rest[i] == anc[i]);
        }
        assert(rest[k] == anc[k]);
        lemma_single_repository(rest, k);
    } else {
        assert forall|i: int| 0 <= i < rest.len() implies (#[trigger] rest[i]).marker is Absent by {
            assert(rest[i] == anc[i]);
        }
        lemma_no_marker_empty_chain(rest);
        assert(Seq::<Seq<char>>::empty().push(join_spec(anc[k].path@, ".git"@)) =~= seq![join_spec(anc[k].path@, ".git"@)]);
    }
}

/// A tree nested in another tracked tree, two ancestors each naming a
/// control directory and no malformed `.git` file, gives a chain of at
/// least two entries: the walk is in a submodule.
pub proof fn lemma_nested_submodule(anc: Seq<Ancestor>, i: int, j: int)
    requires
        0 <= i < j < anc.len(),
        is_marked(anc[i]),
        is_marked(anc[j]),
        forall|k: int| 0 <= k < anc.len() ==> !is_malformed(#[trigger] anc[k]),
    ensures
        locate_spec(anc) matches Ok(c) && c.len() >= 2,
{
    lemma_chain_length(anc);
    lemma_count_two(anc, i, j);
}

/// A walk that meets a malformed `.git` file fails, and every failure of a
/// walk is a malformed indirection.
pub proof fn lemma_malformed_fails(anc: Seq<Ancestor>)
    ensures
        locate_spec(anc) matches Err(e) ==> e is MalformedIndirection,
        (exists|i: int| 0 <= i < anc.len() && is_malformed(#[trigger] anc[i])) ==> locate_spec(
            anc,
        ) is Err,
    decreases anc.len(),
{
    if anc.len() > 0 {
        let rest = anc.drop_last();
        lemma_malformed_fails(rest);
        if exists|i: int| 0 <= i < anc.len() && is_malformed(#[trigger] anc[i]) {
            let i = choose|i: int| 0 <= i < anc.len() && is_malformed(#[trigger] anc[i]);
            if i < anc.len() - 1 {
                assert(rest[i] == anc[i]);
            }
        }
    }
}

/// An indirection file holding `gitdir: ../.git/modules/foo` and a newline
/// resolves against its ancestor, not to the file's own path.
pub proof fn lemma_indirection_resolves(a: Ancestor)
    requires
        a.marker matches Marker::File(c) && c@ == "gitdir: ../.git/modules/foo\n"@,
    ensures
        entry_spec(a) == Some(
            Ok::<Seq<char>, Failure>(join_spec(a.path@, "../.git/modules/foo"@)),
        ),
{
    reveal_strlit("gitdir: ../.git/modules/foo\n");
    reveal_strlit("../.git/modules/foo");
    reveal_strlit("gitdir: ");
    let c = a.marker->File_0@;
    let body = c.drop_last();
    assert(trim_start_spec(c) == c);
    assert(c.last() == '\n');
    assert(c.drop_last() =~= body);
    assert(trim_end_spec(body) == body);
    assert(trim_spec(c) == body);
    assert(gitdir_prefix() =~= body.subrange(0, 8));
    assert(body.subrange(8, body.len() as int) =~= "../.git/modules/foo"@);
}

/// A walk fails at its nearest malformed `.git` file, and the failure names
/// that file.
pub proof fn lemma_nearest_malformed_named(anc: Seq<Ancestor>, k: int)
    requires
        0 <= k < anc.len(),
        is_malformed(anc[k]),
        forall|i: int| 0 <= i < k ==> !is_malformed(#[trigger] anc[i]),
    ensures
        locate_spec(anc) == Err::<Seq<Seq<char>>, Failure>(
            Failure::MalformedIndirection(join_spec(anc[k].path@, ".git"@)),
        ),
{
    let front = anc.take(k);
    assert forall|i: int| 0 <= i < front.len() implies !is_malformed(#[trigger] front[i]) by {
        assert(front[i] == anc[i]);
    }
    lemma_chain_length(front);
    assert(anc.take(k + 1).drop_last() =~= front);
    lemma_failure_persists(anc, k + 1);
}

/// A hexadecimal digit.
pub open spec fn is_hex(c: char) -> bool {
    ('0' <= c && c <= '9') || ('a' <= c && c <= 'f') || ('A' <= c && c <= 'F')
}

/// A `HEAD` that holds a commit hash, with or without a final newline,
/// shows `HEAD-` and the hash's first eight digits.
pub proof fn lemma_detached_head(head: MarkerFile, h: Seq<char>)
    requires
        head.contents matches Some(c) && (c@ == h || c@ == h.push('\n')),
        h.len() >= 8,
        forall|i: int| 0 <= i < h.len() ==> is_hex(#[trigger] h[i]),
    ensures
        branch_spec(head) == Ok::<Seq<char>, Failure>("HEAD-"@ + h.subrange(0, 8)),
{
    reveal_strlit("ref: refs/heads/");
    let c = head.contents->Some_0@;
    assert forall|j: int| 0 <= j < c.len() implies (#[trigger] c[j]) != 'r' by {
        if j < h.len() {
            assert(c[j] == h[j]);
            assert(is_hex(h[j]));
        }
    }
    if contains_spec(c, refs_prefix()) {
        let i = choose|i: int|
            0 <= i && i + refs_prefix().len() <= c.len() && #[trigger] c.subrange(
                i,
                i + refs_prefix().len(),
            ) == refs_prefix();
        assert(c.subrange(i, i + refs_prefix().len())[0] == c[i]);
    }
    assert(c.subrange(0, 8) =~= h.subrange(0, 8));
}

} // verus!
