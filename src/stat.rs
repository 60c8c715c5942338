//! The state of a control directory: the operation in progress and how far
//! it has come.
use crate::text::{push_str, trim, trim_spec};
use crate::utility::{
    read_maybe_missing_file, required_spec, EnchantError, Failure, MarkerFile,
};
use vstd::prelude::*;

verus! {

/// A multi-step operation in progress.
#[derive(Debug, Clone, Copy, PartialEq, Eq, Structural)]
pub enum Operation {
    RebaseInteractive,
    RebaseMerge,
    Rebase,
    Am,
    AmOrRebase,
    Merging,
    CherryPicking,
    Reverting,
    Bisecting,
}

/// The label shown for an operation.
pub open spec fn label_spec(op: Operation) -> Seq<char> {
    match op {
        Operation::RebaseInteractive => "REBASE-i"@,
        Operation::RebaseMerge => "REBASE-m"@,
        Operation::Rebase => "REBASE"@,
        Operation::Am => "AM"@,
        Operation::AmOrRebase => "AM/REBASE"@,
        Operation::Merging => "MERGING"@,
        Operation::CherryPicking => "CHERRY-PICKING"@,
        Operation::Reverting => "REVERTING"@,
        Operation::Bisecting => "BISECTING"@,
    }
}

impl Operation {
    /// The label shown for this operation.
    pub fn label(&self) -> (r: &'static str)
        ensures
            r@ == label_spec(*self),
    {
        match self {
            Operation::RebaseInteractive => "REBASE-i",
            Operation::RebaseMerge => "REBASE-m",
            Operation::Rebase => "REBASE",
            Operation::Am => "AM",
            Operation::AmOrRebase => "AM/REBASE",
            Operation::Merging => "MERGING",
            Operation::CherryPicking => "CHERRY-PICKING",
            Operation::Reverting => "REVERTING",
            Operation::Bisecting => "BISECTING",
        }
    }
}

/// What was found in `rebase-merge/` (present only where it is a directory).
#[derive(Debug)]
pub struct RebaseMergeDir {
    pub head_name: MarkerFile,
    pub msgnum: MarkerFile,
    pub end: MarkerFile,
    /// Whether `rebase-merge/interactive` exists.
    pub interactive: bool,
}

/// What was found in `rebase-apply/` (present only where it is a directory).
#[derive(Debug)]
pub struct RebaseApplyDir {
    pub next: MarkerFile,
    pub last: MarkerFile,
    pub head_name: MarkerFile,
    /// Whether `rebase-apply/rebasing` exists.
    pub rebasing: bool,
    /// Whether `rebase-apply/applying` exists.
    pub applying: bool,
}

/// The marker files of a control directory, as found on disk.
#[derive(Debug)]
pub struct ControlDir {
    pub head: MarkerFile,
    pub rebase_merge: Option<RebaseMergeDir>,
    pub rebase_apply: Option<RebaseApplyDir>,
    pub merge_head: bool,
    pub cherry_pick_head: bool,
    pub revert_head: bool,
    pub bisect_log: bool,
}

/// The state of a control directory.
#[derive(Debug)]
pub struct Stat {
    pub operation: Option<Operation>,
    /// `" step/total"`, or empty where no progress is known.
    pub ratio: String,
    /// The branch that a rebase works on; read, and not shown.
    pub head_name: String,
}

pub struct StatView {
    pub operation: Option<Operation>,
    pub ratio: Seq<char>,
    pub head_name: Seq<char>,
}

impl View for Stat {
    type V = StatView;

    open spec fn view(&self) -> StatView {
        StatView { operation: self.operation, ratio: self.ratio@, head_name: self.head_name@ }
    }
}

/// A state with no operation, no progress and no rebase branch.
pub open spec fn blank_spec() -> StatView {
    StatView { operation: None, ratio: Seq::empty(), head_name: Seq::empty() }
}

/// The progress text for a step and a total: empty where the trimmed step is
/// empty, else one space and `step/total`, both trimmed.
pub open spec fn progress_spec(step: Seq<char>, total: Seq<char>) -> Seq<char> {
    if trim_spec(step).len() == 0 {
        Seq::empty()
    } else {
        seq![' '] + trim_spec(step) + seq!['/'] + trim_spec(total)
    }
}

/// The progress held after a step and a total are read over `old`: `old` is
/// kept where the trimmed step is empty.
pub open spec fn ratio_after(old: Seq<char>, step: Seq<char>, total: Seq<char>) -> Seq<char> {
    if trim_spec(step).len() == 0 {
        old
    } else {
        progress_spec(step, total)
    }
}

/// The state that a matched `rebase-merge/` gives.
pub open spec fn rebase_merge_spec(m: RebaseMergeDir) -> Result<StatView, Failure> {
    match required_spec(m.head_name) {
        Err(e) => Err(e),
        Ok(h) => match required_spec(m.msgnum) {
            Err(e) => Err(e),
            Ok(step) => match required_spec(m.end) {
                Err(e) => Err(e),
                Ok(total) => Ok(
                    StatView {
                        operation: Some(
                            if m.interactive {
                                Operation::RebaseInteractive
                            } else {
                                Operation::RebaseMerge
                            },
                        ),
                        ratio: progress_spec(step, total),
                        head_name: h,
                    },
                ),
            },
        },
    }
}

/// The state that a matched `rebase-apply/` gives.
pub open spec fn rebase_apply_spec(a: RebaseApplyDir) -> Result<StatView, Failure> {
    match required_spec(a.next) {
        Err(e) => Err(e),
        Ok(step) => match required_spec(a.last) {
            Err(e) => Err(e),
            Ok(total) => if a.rebasing {
                match required_spec(a.head_name) {
                    Err(e) => Err(e),
                    Ok(h) => Ok(
                        StatView {
                            operation: Some(Operation::Rebase),
                            ratio: progress_spec(step, total),
                            head_name: h,
                        },
                    ),
                }
            } else {
                Ok(
                    StatView {
                        operation: Some(
                            if a.applying {
                                Operation::Am
                            } else {
                                Operation::AmOrRebase
                            },
                        ),
                        ratio: progress_spec(step, total),
                        head_name: Seq::empty(),
                    },
                )
            },
        },
    }
}

/// The operation that the single markers show, the first present in a fixed
/// order.
pub open spec fn marker_spec(d: ControlDir) -> Option<Operation> {
    if d.merge_head {
        Some(Operation::Merging)
    } else if d.cherry_pick_head {
        Some(Operation::CherryPicking)
    } else if d.revert_head {
        Some(Operation::Reverting)
    } else if d.bisect_log {
        Some(Operation::Bisecting)
    } else {
        None
    }
}

/// The state of a control directory: `rebase-merge/` first, then
/// `rebase-apply/`, then the single markers.
pub open spec fn stat_spec(d: ControlDir) -> Result<StatView, Failure> {
    match d.rebase_merge {
        Some(m) => rebase_merge_spec(m),
        None => match d.rebase_apply {
            Some(a) => rebase_apply_spec(a),
            None => Ok(StatView { operation: marker_spec(d), ..blank_spec() }),
        },
    }
}

impl Stat {
    /// Describes the operation in progress in a control directory.
    pub fn get(root: &ControlDir) -> (r: Result<Stat, EnchantError>)
        ensures
            match stat_spec(*root) {
                Ok(v) => r matches Ok(s) && s@ == v,
                Err(e) => r matches Err(x) && x@ == e,
            },
    {
        let mut stat = Stat::blank();
        if !stat.rebase_merge(root)? && !stat.rebase_apply(root)? {
            stat.handle_non_rebase(root);
        }
        Ok(stat)
    }

    fn blank() -> (r: Stat)
        ensures
            r@ == blank_spec(),
    {
        Stat { operation: None, ratio: String::new(), head_name: String::new() }
    }

    fn rebase_merge(&mut self, root: &ControlDir) -> (r: Result<bool, EnchantError>)
        ensures
            match root.rebase_merge {
                None => r matches Ok(false) && final(self)@ == old(self)@,
                Some(m) => match rebase_merge_spec(m) {
                    Ok(v) => r matches Ok(true) && final(self).operation == v.operation
                        && final(self).head_name@ == v.head_name && final(self).ratio@
                        == ratio_after(
                        old(self).ratio@,
                        m.msgnum.contents->Some_0@,
                        m.end.contents->Some_0@,
                    ),
                    Err(e) => r matches Err(x) && x@ == e,
                },
            },
    {
        match &root.rebase_merge {
            Some(m) => {
                self.head_name = read_maybe_missing_file(&m.head_name)?;
                let step = read_maybe_missing_file(&m.msgnum)?;
                let total = read_maybe_missing_file(&m.end)?;

                self.set_ratio(&step, &total);

                if m.interactive {
                    self.operation = Some(Operation::RebaseInteractive);
                } else {
                    self.operation = Some(Operation::RebaseMerge);
                }
                Ok(true)
            },
            None => Ok(false),
        }
    }

    fn rebase_apply(&mut self, root: &ControlDir) -> (r: Result<bool, EnchantError>)
        ensures
            match root.rebase_apply {
                None => r matches Ok(false) && final(self)@ == old(self)@,
                Some(a) => match rebase_apply_spec(a) {
                    Ok(v) => r matches Ok(true) && final(self).operation == v.operation
                        && final(self).head_name@ == (if a.rebasing {
                        v.head_name
                    } else {
                        old(self).head_name@
                    }) && final(self).ratio@ == ratio_after(
                        old(self).ratio@,
                        a.next.contents->Some_0@,
                        a.last.contents->Some_0@,
                    ),
                    Err(e) => r matches Err(x) && x@ == e,
                },
            },
    {
        match &root.rebase_apply {
            Some(a) => {
                let step = read_maybe_missing_file(&a.next)?;
                let total = read_maybe_missing_file(&a.last)?;

                self.set_ratio(&step, &total);

                if a.rebasing {
                    self.head_name = read_maybe_missing_file(&a.head_name)?;
                    self.operation = Some(Operation::Rebase);
                } else if a.applying {
                    self.operation = Some(Operation::Am);
                } else {
                    self.operation = Some(Operation::AmOrRebase);
                }
                Ok(true)
            },
            None => Ok(false),
        }
    }

    fn handle_non_rebase(&mut self, root: &ControlDir)
        ensures
            final(self).operation == (if marker_spec(*root) is Some {
                marker_spec(*root)
            } else {
                old(self).operation
            }),
            final(self).ratio@ == old(self).ratio@,
            final(self).head_name@ == old(self).head_name@,
    {
        if root.merge_head {
            self.operation = Some(Operation::Merging);
        } else if root.cherry_pick_head {
            self.operation = Some(Operation::CherryPicking);
        } else if root.revert_head {
            self.operation = Some(Operation::Reverting);
        } else if root.bisect_log {
            self.operation = Some(Operation::Bisecting);
        }
    }

    fn set_ratio(&mut self, step: &str, total: &str)
        ensures
            final(self).operation == old(self).operation,
            final(self).head_name@ == old(self).head_name@,
            final(self).ratio@ == ratio_after(old(self).ratio@, step@, total@),
    {
        proof {
            reveal_strlit(" ");
            reveal_strlit("/");
        }
        let trimmed = trim(step);
        if !trimmed.is_empty() {
            let mut ratio = String::new();
            push_str(&mut ratio, " ");
            push_str(&mut ratio, trimmed);
            push_str(&mut ratio, "/");
            push_str(&mut ratio, trim(total));
            assert(ratio@ =~= progress_spec(step@, total@));
            self.ratio = ratio;
        }
    }
}

} // verus!

verus! {

/// A matched `rebase-merge/` decides the operation, whatever single markers
/// are present beside it: the state is a rebase-merge variant, never a merge.
pub proof fn lemma_rebase_merge_first(d: ControlDir)
    requires
        d.rebase_merge is Some,
    ensures
        stat_spec(d) matches Ok(v) ==> (v.operation == Some(Operation::RebaseInteractive)
            || v.operation == Some(Operation::RebaseMerge)),
        stat_spec(d) is Err ==> (stat_spec(d) matches Err(Failure::MissingFile(_))),
{
}

/// With no rebase directory and no single marker there is no operation and no
/// progress, and no failure.
pub proof fn lemma_no_operation(d: ControlDir)
    requires
        d.rebase_merge is None,
        d.rebase_apply is None,
        !d.merge_head,
        !d.cherry_pick_head,
        !d.revert_head,
        !d.bisect_log,
    ensures
        stat_spec(d) == Ok::<StatView, Failure>(blank_spec()),
{
}

/// Inside a matched `rebase-apply/`, a missing `next` is a failure that names
/// it, never a state without an operation.
pub proof fn lemma_missing_next_fails(d: ControlDir)
    requires
        d.rebase_merge is None,
        d.rebase_apply matches Some(a) && a.next.contents is None,
    ensures
        stat_spec(d) == Err::<StatView, Failure>(
            Failure::MissingFile(d.rebase_apply->Some_0.next.path@),
        ),
{
}

} // verus!
