//! Moving a directory, across drives if need be, without ever losing a file.
//!
//! A plain rename is tried first. Where it fails, every file is copied before any is removed, so
//! that a failure half-way leaves the source whole. [`DirMove`] decides what comes next; the
//! caller performs each [`MoveStep`] and hands back what came of it.
//!
//! Inside the moved directory a path is the sequence of the names below it. The same path holds
//! on both sides of the move: a file goes to where it was. A name is a number that the caller
//! gives out.

use vstd::prelude::*;

verus! {

/// A path below the directory that is moved.
pub type RelPath = Vec<u64>;

/// What a directory entry is. A link is never followed: what it points at may lie anywhere.
#[derive(Clone, Copy, PartialEq, Eq, Structural, Debug)]
pub enum EntryKind {
    Link,
    Dir,
    File,
}

/// What an entry of this type counts as.
pub fn entry_kind(is_symlink: bool, is_dir: bool) -> (r: EntryKind)
    ensures
        r == (if is_symlink {
            EntryKind::Link
        } else if is_dir {
            EntryKind::Dir
        } else {
            EntryKind::File
        }),
{
    if is_symlink {
        EntryKind::Link
    } else if is_dir {
        EntryKind::Dir
    } else {
        EntryKind::File
    }
}

/// An entry of a directory.
#[derive(Clone, Copy, PartialEq, Eq, Structural, Debug)]
pub struct Entry {
    pub name: u64,
    pub kind: EntryKind,
}

/// The next thing to do for a move.
pub enum MoveStep {
    /// Rename the source to the target.
    Rename,
    /// Find out whether the source is there, and whether it is a file.
    LookAt,
    /// List a directory of the source.
    ReadDir(RelPath),
    /// Make the directory that the file of this number goes to.
    MakeParent(usize),
    /// Copy the file of this number.
    Copy(usize),
    /// Remove the file of this number from the source.
    Remove(usize),
    /// List a directory of the source once more, for the directories in it. One that cannot be
    /// listed is left out.
    SweepRead(RelPath),
    /// Remove a directory of the source if it is empty. The first one that is not ends the
    /// removal of directories, and with it the move.
    SweepRemove(RelPath),
    /// The move is done.
    Done,
    /// The move failed with the error of the last step.
    Failed,
}

/// What came of a step.
pub enum MoveEvent {
    Success,
    Error,
    /// The source is not there.
    Missing,
    /// The source is a file.
    SingleFile,
    /// The source is a directory.
    Directory,
    /// The entries of a directory.
    Listed(Vec<Entry>),
}

/// A [`MoveStep`], its path as a sequence.
pub enum MovePoint {
    Rename,
    LookAt,
    ReadDir(Seq<u64>),
    MakeParent(int),
    Copy(int),
    Remove(int),
    SweepRead(Seq<u64>),
    SweepRemove(Seq<u64>),
    Done,
    Failed,
}

impl View for MoveStep {
    type V = MovePoint;

    open spec fn view(&self) -> MovePoint {
        match *self {
            MoveStep::Rename => MovePoint::Rename,
            MoveStep::LookAt => MovePoint::LookAt,
            MoveStep::ReadDir(path) => MovePoint::ReadDir(path@),
            MoveStep::MakeParent(i) => MovePoint::MakeParent(i as int),
            MoveStep::Copy(i) => MovePoint::Copy(i as int),
            MoveStep::Remove(i) => MovePoint::Remove(i as int),
            MoveStep::SweepRead(path) => MovePoint::SweepRead(path@),
            MoveStep::SweepRemove(path) => MovePoint::SweepRemove(path@),
            MoveStep::Done => MovePoint::Done,
            MoveStep::Failed => MovePoint::Failed,
        }
    }
}

/// A [`MoveEvent`], its listing as a sequence.
pub enum MoveOutcome {
    Success,
    Error,
    Missing,
    SingleFile,
    Directory,
    Listed(Seq<Entry>),
}

impl View for MoveEvent {
    type V = MoveOutcome;

    open spec fn view(&self) -> MoveOutcome {
        match *self {
            MoveEvent::Success => MoveOutcome::Success,
            MoveEvent::Error => MoveOutcome::Error,
            MoveEvent::Missing => MoveOutcome::Missing,
            MoveEvent::SingleFile => MoveOutcome::SingleFile,
            MoveEvent::Directory => MoveOutcome::Directory,
            MoveEvent::Listed(entries) => MoveOutcome::Listed(entries@),
        }
    }
}

/// A thing still to do when the emptied directories are removed.
pub enum SweepTask {
    /// List this directory and go through the directories in it.
    Visit(RelPath),
    /// Remove this directory.
    Remove(RelPath),
}

/// A [`SweepTask`], its path as a sequence.
pub enum SweepItem {
    Visit(Seq<u64>),
    Remove(Seq<u64>),
}

impl View for SweepTask {
    type V = SweepItem;

    open spec fn view(&self) -> SweepItem {
        match *self {
            SweepTask::Visit(path) => SweepItem::Visit(path@),
            SweepTask::Remove(path) => SweepItem::Remove(path@),
        }
    }
}

/// An entry found at a path.
pub struct Found {
    pub path: RelPath,
    pub kind: EntryKind,
}

/// A move in progress.
pub struct DirMove {
    step: MoveStep,
    single: bool,
    pairs: Vec<RelPath>,
    todo: Vec<Found>,
    sweep: Vec<SweepTask>,
}

/// A move in progress, as a value.
#[verifier::ext_equal]
pub struct MoveState {
    /// The next thing to do.
    pub point: MovePoint,
    /// The source is a file, not a directory.
    pub single: bool,
    /// The files to move, by the paths that they have on both sides.
    pub pairs: Seq<Seq<u64>>,
    /// The entries that were listed and not yet looked at, the next one last.
    pub todo: Seq<(Seq<u64>, EntryKind)>,
    /// What is left of the removal of directories, the next thing last.
    pub sweep: Seq<SweepItem>,
}

/// The entries of the directory at `path` with their own paths, in reverse.
pub open spec fn stacked(path: Seq<u64>, entries: Seq<Entry>) -> Seq<(Seq<u64>, EntryKind)> {
    Seq::new(
        entries.len(),
        |k: int|
            (path.push(entries[entries.len() - 1 - k].name), entries[entries.len() - 1 - k].kind),
    )
}

/// What to do for the directories among the entries of the directory at `path`, in reverse.
pub open spec fn visits(path: Seq<u64>, entries: Seq<Entry>) -> Seq<SweepItem>
    decreases entries.len(),
{
    if entries.len() == 0 {
        Seq::empty()
    } else {
        let rest = visits(path, entries.drop_first());
        if entries.first().kind == EntryKind::Dir {
            rest.push(SweepItem::Visit(path.push(entries.first().name)))
        } else {
            rest
        }
    }
}

impl MoveState {
    /// A move that begins with this step.
    pub open spec fn start(point: MovePoint) -> Self {
        MoveState {
            point,
            single: false,
            pairs: Seq::empty(),
            todo: Seq::empty(),
            sweep: Seq::empty(),
        }
    }

    /// The same move at another step.
    pub open spec fn at(self, point: MovePoint) -> Self {
        MoveState { point, ..self }
    }

    /// Looks through the listed entries: notes files, leaves links out, and stops at the next
    /// directory. With nothing left to look at, the copying begins.
    pub open spec fn settled(self) -> Self
        decreases self.todo.len(),
    {
        if self.todo.len() == 0 {
            if self.pairs.len() > 0 {
                self.at(MovePoint::MakeParent(0))
            } else {
                self.at(MovePoint::SweepRead(Seq::empty()))
            }
        } else {
            let (path, kind) = self.todo.last();
            let rest = MoveState { todo: self.todo.drop_last(), ..self };
            match kind {
                EntryKind::File => MoveState { pairs: rest.pairs.push(path), ..rest }.settled(),
                EntryKind::Link => rest.settled(),
                EntryKind::Dir => rest.at(MovePoint::ReadDir(path)),
            }
        }
    }

    /// Goes on with the removal of directories.
    pub open spec fn swept(self) -> Self {
        if self.sweep.len() == 0 {
            self.at(MovePoint::Done)
        } else {
            let rest = MoveState { sweep: self.sweep.drop_last(), ..self };
            match self.sweep.last() {
                SweepItem::Visit(path) => rest.at(MovePoint::SweepRead(path)),
                SweepItem::Remove(path) => rest.at(MovePoint::SweepRemove(path)),
            }
        }
    }

    /// What follows the removal of file `i`.
    pub open spec fn after_remove(self, i: int) -> Self {
        if self.pairs.len() - i > 1 {
            self.at(MovePoint::Remove(i + 1))
        } else if self.single {
            self.at(MovePoint::Done)
        } else {
            self.at(MovePoint::SweepRead(Seq::empty()))
        }
    }

    /// The move once `event` came of its step. An event that does not belong to the step
    /// changes nothing.
    pub open spec fn next(self, event: MoveOutcome) -> Self {
        match (self.point, event) {
            (MovePoint::Rename, MoveOutcome::Success) => self.at(MovePoint::Done),
            (MovePoint::Rename, MoveOutcome::Error) => self.at(MovePoint::LookAt),
            (MovePoint::LookAt, MoveOutcome::Missing) => self.at(MovePoint::Done),
            (MovePoint::LookAt, MoveOutcome::SingleFile) => MoveState {
                single: true,
                pairs: seq![Seq::empty()],
                ..self
            }.at(MovePoint::MakeParent(0)),
            (MovePoint::LookAt, MoveOutcome::Directory) => self.at(
                MovePoint::ReadDir(Seq::empty()),
            ),
            (MovePoint::ReadDir(path), MoveOutcome::Listed(entries)) => MoveState {
                todo: self.todo + stacked(path, entries),
                ..self
            }.settled(),
            (MovePoint::ReadDir(_), MoveOutcome::Error) => self.at(MovePoint::Failed),
            (MovePoint::MakeParent(i), MoveOutcome::Success) => self.at(MovePoint::Copy(i)),
            (MovePoint::MakeParent(_), MoveOutcome::Error) => self.at(MovePoint::Failed),
            (MovePoint::Copy(i), MoveOutcome::Success) => if self.pairs.len() - i > 1 {
                self.at(MovePoint::MakeParent(i + 1))
            } else {
                self.at(MovePoint::Remove(0))
            },
            (MovePoint::Copy(_), MoveOutcome::Error) => self.at(MovePoint::Failed),
            (MovePoint::Remove(i), MoveOutcome::Success) => self.after_remove(i),
            (MovePoint::Remove(i), MoveOutcome::Error) => if self.single {
                self.at(MovePoint::Failed)
            } else {
                self.after_remove(i)
            },
            (MovePoint::SweepRead(path), MoveOutcome::Listed(entries)) => MoveState {
                sweep: self.sweep.push(SweepItem::Remove(path)) + visits(path, entries),
                ..self
            }.swept(),
            (MovePoint::SweepRead(_), MoveOutcome::Error) => self.swept(),
            (MovePoint::SweepRemove(_), MoveOutcome::Success) => self.swept(),
            (MovePoint::SweepRemove(_), MoveOutcome::Error) => self.at(MovePoint::Done),
            _ => self,
        }
    }

    /// A numbered step is about a file of the move.
    pub open spec fn valid(self) -> bool {
        match self.point {
            MovePoint::MakeParent(i) => 0 <= i < self.pairs.len(),
            MovePoint::Copy(i) => 0 <= i < self.pairs.len(),
            MovePoint::Remove(i) => 0 <= i < self.pairs.len(),
            _ => true,
        }
    }
}

/// The paths behind vectors.
pub open spec fn paths(v: Seq<RelPath>) -> Seq<Seq<u64>> {
    v.map_values(|p: RelPath| p@)
}

/// The entries behind vectors.
pub open spec fn found(v: Seq<Found>) -> Seq<(Seq<u64>, EntryKind)> {
    v.map_values(|f: Found| (f.path@, f.kind))
}

/// The tasks behind vectors.
pub open spec fn items(v: Seq<SweepTask>) -> Seq<SweepItem> {
    v.map_values(|t: SweepTask| t@)
}

impl View for DirMove {
    type V = MoveState;

    closed spec fn view(&self) -> MoveState {
        MoveState {
            point: self.step@,
            single: self.single,
            pairs: paths(self.pairs@),
            todo: found(self.todo@),
            sweep: items(self.sweep@),
        }
    }
}

/// The path of an entry of the directory at `path`.
fn join(path: &RelPath, name: u64) -> (r: RelPath)
    ensures
        r@ == path@.push(name),
{
    let mut r = path.clone();
    r.push(name);
    r
}

impl DirMove {
    fn begin(step: MoveStep) -> (r: Self)
        ensures
            r@ == MoveState::start(step@),
    {
        let r = DirMove {
            step,
            single: false,
            pairs: Vec::new(),
            todo: Vec::new(),
            sweep: Vec::new(),
        };
        assert(r@ =~= MoveState::start(step@));
        r
    }

    /// A move that tries a rename first.
    pub fn robust_move_dir() -> (r: Self)
        ensures
            r@ == MoveState::start(MovePoint::Rename),
            r@.valid(),
    {
        Self::begin(MoveStep::Rename)
    }

    /// A move by copying.
    pub fn move_dir_all() -> (r: Self)
        ensures
            r@ == MoveState::start(MovePoint::LookAt),
            r@.valid(),
    {
        Self::begin(MoveStep::LookAt)
    }

    /// The next thing to do.
    pub fn step(&self) -> (r: &MoveStep)
        ensures
            r@ == self@.point,
    {
        &self.step
    }

    /// The path of the file of this number, if there is one.
    pub fn pair(&self, i: usize) -> (r: Option<&RelPath>)
        ensures
            match r {
                Some(path) => i < self@.pairs.len() && path@ == self@.pairs[i as int],
                None => i >= self@.pairs.len(),
            },
    {
        if i < self.pairs.len() {
            Some(&self.pairs[i])
        } else {
            None
        }
    }

    fn set_step(&mut self, step: MoveStep)
        ensures
            final(self)@ == old(self)@.at(step@),
    {
        self.step = step;
    }

    /// Puts the entries of the directory at `path` on top of those still to look at.
    fn collect_listing(&mut self, path: &RelPath, entries: &Vec<Entry>)
        ensures
            final(self)@ == (MoveState {
                todo: old(self)@.todo + stacked(path@, entries@),
                ..old(self)@
            }),
    {
        let mut j: usize = entries.len();
        let ghost n = entries@.len();
        let ghost all = stacked(path@, entries@);
        let ghost before = self@;
        assert(self@ =~= MoveState { todo: before.todo + all.take(0), ..before });
        while j > 0
            invariant
                j <= n == entries@.len(),
                all == stacked(path@, entries@),
                self@ == (MoveState { todo: before.todo + all.take(n - j), ..before }),
            decreases j,
        {
            j = j - 1;
            let ghost prior = self.todo@;
            let item = Found { path: join(path, entries[j].name), kind: entries[j].kind };
            let ghost top = (item.path@, item.kind);
            self.todo.push(item);
            proof {
                assert(found(self.todo@) =~= found(prior).push(top));
                assert(all[n - j - 1] == top);
                assert(all.take(n - j) =~= all.take(n - j - 1).push(top));
                assert(self@ =~= MoveState { todo: before.todo + all.take(n - j), ..before });
            }
        }
        assert(all.take(n as int) =~= all);
    }

    /// Looks through the listed entries up to the next directory.
    fn collect_file_pairs(&mut self)
        ensures
            final(self)@ == old(self)@.settled(),
    {
        loop
            invariant
                self@.settled() == old(self)@.settled(),
            decreases self.todo@.len(),
        {
            let ghost before = self@;
            match self.todo.pop() {
                None => {
                    assert(self@ =~= before);
                    if self.pairs.len() > 0 {
                        self.set_step(MoveStep::MakeParent(0));
                    } else {
                        self.set_step(MoveStep::SweepRead(Vec::new()));
                    }
                    return;
                },
                Some(item) => {
                    let ghost rest = MoveState { todo: before.todo.drop_last(), ..before };
                    assert(found(self.todo@) =~= before.todo.drop_last());
                    assert(before.todo.last() == (item.path@, item.kind));
                    assert(self@ =~= rest);
                    match item.kind {
                        EntryKind::File => {
                            let ghost prior = self.pairs@;
                            let ghost path = item.path@;
                            self.pairs.push(item.path);
                            assert(paths(self.pairs@) =~= paths(prior).push(path));
                            assert(self@ =~= MoveState { pairs: rest.pairs.push(path), ..rest });
                        },
                        EntryKind::Link => {},
                        EntryKind::Dir => {
                            self.set_step(MoveStep::ReadDir(item.path));
                            return;
                        },
                    }
                },
            }
        }
    }

    /// Notes the removal of the directory at `path`, and before it what is to be done for the
    /// directories among its entries.
    fn sweep_listing(&mut self, path: &RelPath, entries: &Vec<Entry>)
        ensures
            final(self)@ == (MoveState {
                sweep: old(self)@.sweep.push(SweepItem::Remove(path@)) + visits(path@, entries@),
                ..old(self)@
            }),
    {
        let ghost before = self@;
        let ghost base = before.sweep.push(SweepItem::Remove(path@));
        let ghost prior = self.sweep@;
        let last = SweepTask::Remove(path.clone());
        let ghost last_item = last@;
        self.sweep.push(last);
        assert(items(self.sweep@) =~= items(prior).push(last_item));
        let mut j: usize = entries.len();
        let ghost n = entries@.len();
        assert(entries@.skip(n as int) =~= Seq::<Entry>::empty());
        assert(self@ =~= MoveState {
            sweep: base + visits(path@, entries@.skip(j as int)),
            ..before
        });
        while j > 0
            invariant
                j <= n == entries@.len(),
                self@ == (MoveState {
                    sweep: base + visits(path@, entries@.skip(j as int)),
                    ..before
                }),
            decreases j,
        {
            j = j - 1;
            let ghost prior = self.sweep@;
            let ghost prior_state = self@;
            assert(entries@.skip(j as int).drop_first() =~= entries@.skip(j + 1));
            assert(entries@.skip(j as int).first() == entries@[j as int]);
            if entries[j].kind == EntryKind::Dir {
                let task = SweepTask::Visit(join(path, entries[j].name));
                let ghost item = task@;
                self.sweep.push(task);
                assert(items(self.sweep@) =~= items(prior).push(item));
                assert((base + visits(path@, entries@.skip(j + 1))).push(item) =~= base + visits(
                    path@,
                    entries@.skip(j + 1),
                ).push(item));
            }
            assert(self@ =~= MoveState {
                sweep: base + visits(path@, entries@.skip(j as int)),
                ..before
            });
        }
        assert(entries@.skip(0) =~= entries@);
    }

    /// Goes on with the removal of directories.
    fn remove_empty_dirs(&mut self)
        ensures
            final(self)@ == old(self)@.swept(),
    {
        match self.sweep.pop() {
            None => {
                assert(self@ =~= old(self)@);
                self.set_step(MoveStep::Done);
            },
            Some(task) => {
                let ghost before = old(self)@;
                assert(items(self.sweep@) =~= before.sweep.drop_last());
                assert(before.sweep.last() == task@);
                assert(self@ =~= MoveState { sweep: before.sweep.drop_last(), ..before });
                match task {
                    SweepTask::Visit(path) => self.set_step(MoveStep::SweepRead(path)),
                    SweepTask::Remove(path) => self.set_step(MoveStep::SweepRemove(path)),
                }
            },
        }
    }

    /// What follows the removal of file `i`.
    fn removed(&mut self, i: usize)
        requires
            i < old(self)@.pairs.len(),
        ensures
            final(self)@ == old(self)@.after_remove(i as int),
    {
        if self.pairs.len() - i > 1 {
            self.set_step(MoveStep::Remove(i + 1));
        } else if self.single {
            self.set_step(MoveStep::Done);
        } else {
            self.set_step(MoveStep::SweepRead(Vec::new()));
        }
    }

    /// Goes on once `event` came of the step.
    pub fn advance(&mut self, event: MoveEvent)
        requires
            old(self)@.valid(),
        ensures
            final(self)@ == old(self)@.next(event@),
            final(self)@.valid(),
    {
        let step = match &self.step {
            MoveStep::Rename => MoveStep::Rename,
            MoveStep::LookAt => MoveStep::LookAt,
            MoveStep::ReadDir(path) => MoveStep::ReadDir(path.clone()),
            MoveStep::MakeParent(i) => MoveStep::MakeParent(*i),
            MoveStep::Copy(i) => MoveStep::Copy(*i),
            MoveStep::Remove(i) => MoveStep::Remove(*i),
            MoveStep::SweepRead(path) => MoveStep::SweepRead(path.clone()),
            MoveStep::SweepRemove(path) => MoveStep::SweepRemove(path.clone()),
            MoveStep::Done => MoveStep::Done,
            MoveStep::Failed => MoveStep::Failed,
        };
        proof {
            lemma_next_is_valid(self@, event@);
        }
        match (step, event) {
            (MoveStep::Rename, MoveEvent::Success) => self.set_step(MoveStep::Done),
            (MoveStep::Rename, MoveEvent::Error) => self.set_step(MoveStep::LookAt),
            (MoveStep::LookAt, MoveEvent::Missing) => self.set_step(MoveStep::Done),
            (MoveStep::LookAt, MoveEvent::SingleFile) => {
                self.single = true;
                self.pairs = Vec::new();
                self.pairs.push(Vec::new());
                assert(paths(self.pairs@) =~= seq![Seq::<u64>::empty()]);
                self.set_step(MoveStep::MakeParent(0));
            },
            (MoveStep::LookAt, MoveEvent::Directory) => self.set_step(
                MoveStep::ReadDir(Vec::new()),
            ),
            (MoveStep::ReadDir(path), MoveEvent::Listed(entries)) => {
                self.collect_listing(&path, &entries);
                self.collect_file_pairs();
            },
            (MoveStep::ReadDir(_), MoveEvent::Error) => self.set_step(MoveStep::Failed),
            (MoveStep::MakeParent(i), MoveEvent::Success) => self.set_step(MoveStep::Copy(i)),
            (MoveStep::MakeParent(_), MoveEvent::Error) => self.set_step(MoveStep::Failed),
            (MoveStep::Copy(i), MoveEvent::Success) => {
                if self.pairs.len() - i > 1 {
                    self.set_step(MoveStep::MakeParent(i + 1));
                } else {
                    self.set_step(MoveStep::Remove(0));
                }
            },
            (MoveStep::Copy(_), MoveEvent::Error) => self.set_step(MoveStep::Failed),
            (MoveStep::Remove(i), MoveEvent::Success) => self.removed(i),
            (MoveStep::Remove(i), MoveEvent::Error) => {
                if self.single {
                    self.set_step(MoveStep::Failed);
                } else {
                    self.removed(i);
                }
            },
            (MoveStep::SweepRead(path), MoveEvent::Listed(entries)) => {
                self.sweep_listing(&path, &entries);
                self.remove_empty_dirs();
            },
            (MoveStep::SweepRead(_), MoveEvent::Error) => self.remove_empty_dirs(),
            (MoveStep::SweepRemove(_), MoveEvent::Success) => self.remove_empty_dirs(),
            (MoveStep::SweepRemove(_), MoveEvent::Error) => self.set_step(MoveStep::Done),
            _ => {},
        }
    }
}

/// Looking through entries ends at a directory, at the first copy, or at the removal of
/// directories where there is no file.
proof fn lemma_settled_is_valid(state: MoveState)
    ensures
        state.settled().valid(),
    decreases state.todo.len(),
{
    if state.todo.len() > 0 {
        let (path, kind) = state.todo.last();
        let rest = MoveState { todo: state.todo.drop_last(), ..state };
        match kind {
            EntryKind::File => lemma_settled_is_valid(
                MoveState { pairs: rest.pairs.push(path), ..rest },
            ),
            EntryKind::Link => lemma_settled_is_valid(rest),
            EntryKind::Dir => {},
        }
    }
}

/// Every step of a valid move leads to a valid move.
pub(crate) proof fn lemma_next_is_valid(state: MoveState, event: MoveOutcome)
    requires
        state.valid(),
    ensures
        state.next(event).valid(),
{
    if let (MovePoint::ReadDir(path), MoveOutcome::Listed(entries)) = (state.point, event) {
        lemma_settled_is_valid(MoveState { todo: state.todo + stacked(path, entries), ..state });
    }
}

} // verus!
