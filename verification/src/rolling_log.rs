//! A log file that is set aside when it grows too large. Two older files are kept beside it.
//!
//! The writer decides; the caller performs each [`WriteStep`] and hands back what came of it.

use vstd::prelude::*;

verus! {

/// The files of a log, from the newest to the oldest.
#[derive(Clone, Copy, PartialEq, Eq, Structural, Debug)]
pub enum LogFile {
    Active,
    Backup1,
    Backup2,
}

impl LogFile {
    /// The name of the file inside the log directory.
    pub fn file_name(self) -> (r: &'static str)
        ensures
            r@ == (match self {
                LogFile::Active => "koharu.log"@,
                LogFile::Backup1 => "koharu.1.log"@,
                LogFile::Backup2 => "koharu.2.log"@,
            }),
    {
        match self {
            LogFile::Active => "koharu.log",
            LogFile::Backup1 => "koharu.1.log",
            LogFile::Backup2 => "koharu.2.log",
        }
    }
}

/// The next thing to do for a write. Removing and renaming are done only where the file is
/// there, and whether they succeed is of no account.
#[derive(Clone, Copy, PartialEq, Eq, Structural, Debug)]
pub enum WriteStep {
    /// Make the directory, open the active file for appending and tell its size.
    OpenAppend,
    /// Remove the second backup.
    DropOldest,
    /// Rename the first backup to the second.
    ShiftBackup,
    /// Rename the active file to the first backup.
    ShiftActive,
    /// Open the active file anew, with nothing in it.
    OpenFresh,
    /// Append the bytes to the active file.
    Append,
    /// The write is done.
    Done,
    /// The write failed with the error of the last step.
    Failed,
}

/// What came of a step.
#[derive(Clone, Copy, PartialEq, Eq, Structural, Debug)]
pub enum WriteEvent {
    /// The active file is open and has this size.
    Opened(u64),
    /// Removing or renaming was tried, or there was nothing to remove or rename.
    Moved,
    /// All bytes were written.
    Wrote,
    /// The step failed.
    Error,
}

/// The state of the log between two steps.
#[derive(Clone, Copy, PartialEq, Eq, Structural, Debug)]
pub struct RollingFileWriter {
    /// The size beyond which the active file does not grow by a further write.
    pub max_size: u64,
    /// The size of the active file, where it is open.
    pub current_size: Option<u64>,
}

impl RollingFileWriter {
    /// A writer with no file open yet.
    pub fn new(max_size: u64) -> (r: Self)
        ensures
            r.max_size == max_size,
            r.current_size is None,
    {
        RollingFileWriter { max_size, current_size: None }
    }

    /// The writer with another size on record.
    pub open spec fn with_size(self, size: Option<u64>) -> Self {
        RollingFileWriter { max_size: self.max_size, current_size: size }
    }

    /// With `size` bytes in the open file: append `len` more if the limit allows it, else close
    /// the file and rotate.
    pub open spec fn decided(self, size: u64, len: u64) -> (Self, WriteStep) {
        if size + len > self.max_size {
            (self.with_size(None), WriteStep::DropOldest)
        } else {
            (self.with_size(Some(size)), WriteStep::Append)
        }
    }

    /// The writer and its first step for a write of `len` bytes.
    pub open spec fn begun(self, len: u64) -> (Self, WriteStep) {
        match self.current_size {
            None => (self, WriteStep::OpenAppend),
            Some(size) => self.decided(size, len),
        }
    }

    /// The writer and its next step once `event` came of `step`. An event that does not belong
    /// to the step changes nothing.
    pub open spec fn stepped(self, step: WriteStep, len: u64, event: WriteEvent) -> (
        Self,
        WriteStep,
    ) {
        match (step, event) {
            (WriteStep::OpenAppend, WriteEvent::Opened(size)) => self.decided(size, len),
            (WriteStep::DropOldest, WriteEvent::Moved) => (self, WriteStep::ShiftBackup),
            (WriteStep::ShiftBackup, WriteEvent::Moved) => (self, WriteStep::ShiftActive),
            (WriteStep::ShiftActive, WriteEvent::Moved) => (self, WriteStep::OpenFresh),
            (WriteStep::OpenFresh, WriteEvent::Opened(_)) => (
                self.with_size(Some(0)),
                WriteStep::Append,
            ),
            (WriteStep::Append, WriteEvent::Wrote) => (
                self.with_size(Some((self.current_size->0 + len) as u64)),
                WriteStep::Done,
            ),
            (WriteStep::OpenAppend, WriteEvent::Error) => (self, WriteStep::Failed),
            (WriteStep::OpenFresh, WriteEvent::Error) => (self, WriteStep::Failed),
            (WriteStep::Append, WriteEvent::Error) => (self, WriteStep::Failed),
            _ => (self, step),
        }
    }

    /// A step that the writer itself gave out for a write of `len` bytes: where it is to
    /// append, a file is open and the sum of the sizes is a number.
    pub open spec fn may_do(self, step: WriteStep, len: u64) -> bool {
        step == WriteStep::Append ==> self.current_size is Some && self.current_size->0 + len
            <= u64::MAX
    }

    /// With `size` bytes in the open file, decides between appending and rotating.
    fn decide(&mut self, size: u64, len: u64) -> (r: WriteStep)
        ensures
            (*final(self), r) == old(self).decided(size, len),
    {
        if size > self.max_size || len > self.max_size - size {
            self.current_size = None;
            WriteStep::DropOldest
        } else {
            self.current_size = Some(size);
            WriteStep::Append
        }
    }

    /// Begins a write of `len` bytes.
    pub fn write_buf(&mut self, len: u64) -> (r: WriteStep)
        ensures
            (*final(self), r) == old(self).begun(len),
            final(self).may_do(r, len),
    {
        match self.current_size {
            None => WriteStep::OpenAppend,
            Some(size) => self.decide(size, len),
        }
    }

    /// Goes on with a write of `len` bytes once `event` came of `step`.
    pub fn advance(&mut self, step: WriteStep, len: u64, event: WriteEvent) -> (r: WriteStep)
        requires
            old(self).may_do(step, len),
        ensures
            (*final(self), r) == old(self).stepped(step, len, event),
            final(self).may_do(r, len),
    {
        match (step, event) {
            (WriteStep::OpenAppend, WriteEvent::Opened(size)) => self.decide(size, len),
            (WriteStep::DropOldest, WriteEvent::Moved) => WriteStep::ShiftBackup,
            (WriteStep::ShiftBackup, WriteEvent::Moved) => WriteStep::ShiftActive,
            (WriteStep::ShiftActive, WriteEvent::Moved) => WriteStep::OpenFresh,
            (WriteStep::OpenFresh, WriteEvent::Opened(_)) => {
                self.current_size = Some(0);
                WriteStep::Append
            },
            (WriteStep::Append, WriteEvent::Wrote) => {
                match self.current_size {
                    Some(size) => {
                        self.current_size = Some(size + len);
                    },
                    None => {},
                }
                WriteStep::Done
            },
            (WriteStep::OpenAppend, WriteEvent::Error) => WriteStep::Failed,
            (WriteStep::OpenFresh, WriteEvent::Error) => WriteStep::Failed,
            (WriteStep::Append, WriteEvent::Error) => WriteStep::Failed,
            _ => step,
        }
    }
}

/// Whatever has failed before, bytes are appended only within the limit or to an empty file.
pub proof fn law_append_keeps_the_limit(
    writer: RollingFileWriter,
    step: WriteStep,
    len: u64,
    event: WriteEvent,
)
    requires
        step != WriteStep::Append,
    ensures
        ({
            let (after, next) = writer.begun(len);
            next == WriteStep::Append ==> after.current_size->0 + len <= writer.max_size
        }),
        ({
            let (after, next) = writer.stepped(step, len, event);
            next == WriteStep::Append ==> after.current_size == Some(0u64)
                || after.current_size->0 + len <= writer.max_size
        }),
{
}

/// Whether an answer is one to this step.
pub open spec fn answers_write(step: WriteStep, event: WriteEvent) -> bool {
    match step {
        WriteStep::OpenAppend | WriteStep::OpenFresh => event is Opened || event
            == WriteEvent::Error,
        WriteStep::DropOldest | WriteStep::ShiftBackup | WriteStep::ShiftActive => event
            == WriteEvent::Moved,
        WriteStep::Append => event == WriteEvent::Wrote || event == WriteEvent::Error,
        WriteStep::Done | WriteStep::Failed => false,
    }
}

/// A write moves on at every answer to its step and at nothing else. It fails if and only if the
/// file could not be opened or not be written to, and then the size on record is what it was. The
/// limit never changes.
pub proof fn law_write_moves_on(
    writer: RollingFileWriter,
    step: WriteStep,
    len: u64,
    event: WriteEvent,
)
    ensures
        ({
            let (after, next) = writer.stepped(step, len, event);
            &&& next != step <==> answers_write(step, event)
            &&& !answers_write(step, event) ==> after == writer
            &&& after.max_size == writer.max_size
            &&& answers_write(step, event) ==> (next == WriteStep::Failed <==> event
                == WriteEvent::Error)
            &&& next == WriteStep::Failed ==> after == writer
            &&& answers_write(step, event) && next == WriteStep::Done ==> step
                == WriteStep::Append && event == WriteEvent::Wrote
        }),
{
}

/// The contents of the log directory; `None` stands for a file that is not there.
pub struct LogDir {
    pub active: Option<Seq<u8>>,
    pub backup1: Option<Seq<u8>>,
    pub backup2: Option<Seq<u8>>,
}

/// The bytes of a file, none where it is not there.
pub open spec fn bytes_in(file: Option<Seq<u8>>) -> Seq<u8> {
    match file {
        Some(bytes) => bytes,
        None => Seq::empty(),
    }
}

impl LogDir {
    /// The directory once a step has been done without fault.
    pub open spec fn after(self, step: WriteStep, buf: Seq<u8>) -> Self {
        match step {
            WriteStep::OpenAppend => LogDir { active: Some(bytes_in(self.active)), ..self },
            WriteStep::DropOldest => LogDir { backup2: None, ..self },
            WriteStep::ShiftBackup => if self.backup1 is Some {
                LogDir { backup2: self.backup1, backup1: None, ..self }
            } else {
                self
            },
            WriteStep::ShiftActive => if self.active is Some {
                LogDir { backup1: self.active, active: None, ..self }
            } else {
                self
            },
            WriteStep::OpenFresh => LogDir { active: Some(Seq::empty()), ..self },
            WriteStep::Append => LogDir { active: Some(bytes_in(self.active) + buf), ..self },
            _ => self,
        }
    }

    /// What the caller reports of a step that was done without fault and left this directory.
    pub open spec fn report(self, step: WriteStep) -> WriteEvent {
        match step {
            WriteStep::OpenAppend | WriteStep::OpenFresh => WriteEvent::Opened(
                bytes_in(self.active).len() as u64,
            ),
            WriteStep::Append => WriteEvent::Wrote,
            _ => WriteEvent::Moved,
        }
    }

    /// Everything that the log still holds, oldest first.
    pub open spec fn history(self) -> Seq<u8> {
        bytes_in(self.backup2) + bytes_in(self.backup1) + bytes_in(self.active)
    }

    /// The size on record is that of the active file.
    pub open spec fn agrees(self, writer: RollingFileWriter) -> bool {
        &&& bytes_in(self.active).len() <= u64::MAX
        &&& writer.current_size is Some ==> self.active is Some && writer.current_size->0
            == bytes_in(self.active).len()
    }
}

/// The writer and the directory after at most `fuel` steps, each done without fault.
pub open spec fn played(
    writer: RollingFileWriter,
    dir: LogDir,
    step: WriteStep,
    buf: Seq<u8>,
    fuel: nat,
) -> (RollingFileWriter, LogDir, WriteStep)
    decreases fuel,
{
    if fuel == 0 || step == WriteStep::Done || step == WriteStep::Failed {
        (writer, dir, step)
    } else {
        let next_dir = dir.after(step, buf);
        let (next_writer, next_step) = writer.stepped(
            step,
            buf.len() as u64,
            next_dir.report(step),
        );
        played(next_writer, next_dir, next_step, buf, (fuel - 1) as nat)
    }
}

/// The writer and the directory after one whole write, each of its steps done without fault.
/// No write takes more than six steps.
pub open spec fn written(writer: RollingFileWriter, dir: LogDir, buf: Seq<u8>) -> (
    RollingFileWriter,
    LogDir,
    WriteStep,
) {
    let (begun, step) = writer.begun(buf.len() as u64);
    played(begun, dir, step, buf, 6)
}

/// The last step of a write.
proof fn lemma_append(writer: RollingFileWriter, dir: LogDir, buf: Seq<u8>, fuel: nat)
    requires
        fuel > 0,
        writer.current_size is Some,
    ensures
        played(writer, dir, WriteStep::Append, buf, fuel) == (
            writer.with_size(Some((writer.current_size->0 + buf.len() as u64) as u64)),
            dir.after(WriteStep::Append, buf),
            WriteStep::Done,
        ),
{
    reveal_with_fuel(played, 2);
}

/// A rotation from its first step on.
proof fn lemma_rotate(writer: RollingFileWriter, dir: LogDir, buf: Seq<u8>, fuel: nat)
    requires
        fuel >= 5,
        dir.active is Some,
        buf.len() <= u64::MAX,
    ensures
        played(writer, dir, WriteStep::DropOldest, buf, fuel) == (
            writer.with_size(Some(buf.len() as u64)),
            LogDir { active: Some(buf), backup1: dir.active, backup2: dir.backup1 },
            WriteStep::Done,
        ),
{
    let dropped = dir.after(WriteStep::DropOldest, buf);
    let shifted = dropped.after(WriteStep::ShiftBackup, buf);
    let aside = shifted.after(WriteStep::ShiftActive, buf);
    let fresh = aside.after(WriteStep::OpenFresh, buf);
    assert(played(writer, dir, WriteStep::DropOldest, buf, fuel) == played(
        writer,
        dropped,
        WriteStep::ShiftBackup,
        buf,
        (fuel - 1) as nat,
    ));
    assert(played(writer, dropped, WriteStep::ShiftBackup, buf, (fuel - 1) as nat) == played(
        writer,
        shifted,
        WriteStep::ShiftActive,
        buf,
        (fuel - 2) as nat,
    ));
    assert(played(writer, shifted, WriteStep::ShiftActive, buf, (fuel - 2) as nat) == played(
        writer,
        aside,
        WriteStep::OpenFresh,
        buf,
        (fuel - 3) as nat,
    ));
    assert(played(writer, aside, WriteStep::OpenFresh, buf, (fuel - 3) as nat) == played(
        writer.with_size(Some(0)),
        fresh,
        WriteStep::Append,
        buf,
        (fuel - 4) as nat,
    ));
    lemma_append(writer.with_size(Some(0)), fresh, buf, (fuel - 4) as nat);
    assert(Seq::<u8>::empty() + buf =~= buf);
}

/// A write appends to the active file as long as the limit holds. Else the first backup
/// becomes the second, the active file the first backup, and the bytes begin a new file. The
/// size on record stays that of the file.
pub proof fn law_write(writer: RollingFileWriter, dir: LogDir, buf: Seq<u8>)
    requires
        dir.agrees(writer),
        buf.len() <= u64::MAX,
    ensures
        ({
            let (after_writer, after, step) = written(writer, dir, buf);
            let text = bytes_in(dir.active);
            &&& step == WriteStep::Done
            &&& after.agrees(after_writer)
            &&& after_writer.max_size == writer.max_size
            &&& after_writer.current_size is Some
            &&& if text.len() + buf.len() <= writer.max_size {
                &&& after.active == Some(text + buf)
                &&& after.backup1 == dir.backup1
                &&& after.backup2 == dir.backup2
            } else {
                &&& after.active == Some(buf)
                &&& after.backup1 == Some(text)
                &&& after.backup2 == dir.backup1
            }
        }),
{
    let len = buf.len() as u64;
    let text = bytes_in(dir.active);
    let open = LogDir { active: Some(text), ..dir };
    let (begun, step) = writer.begun(len);
    let fuel: nat = if writer.current_size is Some {
        6
    } else {
        5
    };
    let (decided, next) = writer.decided(text.len() as u64, len);
    assert(written(writer, dir, buf) == played(decided, open, next, buf, fuel)) by {
        if writer.current_size is None {
            assert(played(begun, dir, WriteStep::OpenAppend, buf, 6) == played(
                decided,
                open,
                next,
                buf,
                5,
            ));
        }
    }
    if text.len() + buf.len() <= writer.max_size {
        lemma_append(decided, open, buf, fuel);
    } else {
        lemma_rotate(decided, open, buf, fuel);
    }
}

/// After a write the active file is within the limit, unless the write alone exceeds it.
pub proof fn law_active_file_is_bounded(writer: RollingFileWriter, dir: LogDir, buf: Seq<u8>)
    requires
        dir.agrees(writer),
        buf.len() <= u64::MAX,
    ensures
        ({
            let after = written(writer, dir, buf).1;
            bytes_in(after.active).len() <= writer.max_size || bytes_in(after.active) == buf
        }),
{
    law_write(writer, dir, buf);
}

/// What the directory may look like once `event` came of `step`. Removing and renaming may fail,
/// which changes nothing and is not reported. Opening may fail. A write that fails may leave
/// anything in the active file.
pub open spec fn may_become(
    dir: LogDir,
    step: WriteStep,
    buf: Seq<u8>,
    event: WriteEvent,
    after: LogDir,
) -> bool {
    match (step, event) {
        (WriteStep::DropOldest, WriteEvent::Moved)
        | (WriteStep::ShiftBackup, WriteEvent::Moved)
        | (WriteStep::ShiftActive, WriteEvent::Moved) => after == dir || after == dir.after(
            step,
            buf,
        ),
        (WriteStep::OpenAppend, WriteEvent::Opened(size)) => {
            &&& after == dir.after(step, buf)
            &&& bytes_in(after.active).len() == size
        },
        (WriteStep::OpenFresh, WriteEvent::Opened(_)) => after == dir.after(step, buf),
        (WriteStep::OpenAppend, WriteEvent::Error) => after == dir || after == dir.after(step, buf),
        (WriteStep::OpenFresh, WriteEvent::Error) => after == dir || after == dir.after(step, buf),
        (WriteStep::Append, WriteEvent::Wrote) => after == dir.after(step, buf),
        (WriteStep::Append, WriteEvent::Error) => {
            &&& after.backup1 == dir.backup1
            &&& after.backup2 == dir.backup2
        },
        _ => false,
    }
}

/// One write of `buf`, whatever fails on the way.
pub open spec fn is_write(
    writers: Seq<RollingFileWriter>,
    dirs: Seq<LogDir>,
    steps: Seq<WriteStep>,
    events: Seq<WriteEvent>,
    writer: RollingFileWriter,
    buf: Seq<u8>,
) -> bool {
    &&& writers.len() == events.len() + 1
    &&& dirs.len() == events.len() + 1
    &&& steps.len() == events.len() + 1
    &&& (writers[0], steps[0]) == writer.begun(buf.len() as u64)
    &&& forall|k: int|
        0 <= k < events.len() ==> {
            &&& (writers[k + 1], steps[k + 1]) == (#[trigger] writers[k]).stepped(
                steps[k],
                buf.len() as u64,
                events[k],
            )
            &&& may_become(dirs[k], steps[k], buf, events[k], dirs[k + 1])
        }
}

/// Before position `k` of a write, no append failed half-way.
pub open spec fn no_half_write(
    steps: Seq<WriteStep>,
    events: Seq<WriteEvent>,
    k: int,
) -> bool {
    forall|i: int|
        0 <= i < k && #[trigger] steps[i] == WriteStep::Append ==> events[i] != WriteEvent::Error
}

/// What holds at every step of a write to an active file that held `before`, as long as no append
/// failed half-way: the size on record is that of the file, and up to the append the file holds
/// what it held or nothing.
pub open spec fn is_on_record(
    writer: RollingFileWriter,
    dir: LogDir,
    step: WriteStep,
    before: Seq<u8>,
    buf: Seq<u8>,
) -> bool {
    let text = bytes_in(dir.active);
    &&& dir.agrees(writer)
    &&& match step {
        WriteStep::Append => {
            &&& writer.current_size is Some
            &&& text.len() == 0 || (text == before && text.len() + buf.len() <= writer.max_size)
        },
        WriteStep::Done => {
            &&& writer.current_size is Some
            &&& text.len() <= writer.max_size || text == buf
        },
        _ => {
            &&& writer.current_size is None
            &&& text == before || text.len() == 0
        },
    }
}

/// Faults do not break the limit. Whatever could not be removed, renamed or opened, a write that
/// is done has left the active file within the limit or with nothing but its own bytes in it. A
/// write that failed has left it as it was or empty, unless it failed half-way through an append.
/// Either way the size on record is that of the file.
pub proof fn law_limit_holds_despite_faults(
    writers: Seq<RollingFileWriter>,
    dirs: Seq<LogDir>,
    steps: Seq<WriteStep>,
    events: Seq<WriteEvent>,
    writer: RollingFileWriter,
    buf: Seq<u8>,
    k: int,
)
    requires
        is_write(writers, dirs, steps, events, writer, buf),
        dirs[0].agrees(writer),
        buf.len() <= u64::MAX,
        0 <= k < steps.len(),
        no_half_write(steps, events, k),
    ensures
        writers[k].max_size == writer.max_size,
        is_on_record(writers[k], dirs[k], steps[k], bytes_in(dirs[0].active), buf),
        dirs[k].agrees(writers[k]),
        steps[k] == WriteStep::Done ==> bytes_in(dirs[k].active).len() <= writer.max_size
            || bytes_in(dirs[k].active) == buf,
        steps[k] == WriteStep::Failed ==> bytes_in(dirs[k].active) == bytes_in(dirs[0].active)
            || bytes_in(dirs[k].active).len() == 0,
    decreases k,
{
    if k > 0 {
        law_limit_holds_despite_faults(writers, dirs, steps, events, writer, buf, k - 1);
        let before = writers[k - 1];
        assert((writers[k - 1 + 1], steps[k - 1 + 1]) == before.stepped(
            steps[k - 1],
            buf.len() as u64,
            events[k - 1],
        ));
        assert(may_become(dirs[k - 1], steps[k - 1], buf, events[k - 1], dirs[k - 1 + 1]));
        if steps[k - 1] == WriteStep::Append {
            assert(events[k - 1] != WriteEvent::Error);
            if bytes_in(dirs[k - 1].active).len() == 0 {
                assert(bytes_in(dirs[k - 1].active) + buf =~= buf);
            }
        }
    }
}

/// One write, step by step.
pub struct WriteRun {
    pub writers: Seq<RollingFileWriter>,
    pub dirs: Seq<LogDir>,
    pub steps: Seq<WriteStep>,
    pub events: Seq<WriteEvent>,
    pub buf: Seq<u8>,
}

/// The writer once the first `n` writes are over.
pub open spec fn writer_after(
    runs: Seq<WriteRun>,
    writer: RollingFileWriter,
    n: int,
) -> RollingFileWriter {
    if n <= 0 {
        writer
    } else {
        runs[n - 1].writers.last()
    }
}

/// The directory once the first `n` writes are over.
pub open spec fn dir_after(runs: Seq<WriteRun>, dir: LogDir, n: int) -> LogDir {
    if n <= 0 {
        dir
    } else {
        runs[n - 1].dirs.last()
    }
}

/// Writes one after another, from this writer and this directory on, each with any faults but an
/// append that failed half-way.
pub open spec fn are_writes(
    runs: Seq<WriteRun>,
    writer: RollingFileWriter,
    dir: LogDir,
) -> bool {
    forall|i: int|
        0 <= i < runs.len() ==> {
            let run = #[trigger] runs[i];
            &&& is_write(
                run.writers,
                run.dirs,
                run.steps,
                run.events,
                writer_after(runs, writer, i),
                run.buf,
            )
            &&& run.dirs[0] == dir_after(runs, dir, i)
            &&& run.buf.len() <= u64::MAX
            &&& run.steps.last() == WriteStep::Done || run.steps.last() == WriteStep::Failed
            &&& no_half_write(run.steps, run.events, run.events.len() as int)
        }
}

/// The active file is within the limit, or it holds nothing but the bytes of one of the first `n`
/// writes.
pub open spec fn is_within(
    file: Option<Seq<u8>>,
    max_size: u64,
    runs: Seq<WriteRun>,
    n: int,
) -> bool {
    bytes_in(file).len() <= max_size || exists|i: int|
        0 <= i < n && bytes_in(file) == (#[trigger] runs[i]).buf
}

/// None of the first `n` writes has succeeded.
pub open spec fn none_done(runs: Seq<WriteRun>, n: int) -> bool {
    forall|i: int| 0 <= i < n ==> (#[trigger] runs[i]).steps.last() == WriteStep::Failed
}

/// However many writes there are and whatever fails in them, but for an append half-way, the
/// active file stays within the limit, unless it holds nothing but one write that alone exceeds
/// it, and the size on record is that of the file. A file that was found too large is so until
/// the first write that succeeds.
pub proof fn law_limit_holds_over_many_writes(
    runs: Seq<WriteRun>,
    writer: RollingFileWriter,
    dir: LogDir,
    n: int,
)
    requires
        are_writes(runs, writer, dir),
        dir.agrees(writer),
        0 <= n <= runs.len(),
    ensures
        writer_after(runs, writer, n).max_size == writer.max_size,
        dir_after(runs, dir, n).agrees(writer_after(runs, writer, n)),
        is_within(dir_after(runs, dir, n).active, writer.max_size, runs, n) || (none_done(runs, n)
            && bytes_in(dir_after(runs, dir, n).active) == bytes_in(dir.active)),
    decreases n,
{
    if n > 0 {
        law_limit_holds_over_many_writes(runs, writer, dir, n - 1);
        let run = runs[n - 1];
        let last = run.events.len() as int;
        law_limit_holds_despite_faults(
            run.writers,
            run.dirs,
            run.steps,
            run.events,
            writer_after(runs, writer, n - 1),
            run.buf,
            last,
        );
        let text = bytes_in(run.dirs.last().active);
        if text.len() > writer.max_size && text != run.buf {
            assert(text == bytes_in(run.dirs[0].active));
            assert(run.steps.last() == WriteStep::Failed);
            if is_within(run.dirs[0].active, writer.max_size, runs, n - 1) {
                let i = choose|i: int|
                    0 <= i < n - 1 && bytes_in(run.dirs[0].active) == (#[trigger] runs[i]).buf;
                assert(text == runs[i].buf);
            }
        }
    }
}

/// A write loses nothing but the oldest backup, and that only when it rotates: what the log
/// holds afterwards is what it held, less that backup, with the new bytes behind.
pub proof fn law_write_keeps_history(writer: RollingFileWriter, dir: LogDir, buf: Seq<u8>)
    requires
        dir.agrees(writer),
        buf.len() <= u64::MAX,
    ensures
        written(writer, dir, buf).1.history() == (if bytes_in(dir.active).len() + buf.len()
            <= writer.max_size {
            dir.history() + buf
        } else {
            dir.history().skip(bytes_in(dir.backup2).len() as int) + buf
        }),
{
    law_write(writer, dir, buf);
    let after = written(writer, dir, buf).1;
    let text = bytes_in(dir.active);
    if text.len() + buf.len() <= writer.max_size {
        assert(after.history() =~= dir.history() + buf);
    } else {
        assert(after.history() =~= dir.history().skip(bytes_in(dir.backup2).len() as int) + buf);
    }
}

/// The writer and the directory after several whole writes.
pub open spec fn all_written(writer: RollingFileWriter, dir: LogDir, bufs: Seq<Seq<u8>>) -> (
    RollingFileWriter,
    LogDir,
)
    decreases bufs.len(),
{
    if bufs.len() == 0 {
        (writer, dir)
    } else {
        let (before_writer, before) = all_written(writer, dir, bufs.drop_last());
        let (after_writer, after, _) = written(before_writer, before, bufs.last());
        (after_writer, after)
    }
}

/// A tail of a text, cut shorter and continued, is a tail of the text so continued.
proof fn lemma_tail_grows(whole: Seq<u8>, tail: Seq<u8>, cut: int, more: Seq<u8>)
    requires
        tail.is_suffix_of(whole),
        0 <= cut <= tail.len(),
    ensures
        (tail.skip(cut) + more).is_suffix_of(whole + more),
        more.is_suffix_of(tail.skip(cut) + more),
{
    let kept = tail.skip(cut) + more;
    let total = whole + more;
    let n = kept.len() as int;
    assert(tail =~= whole.subrange(whole.len() - tail.len(), whole.len() as int));
    assert(kept =~= total.subrange(total.len() - n, total.len() as int));
    assert(more =~= kept.subrange(n - more.len(), n));
}

/// However many writes there are, the log holds a tail of everything written, in order, its end
/// included, and the size on record is that of the active file.
pub proof fn law_log_is_a_tail(writer: RollingFileWriter, dir: LogDir, bufs: Seq<Seq<u8>>)
    requires
        dir.agrees(writer),
        forall|i: int| 0 <= i < bufs.len() ==> (#[trigger] bufs[i]).len() <= u64::MAX,
    ensures
        ({
            let (after_writer, after) = all_written(writer, dir, bufs);
            &&& after.agrees(after_writer)
            &&& after_writer.max_size == writer.max_size
            &&& after.history().is_suffix_of(dir.history() + bufs.flatten())
            &&& bufs.len() > 0 ==> bufs.last().is_suffix_of(after.history())
        }),
    decreases bufs.len(),
{
    if bufs.len() == 0 {
        assert(bufs.flatten() =~= Seq::<u8>::empty());
        assert(dir.history() + bufs.flatten() =~= dir.history());
        assert(dir.history().subrange(0, dir.history().len() as int) =~= dir.history());
    } else {
        let rest = bufs.drop_last();
        let buf = bufs.last();
        law_log_is_a_tail(writer, dir, rest);
        let (before_writer, before) = all_written(writer, dir, rest);
        law_write(before_writer, before, buf);
        law_write_keeps_history(before_writer, before, buf);
        let after = written(before_writer, before, buf).1;
        let whole = dir.history() + rest.flatten();
        assert(bufs =~= rest.push(buf));
        rest.lemma_flatten_push(buf);
        assert(dir.history() + bufs.flatten() =~= whole + buf);
        let h = before.history();
        let cut = if bytes_in(before.active).len() + buf.len() <= writer.max_size {
            0
        } else {
            bytes_in(before.backup2).len() as int
        };
        assert(h.skip(0) =~= h);
        lemma_tail_grows(whole, h, cut, buf);
    }
}

} // verus!
