use koharu::rolling_log::{LogFile, RollingFileWriter, WriteEvent, WriteStep};

/// A log directory in memory.
#[derive(Default)]
struct Files {
    active: Option<Vec<u8>>,
    backup1: Option<Vec<u8>>,
    backup2: Option<Vec<u8>>,
}

impl Files {
    fn perform(&mut self, step: WriteStep, buf: &[u8]) -> WriteEvent {
        match step {
            WriteStep::OpenAppend => {
                let file = self.active.get_or_insert_with(Vec::new);
                WriteEvent::Opened(file.len() as u64)
            }
            WriteStep::DropOldest => {
                self.backup2 = None;
                WriteEvent::Moved
            }
            WriteStep::ShiftBackup => {
                if self.backup1.is_some() {
                    self.backup2 = self.backup1.take();
                }
                WriteEvent::Moved
            }
            WriteStep::ShiftActive => {
                if self.active.is_some() {
                    self.backup1 = self.active.take();
                }
                WriteEvent::Moved
            }
            WriteStep::OpenFresh => {
                self.active = Some(Vec::new());
                WriteEvent::Opened(0)
            }
            WriteStep::Append => {
                self.active.as_mut().unwrap().extend_from_slice(buf);
                WriteEvent::Wrote
            }
            WriteStep::Done | WriteStep::Failed => unreachable!(),
        }
    }

    fn write(&mut self, writer: &mut RollingFileWriter, buf: &[u8]) {
        let len = buf.len() as u64;
        let mut step = writer.write_buf(len);
        while step != WriteStep::Done {
            let event = self.perform(step, buf);
            step = writer.advance(step, len, event);
        }
    }

    fn history(&self) -> Vec<u8> {
        let mut all = Vec::new();
        for file in [&self.backup2, &self.backup1, &self.active] {
            if let Some(bytes) = file {
                all.extend_from_slice(bytes);
            }
        }
        all
    }
}

#[test]
fn files_have_their_names() {
    assert_eq!(LogFile::Active.file_name(), "koharu.log");
    assert_eq!(LogFile::Backup1.file_name(), "koharu.1.log");
    assert_eq!(LogFile::Backup2.file_name(), "koharu.2.log");
}

#[test]
fn first_write_opens_the_file() {
    let mut writer = RollingFileWriter::new(10);
    assert_eq!(writer.current_size, None);
    assert_eq!(writer.max_size, 10);
    assert_eq!(writer.write_buf(4), WriteStep::OpenAppend);
    assert_eq!(writer.advance(WriteStep::OpenAppend, 4, WriteEvent::Opened(6)), WriteStep::Append);
    assert_eq!(writer.current_size, Some(6));
    assert_eq!(writer.advance(WriteStep::Append, 4, WriteEvent::Wrote), WriteStep::Done);
    assert_eq!(writer.current_size, Some(10));
}

#[test]
fn the_limit_itself_is_allowed() {
    let mut writer = RollingFileWriter { max_size: 10, current_size: Some(6) };
    assert_eq!(writer.write_buf(4), WriteStep::Append);
    let mut writer = RollingFileWriter { max_size: 10, current_size: Some(6) };
    assert_eq!(writer.write_buf(5), WriteStep::DropOldest);
    assert_eq!(writer.current_size, None);
}

#[test]
fn a_file_found_too_large_is_set_aside() {
    let mut writer = RollingFileWriter::new(10);
    writer.write_buf(1);
    let step = writer.advance(WriteStep::OpenAppend, 1, WriteEvent::Opened(u64::MAX));
    assert_eq!(step, WriteStep::DropOldest);
}

#[test]
fn rotation_shifts_every_file() {
    let mut writer = RollingFileWriter::new(4);
    let mut files = Files::default();
    for line in ["aaaa", "bbbb", "cccc", "dddd"] {
        files.write(&mut writer, line.as_bytes());
    }
    assert_eq!(files.active, Some(b"dddd".to_vec()));
    assert_eq!(files.backup1, Some(b"cccc".to_vec()));
    assert_eq!(files.backup2, Some(b"bbbb".to_vec()));
    assert_eq!(writer.current_size, Some(4));
}

#[test]
fn an_oversized_write_has_a_file_of_its_own() {
    let mut writer = RollingFileWriter::new(4);
    let mut files = Files::default();
    files.write(&mut writer, b"ab");
    files.write(&mut writer, b"0123456789");
    assert_eq!(files.active, Some(b"0123456789".to_vec()));
    assert_eq!(files.backup1, Some(b"ab".to_vec()));
    files.write(&mut writer, b"x");
    assert_eq!(files.active, Some(b"x".to_vec()));
    assert_eq!(files.backup1, Some(b"0123456789".to_vec()));
    assert_eq!(files.backup2, Some(b"ab".to_vec()));
}

#[test]
fn the_log_is_a_tail_of_what_was_written() {
    let mut writer = RollingFileWriter::new(7);
    let mut files = Files::default();
    let mut everything = Vec::new();
    for n in 0..40usize {
        let line = vec![b'a' + (n % 26) as u8; n % 9];
        files.write(&mut writer, &line);
        everything.extend_from_slice(&line);
        assert!(everything.ends_with(&files.history()));
        assert!(files.history().ends_with(&line));
        let active = files.active.as_ref().unwrap();
        assert_eq!(writer.current_size, Some(active.len() as u64));
        assert!(active.len() <= 7 || active == &line);
    }
}

#[test]
fn the_limit_holds_where_nothing_can_be_renamed() {
    let mut writer = RollingFileWriter::new(4);
    let mut files = Files::default();
    for line in ["aaa", "bbb", "cccccc"] {
        let buf = line.as_bytes();
        let len = buf.len() as u64;
        let mut step = writer.write_buf(len);
        while step != WriteStep::Done {
            let event = match step {
                WriteStep::DropOldest | WriteStep::ShiftBackup | WriteStep::ShiftActive => {
                    WriteEvent::Moved
                }
                _ => files.perform(step, buf),
            };
            step = writer.advance(step, len, event);
        }
        assert_eq!(files.active, Some(buf.to_vec()));
        assert_eq!(writer.current_size, Some(len));
    }
    assert_eq!(files.backup1, None);
}

#[test]
fn a_write_that_cannot_open_leaves_the_size_on_record() {
    let mut writer = RollingFileWriter::new(4);
    let mut files = Files::default();
    files.write(&mut writer, b"abc");
    // The rotation works, and then the new file cannot be opened.
    let mut step = writer.write_buf(2);
    while step != WriteStep::OpenFresh {
        let event = files.perform(step, b"xy");
        step = writer.advance(step, 2, event);
    }
    assert_eq!(writer.advance(step, 2, WriteEvent::Error), WriteStep::Failed);
    assert_eq!(writer.current_size, None);
    // The next write opens the file anew and stays within the limit.
    files.write(&mut writer, b"zz");
    assert_eq!(files.active, Some(b"zz".to_vec()));
    assert_eq!(files.backup1, Some(b"abc".to_vec()));
    assert_eq!(writer.current_size, Some(2));
}

#[test]
fn faults_end_the_write() {
    let mut writer = RollingFileWriter::new(10);
    assert_eq!(writer.advance(WriteStep::OpenAppend, 1, WriteEvent::Error), WriteStep::Failed);
    assert_eq!(writer.advance(WriteStep::OpenFresh, 1, WriteEvent::Error), WriteStep::Failed);
    assert_eq!(writer.current_size, None);
    let mut writer = RollingFileWriter { max_size: 10, current_size: Some(3) };
    assert_eq!(writer.advance(WriteStep::Append, 1, WriteEvent::Error), WriteStep::Failed);
    assert_eq!(writer.current_size, Some(3));
}

#[test]
fn a_foreign_event_changes_nothing() {
    let mut writer = RollingFileWriter { max_size: 10, current_size: Some(3) };
    assert_eq!(writer.advance(WriteStep::Append, 1, WriteEvent::Moved), WriteStep::Append);
    assert_eq!(writer.advance(WriteStep::Done, 1, WriteEvent::Error), WriteStep::Done);
    assert_eq!(writer.current_size, Some(3));
}
