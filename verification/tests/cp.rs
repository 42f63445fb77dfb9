use mini_coreutils::cp::{after_read, after_write, CopyError, CopyStep, ReadOutcome, WriteOutcome};

#[test]
fn read_decides_next_step() {
    assert_eq!(after_read(ReadOutcome::Filled(0)), CopyStep::Done);
    assert_eq!(after_read(ReadOutcome::Filled(1)), CopyStep::Write(1));
    assert_eq!(after_read(ReadOutcome::Filled(8192)), CopyStep::Write(8192));
    assert_eq!(after_read(ReadOutcome::Interrupted), CopyStep::Read);
    assert_eq!(after_read(ReadOutcome::Failed), CopyStep::Fail(CopyError::ReadFailed));
}

#[test]
fn write_decides_next_step() {
    assert_eq!(after_write(10, WriteOutcome::Took(10)), CopyStep::Read);
    assert_eq!(
        after_write(10, WriteOutcome::Took(4)),
        CopyStep::Fail(CopyError::ShortWrite { wrote: 4, had: 10 })
    );
    assert_eq!(
        after_write(10, WriteOutcome::Took(0)),
        CopyStep::Fail(CopyError::ShortWrite { wrote: 0, had: 10 })
    );
    assert_eq!(after_write(10, WriteOutcome::Interrupted), CopyStep::Write(10));
    assert_eq!(after_write(10, WriteOutcome::Failed), CopyStep::Fail(CopyError::WriteFailed));
}

#[test]
fn copy_of_a_source_in_chunks_loses_nothing() {
    let source: Vec<u8> = (0..20000u32).map(|i| (i % 251) as u8).collect();
    let mut target: Vec<u8> = Vec::new();
    let mut offset = 0usize;
    let mut interruptions = 0;
    let mut step = CopyStep::Read;
    let mut buf: Vec<u8> = Vec::new();
    loop {
        step = match step {
            CopyStep::Read => {
                interruptions += 1;
                if interruptions % 3 == 0 {
                    after_read(ReadOutcome::Interrupted)
                } else {
                    let n = (source.len() - offset).min(8192);
                    buf = source[offset..offset + n].to_vec();
                    offset += n;
                    after_read(ReadOutcome::Filled(n))
                }
            }
            CopyStep::Write(n) => {
                interruptions += 1;
                if interruptions % 4 == 0 {
                    after_write(n, WriteOutcome::Interrupted)
                } else {
                    target.extend_from_slice(&buf[..n]);
                    after_write(n, WriteOutcome::Took(n))
                }
            }
            CopyStep::Done => break,
            CopyStep::Fail(e) => panic!("copy failed: {:?}", e),
        };
    }
    assert_eq!(target, source);
}
