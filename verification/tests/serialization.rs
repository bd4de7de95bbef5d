use ex_monty::{
    dump_future_snapshot, dump_runner, dump_snapshot, load_future_snapshot, load_runner,
    load_snapshot, resume, resume_futures, ResumeError, RunnerResource, Term,
};

#[test]
fn dump_runner_copies_program_and_names() {
    let handle = RunnerResource::new(vec![1u8, 2, 3], vec!["x".to_string(), "y".to_string()]);
    let (program, names) = dump_runner(&handle);
    assert_eq!(program, vec![1, 2, 3]);
    assert_eq!(names, vec!["x".to_string(), "y".to_string()]);
    // The handle is still whole.
    assert_eq!(dump_runner(&handle), (vec![1, 2, 3], vec!["x".to_string(), "y".to_string()]));
}

#[test]
fn load_runner_gives_back_what_was_dumped() {
    let handle = RunnerResource::new("program", vec!["x".to_string()]);
    let (program, names) = dump_runner(&handle);
    let loaded = load_runner(program, names);
    assert_eq!(*loaded.runner(), "program");
    assert_eq!(loaded.input_names(), handle.input_names());
}

#[test]
fn dump_snapshot_consumes() {
    let mut slot = load_snapshot("state");
    assert_eq!(dump_snapshot(&mut slot), Ok("state"));
    assert_eq!(dump_snapshot(&mut slot), Err(ResumeError::AlreadyConsumed));
    assert_eq!(
        resume(&mut slot, &Term::Integer(1)).map(|_| ()),
        Err(ResumeError::AlreadyConsumed)
    );
}

#[test]
fn dump_snapshot_after_resume_fails() {
    let mut slot = load_snapshot("state");
    assert!(resume(&mut slot, &Term::Integer(1)).is_ok());
    assert_eq!(dump_snapshot(&mut slot), Err(ResumeError::AlreadyConsumed));
}

#[test]
fn load_snapshot_of_what_was_dumped_can_be_consumed_again() {
    let mut slot = load_snapshot(41u8);
    let state = dump_snapshot(&mut slot).unwrap();
    let mut again = load_snapshot(state);
    assert_eq!(dump_snapshot(&mut again), Ok(41));
    assert_eq!(dump_snapshot(&mut again), Err(ResumeError::AlreadyConsumed));
}

#[test]
fn dump_future_snapshot_consumes() {
    let mut slot = load_future_snapshot(vec![1u32, 2]);
    assert_eq!(dump_future_snapshot(&mut slot), Ok(vec![1, 2]));
    assert_eq!(dump_future_snapshot(&mut slot), Err(ResumeError::AlreadyConsumed));
    assert_eq!(
        resume_futures(&mut slot, &vec![]).map(|_| ()),
        Err(ResumeError::AlreadyConsumed)
    );
}

#[test]
fn dump_future_snapshot_after_resume_fails() {
    let mut slot = load_future_snapshot("batch");
    assert!(resume_futures(&mut slot, &vec![]).is_ok());
    assert_eq!(dump_future_snapshot(&mut slot), Err(ResumeError::AlreadyConsumed));
}
