use std::collections::HashMap;

use rundeck::error::{ErrorKind, PtyError};
use rundeck::pty::{
    ProcessConfig, PtyManager, ReaderAction, Session, Viewport, INITIAL_COLS, INITIAL_ROWS,
    READ_CHUNK_SIZE,
};

fn config(id: &str) -> ProcessConfig {
    ProcessConfig {
        id: id.to_string(),
        command: "sh".to_string(),
        args: vec!["-c".to_string(), "true".to_string()],
        working_dir: None,
        env: HashMap::new(),
    }
}

#[test]
fn new_manager_runs_nothing() {
    let manager: PtyManager<u32> = PtyManager::new();
    assert!(!manager.is_running("a"));
    assert!(!manager.is_running(""));
    assert_eq!(manager.generation_of("a"), None);
}

#[test]
fn default_manager_is_a_new_one() {
    let mut manager: PtyManager<u32> = PtyManager::default();
    assert!(!manager.is_running("a"));
    assert_eq!(manager.spawn_process(&config("a"), 1), 0);
}

#[test]
fn running_after_spawn() {
    let mut manager: PtyManager<u32> = PtyManager::new();
    let generation = manager.spawn_process(&config("a"), 7);
    assert_eq!(generation, 0);
    assert!(manager.is_running("a"));
    assert!(!manager.is_running("b"));
    assert_eq!(manager.generation_of("a"), Some(0));
}

#[test]
fn not_running_after_kill() {
    let mut manager: PtyManager<u32> = PtyManager::new();
    manager.spawn_process(&config("a"), 7);
    let taken = manager.kill_process("a");
    match taken {
        Ok(Session { generation, handle }) => {
            assert_eq!(generation, 0);
            assert_eq!(handle, 7);
        }
        Err(error) => panic!("{}", error.message()),
    }
    assert!(!manager.is_running("a"));
}

#[test]
fn not_running_after_end_of_stream() {
    let mut manager: PtyManager<u32> = PtyManager::new();
    let generation = manager.spawn_process(&config("a"), 7);
    let action = manager.read_output("a", generation, &[]);
    match action {
        ReaderAction::Exit(event) => {
            assert_eq!(event.id, "a");
            assert_eq!(event.code, None);
        }
        _ => panic!("the current reader owns the exit event"),
    }
    assert!(!manager.is_running("a"));
}

#[test]
fn generations_count_spawns_not_ids() {
    let mut manager: PtyManager<u32> = PtyManager::new();
    assert_eq!(manager.spawn_process(&config("a"), 1), 0);
    assert_eq!(manager.spawn_process(&config("b"), 2), 1);
    assert_eq!(manager.spawn_process(&config("c"), 3), 2);
    assert_eq!(manager.generation_of("a"), Some(0));
    assert_eq!(manager.generation_of("b"), Some(1));
    assert_eq!(manager.generation_of("c"), Some(2));
}

#[test]
fn respawn_replaces_the_session() {
    let mut manager: PtyManager<u32> = PtyManager::new();
    let first = manager.spawn_process(&config("a"), 1);
    let evicted = manager.evict("a");
    match evicted {
        Some(session) => {
            assert_eq!(session.generation, first);
            assert_eq!(session.handle, 1);
        }
        None => panic!("the occupant is handed over"),
    }
    assert!(!manager.is_running("a"));
    let second = manager.spawn_process(&config("a"), 2);
    assert!(second > first);
    assert!(manager.is_running("a"));
    assert_eq!(manager.generation_of("a"), Some(second));
    // the session that is left is the new one, and the only one
    match manager.kill_process("a") {
        Ok(session) => assert_eq!(session.handle, 2),
        Err(error) => panic!("{}", error.message()),
    }
    assert!(!manager.is_running("a"));
}

#[test]
fn respawn_without_evicting_replaces_too() {
    let mut manager: PtyManager<u32> = PtyManager::new();
    let first = manager.spawn_process(&config("a"), 1);
    let second = manager.spawn_process(&config("a"), 2);
    assert_eq!(first, 0);
    assert_eq!(second, 1);
    match manager.kill_process("a") {
        Ok(session) => {
            assert_eq!(session.generation, 1);
            assert_eq!(session.handle, 2);
        }
        Err(error) => panic!("{}", error.message()),
    }
    assert!(manager.kill_process("a").is_err());
}

#[test]
fn superseded_reader_is_silent() {
    let mut manager: PtyManager<u32> = PtyManager::new();
    let first = manager.spawn_process(&config("a"), 1);
    manager.evict("a");
    let second = manager.spawn_process(&config("a"), 2);
    assert!(matches!(manager.read_output("a", first, b"late output"), ReaderAction::Stop));
    assert!(matches!(manager.read_output("a", first, &[]), ReaderAction::Stop));
    assert!(manager.is_running("a"));
    assert_eq!(manager.generation_of("a"), Some(second));
}

#[test]
fn evict_of_absent_id_changes_nothing() {
    let mut manager: PtyManager<u32> = PtyManager::new();
    manager.spawn_process(&config("a"), 1);
    assert!(manager.evict("b").is_none());
    assert!(manager.is_running("a"));
    assert_eq!(manager.generation_of("a"), Some(0));
}

#[test]
fn kill_of_absent_id_is_not_found() {
    let mut manager: PtyManager<u32> = PtyManager::new();
    manager.spawn_process(&config("a"), 1);
    match manager.kill_process("ghost") {
        Ok(_) => panic!("there is nothing to kill"),
        Err(error) => {
            assert_eq!(error.kind(), ErrorKind::NotFound);
            assert_eq!(error.message(), "Process ghost not found");
        }
    }
    assert!(manager.is_running("a"));
    assert_eq!(manager.generation_of("a"), Some(0));
}

#[test]
fn exit_is_announced_once_when_kill_comes_first() {
    let mut manager: PtyManager<u32> = PtyManager::new();
    let generation = manager.spawn_process(&config("a"), 1);
    let mut exits = 0;
    if manager.kill_process("a").is_ok() {
        if PtyManager::<u32>::kill_outcome("a", Ok(())).is_ok() {
            exits += 1;
        }
    }
    // the stream of the killed process ends, and its reader reports it
    if let ReaderAction::Exit(_) = manager.read_output("a", generation, &[]) {
        exits += 1;
    }
    assert_eq!(exits, 1);
    assert!(!manager.is_running("a"));
}

#[test]
fn exit_is_announced_once_when_stream_ends_first() {
    let mut manager: PtyManager<u32> = PtyManager::new();
    let generation = manager.spawn_process(&config("a"), 1);
    let mut exits = 0;
    if let ReaderAction::Exit(_) = manager.read_output("a", generation, &[]) {
        exits += 1;
    }
    if manager.kill_process("a").is_ok() {
        exits += 1;
    }
    if let ReaderAction::Exit(_) = manager.read_output("a", generation, &[]) {
        exits += 1;
    }
    assert_eq!(exits, 1);
}

#[test]
fn refused_kill_pushes_no_event() {
    let outcome = PtyManager::<u32>::kill_outcome("a", Err("no such process".to_string()));
    match outcome {
        Ok(_) => panic!("no event without a kill"),
        Err(error) => {
            assert_eq!(error.kind(), ErrorKind::Io);
            assert_eq!(error.message(), "Failed to kill process: no such process");
        }
    }
}

#[test]
fn accepted_kill_pushes_the_exit_event() {
    match PtyManager::<u32>::kill_outcome("job-1", Ok(())) {
        Ok(event) => {
            assert_eq!(event.id, "job-1");
            assert_eq!(event.code, None);
        }
        Err(error) => panic!("{}", error.message()),
    }
}

#[test]
fn write_to_absent_id_is_not_found() {
    let mut manager: PtyManager<Vec<u8>> = PtyManager::new();
    manager.spawn_process(&config("a"), Vec::new());
    match manager.write_to_process("b") {
        Ok(_) => panic!("there is nothing to write to"),
        Err(error) => {
            assert_eq!(error.kind(), ErrorKind::NotFound);
            assert_eq!(error.message(), "Process b not found");
        }
    }
    assert!(!manager.is_running("b"));
    match manager.kill_process("a") {
        Ok(session) => assert!(session.handle.is_empty()),
        Err(error) => panic!("{}", error.message()),
    }
}

#[test]
fn write_reaches_the_handle_of_the_session() {
    let mut manager: PtyManager<Vec<u8>> = PtyManager::new();
    let generation = manager.spawn_process(&config("a"), Vec::new());
    manager.spawn_process(&config("b"), Vec::new());
    match manager.write_to_process("a") {
        Ok(writer) => writer.extend_from_slice(b"ls\n"),
        Err(error) => panic!("{}", error.message()),
    }
    match manager.write_to_process("a") {
        Ok(writer) => writer.extend_from_slice(b"pwd\n"),
        Err(error) => panic!("{}", error.message()),
    }
    assert_eq!(manager.generation_of("a"), Some(generation));
    match manager.kill_process("a") {
        Ok(session) => assert_eq!(session.handle, b"ls\npwd\n".to_vec()),
        Err(error) => panic!("{}", error.message()),
    }
    match manager.kill_process("b") {
        Ok(session) => assert!(session.handle.is_empty()),
        Err(error) => panic!("{}", error.message()),
    }
}

#[test]
fn resize_of_absent_id_is_not_found() {
    let mut manager: PtyManager<u32> = PtyManager::new();
    manager.spawn_process(&config("a"), 1);
    match manager.resize_pty("b", 120, 40) {
        Ok(_) => panic!("there is nothing to resize"),
        Err(error) => {
            assert_eq!(error.kind(), ErrorKind::NotFound);
            assert_eq!(error.message(), "Process b not found");
        }
    }
    assert!(manager.is_running("a"));
    assert!(!manager.is_running("b"));
}

#[test]
fn resize_finds_the_session_and_the_viewport() {
    let mut manager: PtyManager<u32> = PtyManager::new();
    manager.spawn_process(&config("a"), 11);
    manager.spawn_process(&config("b"), 22);
    match manager.resize_pty("b", 120, 40) {
        Ok((handle, viewport)) => {
            assert_eq!(*handle, 22);
            assert_eq!(viewport.cols, 120);
            assert_eq!(viewport.rows, 40);
            assert_eq!(viewport.pixel_width, 0);
            assert_eq!(viewport.pixel_height, 0);
        }
        Err(error) => panic!("{}", error.message()),
    }
    assert_eq!(manager.generation_of("b"), Some(1));
}

#[test]
fn initial_viewport_is_80_by_24() {
    let viewport = Viewport::initial();
    assert_eq!(viewport, Viewport { rows: 24, cols: 80, pixel_width: 0, pixel_height: 0 });
    assert_eq!(INITIAL_COLS, 80);
    assert_eq!(INITIAL_ROWS, 24);
    assert_eq!(Viewport::new(INITIAL_COLS, INITIAL_ROWS), viewport);
}

#[test]
fn readers_ask_for_4096_bytes() {
    assert_eq!(READ_CHUNK_SIZE, 4096);
}

#[test]
fn ids_are_compared_as_text() {
    let mut manager: PtyManager<u32> = PtyManager::new();
    manager.spawn_process(&config("job"), 1);
    manager.spawn_process(&config("job-2"), 2);
    manager.spawn_process(&config("jöb"), 3);
    assert!(manager.is_running("job"));
    assert!(manager.is_running("job-2"));
    assert!(manager.is_running("jöb"));
    assert!(!manager.is_running("jo"));
    assert!(!manager.is_running("JOB"));
    assert!(!manager.is_running("job-"));
    assert_eq!(manager.generation_of("jöb"), Some(2));
}

#[test]
fn kill_in_the_middle_keeps_the_others() {
    let mut manager: PtyManager<u32> = PtyManager::new();
    manager.spawn_process(&config("a"), 1);
    manager.spawn_process(&config("b"), 2);
    manager.spawn_process(&config("c"), 3);
    assert!(manager.kill_process("b").is_ok());
    assert_eq!(manager.generation_of("a"), Some(0));
    assert_eq!(manager.generation_of("b"), None);
    assert_eq!(manager.generation_of("c"), Some(2));
    assert_eq!(manager.spawn_process(&config("b"), 4), 3);
    assert_eq!(manager.generation_of("b"), Some(3));
}

#[test]
fn error_kinds_follow_the_taxonomy() {
    let cause = "x".to_string();
    assert_eq!(PtyError::NotFound(cause.clone()).kind(), ErrorKind::NotFound);
    assert_eq!(PtyError::OpenPty(cause.clone()).kind(), ErrorKind::Resource);
    assert_eq!(PtyError::Spawn(cause.clone()).kind(), ErrorKind::Resource);
    assert_eq!(PtyError::CloneReader(cause.clone()).kind(), ErrorKind::Resource);
    assert_eq!(PtyError::TakeWriter(cause.clone()).kind(), ErrorKind::Resource);
    assert_eq!(PtyError::Write(cause.clone()).kind(), ErrorKind::Io);
    assert_eq!(PtyError::Flush(cause.clone()).kind(), ErrorKind::Io);
    assert_eq!(PtyError::Resize(cause.clone()).kind(), ErrorKind::Io);
    assert_eq!(PtyError::Kill(cause).kind(), ErrorKind::Io);
}

#[test]
fn error_messages_name_the_failure() {
    let cause = "denied".to_string();
    assert_eq!(PtyError::NotFound("a".to_string()).message(), "Process a not found");
    assert_eq!(PtyError::NotFound(String::new()).message(), "Process  not found");
    assert_eq!(PtyError::OpenPty(cause.clone()).message(), "Failed to open PTY: denied");
    assert_eq!(PtyError::Spawn(cause.clone()).message(), "Failed to spawn process: denied");
    assert_eq!(PtyError::CloneReader(cause.clone()).message(), "Failed to clone reader: denied");
    assert_eq!(PtyError::TakeWriter(cause.clone()).message(), "Failed to take writer: denied");
    assert_eq!(PtyError::Write(cause.clone()).message(), "Failed to write to process: denied");
    assert_eq!(PtyError::Flush(cause.clone()).message(), "Failed to flush: denied");
    assert_eq!(PtyError::Resize(cause.clone()).message(), "Failed to resize PTY: denied");
    assert_eq!(PtyError::Kill(cause).message(), "Failed to kill process: denied");
}
