use synced_state::{Persistable, Saveable, StateError, Synced};

fn fresh(read: Result<Vec<u8>, StateError>) -> (Synced<u64>, Option<String>) {
    Synced::init(
        String::from("counter"),
        String::from("config/counter.toml"),
        read,
    )
}

#[test]
fn init_missing_file_yields_default() {
    let (container, diagnostic) = fresh(Err(StateError::NotFound));
    assert_eq!(container.get(), 0);
    assert_eq!(
        diagnostic.unwrap().as_str(),
        "Failed to initialize 'counter' state: state file not found"
    );
}

#[test]
fn init_valid_content_yields_value() {
    let bytes = 42u64.render().unwrap();
    let (container, diagnostic) = fresh(Ok(bytes));
    assert_eq!(container.get(), 42);
    assert!(diagnostic.is_none());
}

#[test]
fn init_malformed_content_yields_default() {
    let (container, diagnostic) = fresh(Ok(b"value = bogus\n".to_vec()));
    assert_eq!(container.get(), 0);
    assert_eq!(
        diagnostic.unwrap().as_str(),
        "Failed to initialize 'counter' state: persisted content is malformed"
    );
}

#[test]
fn init_read_failure_yields_default() {
    let (container, diagnostic) = fresh(Err(StateError::IoError));
    assert_eq!(container.get(), 0);
    assert_eq!(
        diagnostic.unwrap().as_str(),
        "Failed to initialize 'counter' state: state file could not be accessed"
    );
}

#[test]
fn mutations_compose_in_call_order() {
    let (mut container, _) = fresh(Err(StateError::NotFound));
    container.mutate(|n| n + 5);
    container.mutate(|n| n * 3);
    assert_eq!(container.get(), 15);
}

#[test]
fn mutate_notifies_with_post_mutation_value() {
    let (mut container, _) = fresh(Err(StateError::NotFound));
    let commit = container.mutate(|n| n + 7);
    assert_eq!(commit.notification.event.as_str(), "synced-state://counter-update");
    assert_eq!(commit.notification.payload, 7);
    assert_eq!(commit.persist.unwrap(), b"value = 7\n".to_vec());
}

#[test]
fn each_mutation_notifies_once_in_order() {
    let (mut container, _) = fresh(Err(StateError::NotFound));
    let first = container.mutate(|n| n + 1);
    let second = container.mutate(|n| n + 1);
    assert_eq!(first.notification.payload, 1);
    assert_eq!(second.notification.payload, 2);
}

#[test]
fn save_then_init_reconstructs_value() {
    let (mut container, _) = fresh(Err(StateError::NotFound));
    container.set(123456789);
    let bytes = container.save().expect("a count always renders");
    let (reloaded, diagnostic) = fresh(Ok(bytes));
    assert_eq!(reloaded.get(), 123456789);
    assert!(diagnostic.is_none());
}

#[test]
fn counter_reaches_n_after_n_mutations() {
    let (mut container, _) = fresh(Err(StateError::NotFound));
    for _ in 0..100 {
        container.mutate(|n| n + 1);
    }
    assert_eq!(container.get(), 100);
}

#[test]
fn set_replaces_value() {
    let (mut container, _) = fresh(Err(StateError::NotFound));
    let commit = container.set(7);
    assert_eq!(container.get(), 7);
    assert_eq!(commit.notification.payload, 7);
}

#[test]
fn reset_restores_default() {
    let (mut container, _) = fresh(Err(StateError::NotFound));
    container.set(7);
    let commit = container.reset();
    assert_eq!(container.get(), 0);
    assert_eq!(commit.notification.payload, 0);
}

#[test]
fn lock_gives_exclusive_access_without_notification() {
    let (mut container, _) = fresh(Err(StateError::NotFound));
    let state = container.lock();
    *state.current_mut() = 9;
    assert_eq!(*state.current(), 9);
    assert_eq!(container.get(), 9);
}

#[test]
fn emit_update_names_the_channel() {
    let (container, _) = fresh(Err(StateError::NotFound));
    let notification = container.emit_update(3);
    assert_eq!(notification.event.as_str(), "synced-state://counter-update");
    assert_eq!(notification.payload, 3);
}

#[test]
fn persistable_new_holds_default() {
    let state: Persistable<u64> = Persistable::new(String::from("config/counter.toml"));
    assert_eq!(*state.current(), 0);
    assert_eq!(state.location().as_str(), "config/counter.toml");
}

#[test]
fn persistable_load_decodes() {
    let loaded: Persistable<u64> =
        Persistable::load(String::from("loc"), Ok(b"value = 11\n".to_vec())).unwrap();
    assert_eq!(*loaded.current(), 11);
}

#[test]
fn persistable_load_reports_malformed_content() {
    let r: Result<Persistable<u64>, StateError> =
        Persistable::load(String::from("loc"), Ok(b"garbage".to_vec()));
    assert_eq!(r.err().unwrap(), StateError::DecodeError);
}

#[test]
fn persistable_load_passes_read_failure_through() {
    let r: Result<Persistable<u64>, StateError> =
        Persistable::load(String::from("loc"), Err(StateError::IoError));
    assert_eq!(r.err().unwrap(), StateError::IoError);
}

#[test]
fn persistable_save_renders_current_value() {
    let mut state: Persistable<u64> = Persistable::new(String::from("loc"));
    let _ = state.replace(31);
    assert_eq!(state.save().unwrap(), b"value = 31\n".to_vec());
}

#[test]
fn error_descriptions() {
    assert_eq!(StateError::NotFound.describe().as_str(), "state file not found");
    assert_eq!(
        StateError::DecodeError.describe().as_str(),
        "persisted content is malformed"
    );
    assert_eq!(
        StateError::IoError.describe().as_str(),
        "state file could not be accessed"
    );
    assert_eq!(
        StateError::EncodeError.describe().as_str(),
        "value could not be encoded"
    );
}
