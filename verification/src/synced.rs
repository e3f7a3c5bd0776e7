//! The synced container: serialized mutation, automatic persistence, and
//! change notification around one [`Persistable`] value.
//!
//! Mutating operations take the container by exclusive reference, so all
//! mutations on one instance are totally ordered. Each committed mutation
//! yields a [`Commit`]: the notification the hosting runtime must broadcast
//! and the bytes it must write to the state file. The runtime delivers the
//! notification first and then attempts the write, discarding a write
//! failure (the in-memory value stays the source of truth); only an explicit
//! `save` surfaces persistence failures to the caller.

use vstd::prelude::*;
use vstd::string::StringExecFns;
use crate::errors::StateError;
use crate::persistable::Persistable;
use crate::saveable::Saveable;

verus! {

/// The broadcast a mutation asks the hosting runtime to deliver: a named
/// event carrying the post-mutation value.
pub struct Notification<T> {
    /// The channel name, derived from the container's identity.
    pub event: String,
    /// The value after the mutation.
    pub payload: T,
}

/// Everything a committed mutation asks of the hosting runtime: one
/// notification to broadcast, then one persistence attempt.
pub struct Commit<T> {
    /// The broadcast to deliver to observers.
    pub notification: Notification<T>,
    /// The bytes to write to the state file, or why none could be rendered.
    pub persist: Result<Vec<u8>, StateError>,
}

/// The notification channel name for a container identity.
pub open spec fn event_name_spec(identity: Seq<char>) -> Seq<char> {
    "synced-state://"@ + identity + "-update"@
}

/// The diagnostic logged when initialization falls back to the default.
pub open spec fn init_diagnostic_spec(identity: Seq<char>, e: StateError) -> Seq<char> {
    "Failed to initialize '"@ + identity + "' state: "@ + e.describe_spec()
}

/// What a [`Commit`] must look like after a mutation of a container with
/// the given identity whose new value is `v`: the notification names the
/// container's channel and carries `v`, and the persistence bytes are the
/// rendering of `v` (or an `EncodeError` when `v` has none).
pub open spec fn commit_describes<T: Saveable>(c: Commit<T>, identity: Seq<char>, v: T) -> bool {
    &&& c.notification.event@ == event_name_spec(identity)
    &&& c.notification.payload == v
    &&& (v.renderable() ==> (c.persist matches Ok(b) && b@ == v.rendering()))
    &&& (!v.renderable() ==> (c.persist matches Err(e) && e == StateError::EncodeError))
}

/// The container: one persistable value under exclusive access, bound to a
/// stable identity that names its notification channel.
pub struct Synced<T> {
    identity: String,
    state: Persistable<T>,
}

impl<T: Saveable> Synced<T> {
    /// The stable logical name of this container.
    pub closed spec fn spec_identity(&self) -> Seq<char> {
        self.identity@
    }

    /// The current in-memory value.
    pub closed spec fn spec_value(&self) -> T {
        self.state.spec_value()
    }

    /// The file location the value is persisted at.
    pub closed spec fn spec_location(&self) -> Seq<char> {
        self.state.spec_location()
    }

    /// Builds a container for `identity` from the outcome of reading the
    /// state file at `location`.
    ///
    /// Never fails: on a read failure or malformed content the container
    /// holds the default value, and the second component carries the
    /// diagnostic to log. On well-formed content it holds the decoded value
    /// and there is nothing to log.
    pub fn init(identity: String, location: String, read: Result<Vec<u8>, StateError>) -> (r: (
        Synced<T>,
        Option<String>,
    ))
        ensures
            r.0.spec_identity() == identity@,
            r.0.spec_location() == location@,
            match read {
                Ok(bytes) => match T::parse_spec(bytes@) {
                    Some(v) => r.0.spec_value() == v && r.1 is None,
                    None => {
                        &&& r.0.spec_value() == T::default_spec()
                        &&& r.1 matches Some(m) && m@ == init_diagnostic_spec(
                            identity@,
                            StateError::DecodeError,
                        )
                    },
                },
                Err(e) => {
                    &&& r.0.spec_value() == T::default_spec()
                    &&& r.1 matches Some(m) && m@ == init_diagnostic_spec(identity@, e)
                },
            },
    {
        let location_copy = location.clone();
        match Persistable::<T>::load(location, read) {
            Ok(state) => (Synced { identity, state }, None),
            Err(e) => {
                let message = init_diagnostic(&identity, &e);
                (Synced { identity, state: Persistable::new(location_copy) }, Some(message))
            },
        }
    }

    /// Acquires the value and returns a copy of it.
    pub fn get(&self) -> (r: T)
        ensures
            r == self.spec_value(),
    {
        self.state.current().duplicate()
    }

    /// Builds the notification for this container's channel carrying
    /// `payload`.
    pub fn emit_update(&self, payload: T) -> (r: Notification<T>)
        ensures
            r.event@ == event_name_spec(self.spec_identity()),
            r.payload == payload,
    {
        let mut event = String::from_str("synced-state://");
        event.append(self.identity.as_str());
        event.append("-update");
        Notification { event, payload }
    }

    /// Applies `function` to the value and commits the change: the result
    /// carries the notification to broadcast and the persistence bytes, in
    /// the order the runtime must perform them.
    pub fn mutate<F: FnOnce(T) -> T>(&mut self, function: F) -> (r: Commit<T>)
        requires
            call_requires(function, (old(self).spec_value(),)),
        ensures
            final(self).spec_identity() == old(self).spec_identity(),
            final(self).spec_location() == old(self).spec_location(),
            call_ensures(function, (old(self).spec_value(),), final(self).spec_value()),
            commit_describes(r, final(self).spec_identity(), final(self).spec_value()),
    {
        let taken = self.state.replace(T::default_value());
        let updated = function(taken);
        let _previous = self.state.replace(updated);
        let payload = self.state.current().duplicate();
        let notification = self.emit_update(payload);
        let persist = self.state.save();
        Commit { notification, persist }
    }

    /// Unconditionally replaces the value; sugar for a [`Self::mutate`]
    /// whose transform ignores the current value.
    pub fn set(&mut self, new_value: T) -> (r: Commit<T>)
        ensures
            final(self).spec_identity() == old(self).spec_identity(),
            final(self).spec_location() == old(self).spec_location(),
            final(self).spec_value() == new_value,
            commit_describes(r, final(self).spec_identity(), new_value),
    {
        let replace_with = move |_current: T| -> (v: T)
            ensures
                v == new_value,
            { new_value };
        self.mutate(replace_with)
    }

    /// Replaces the value with the default.
    pub fn reset(&mut self) -> (r: Commit<T>)
        ensures
            final(self).spec_identity() == old(self).spec_identity(),
            final(self).spec_location() == old(self).spec_location(),
            final(self).spec_value() == T::default_spec(),
            commit_describes(r, final(self).spec_identity(), T::default_spec()),
    {
        self.set(T::default_value())
    }

    /// Renders the current value for an explicit persistence request,
    /// surfacing the failure when it has no rendering. The caller writes
    /// the bytes to the location and reports its own write failures.
    pub fn save(&self) -> (r: Result<Vec<u8>, StateError>)
        ensures
            self.spec_value().renderable() ==> (r matches Ok(b) && b@ == self.spec_value().rendering()),
            !self.spec_value().renderable() ==> (r matches Err(e) && e == StateError::EncodeError),
    {
        self.state.save()
    }

    /// Grants exclusive access to the underlying persistable value for a
    /// sequence of operations without an intervening notification. The
    /// borrow discipline releases the access on every exit path.
    pub fn lock(&mut self) -> (r: &mut Persistable<T>)
        ensures
            r.spec_value() == old(self).spec_value(),
            r.spec_location() == old(self).spec_location(),
            final(self).spec_value() == final(r).spec_value(),
            final(self).spec_location() == final(r).spec_location(),
            final(self).spec_identity() == old(self).spec_identity(),
    {
        &mut self.state
    }
}

/// Persistence round trip: the bytes a successful save produced parse back
/// to the saved value, so a later initialization from them reconstructs it.
pub proof fn lemma_save_init_round_trip<T: Saveable>(v: T, bytes: Seq<u8>)
    requires
        v.renderable(),
        bytes == v.rendering(),
    ensures
        T::parse_spec(bytes) == Some(v),
{
    T::lemma_parse_of_rendering(v);
}

/// Builds the diagnostic logged when initialization falls back to the
/// default value.
fn init_diagnostic(identity: &String, e: &StateError) -> (r: String)
    ensures
        r@ == init_diagnostic_spec(identity@, *e),
{
    let mut message = String::from_str("Failed to initialize '");
    message.append(identity.as_str());
    message.append("' state: ");
    let description = e.describe();
    message.append(description.as_str());
    message
}

} // verus!


