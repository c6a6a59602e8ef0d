use vstd::prelude::*;
use vstd::string::*;

use tokio::sync::broadcast::error::SendError;
use tokio::sync::broadcast::{Receiver, Sender};

use crate::models::DomainError;
use crate::text::same_text;

verus! {

#[verifier::external_type_specification]
#[verifier::external_body]
#[verifier::reject_recursive_types(T)]
pub struct ExSender<T>(Sender<T>);

#[verifier::external_type_specification]
#[verifier::external_body]
#[verifier::reject_recursive_types(T)]
pub struct ExReceiver<T>(Receiver<T>);

#[verifier::external_type_specification]
#[verifier::external_body]
#[verifier::reject_recursive_types(T)]
pub struct ExSendError<T>(SendError<T>);

/// Relies on tokio's `broadcast::channel`: it panics on a capacity of zero or
/// above `usize::MAX / 2`.
pub assume_specification<T: Clone>[ tokio::sync::broadcast::channel::<T> ](capacity: usize) -> (Sender<T>, Receiver<T>)
    requires
        0 < capacity <= usize::MAX / 2,
;

/// Relies on tokio's `broadcast::Sender::send`: it fails when the channel has
/// no receiver, and otherwise returns how many receivers there are. Which of
/// the two happens depends on receivers held elsewhere.
pub assume_specification<T>[ Sender::<T>::send ](tx: &Sender<T>, value: T) -> (r: Result<usize, SendError<T>>)
    ensures
        r matches Ok(n) ==> n >= 1,
;

/// Relies on tokio's `broadcast::Sender::subscribe`: a new receiver of the
/// values sent after the call. It panics once `usize::MAX >> 2` receivers of
/// one channel exist; the broker makes at most one per subscription.
pub assume_specification<T>[ Sender::<T>::subscribe ](tx: &Sender<T>) -> Receiver<T>;

/// Capacity of each client's outbound channel.
pub const CLIENT_CHANNEL_CAPACITY: usize = 100;

/// A registered client, the sending half of its outbound channel, and the
/// channel's first receiver until the transport takes it.
pub struct ClientConnection {
    pub id: String,
    outbound: Sender<String>,
    pending: Option<Receiver<String>>,
}

/// The registry of connected clients, one outbound channel per client id.
pub struct WebSocketBroker {
    connections: Vec<ClientConnection>,
    capacity: usize,
}

/// The registry after `register(id)`; `None` where `id` is already present.
pub open spec fn spec_register(ids: Seq<Seq<char>>, id: Seq<char>) -> Option<Seq<Seq<char>>> {
    if ids.contains(id) {
        None
    } else {
        Some(ids.push(id))
    }
}

/// The position of `id` in the registry.
pub open spec fn position_of(ids: Seq<Seq<char>>, id: Seq<char>) -> int {
    choose|i: int| 0 <= i < ids.len() && ids[i] == id
}

/// The registry after `unregister(id)`; `None` where `id` is absent.
pub open spec fn spec_unregister(ids: Seq<Seq<char>>, id: Seq<char>) -> Option<Seq<Seq<char>>> {
    if ids.contains(id) {
        Some(ids.remove(position_of(ids, id)))
    } else {
        None
    }
}

pub open spec fn already_registered_message(id: Seq<char>) -> Seq<char> {
    "Client "@ + id + " already registered"@
}

pub open spec fn not_found_message(id: Seq<char>) -> Seq<char> {
    "Client "@ + id + " not found"@
}

pub open spec fn delivery_failed_message() -> Seq<char> {
    "Failed to send message: channel closed"@
}

/// Whether `e` reports a delivery that failed.
pub open spec fn is_delivery_failure(e: DomainError) -> bool {
    e matches DomainError::WebSocketError(m) && m@ == delivery_failed_message()
}

/// The ids of a list of failed deliveries.
pub open spec fn failure_ids(failures: Seq<(String, DomainError)>) -> Seq<Seq<char>> {
    failures.map_values(|f: (String, DomainError)| f.0@)
}

/// The ids whose delivery did not succeed, in order: `ids[k]` is listed
/// exactly when `delivered[k]` is false.
pub open spec fn spec_delivery_failures(ids: Seq<Seq<char>>, delivered: Seq<bool>) -> Seq<Seq<char>>
    decreases ids.len(),
{
    if ids.len() == 0 || delivered.len() == 0 {
        Seq::empty()
    } else {
        let rest = spec_delivery_failures(ids.drop_last(), delivered.drop_last());
        if delivered.last() {
            rest
        } else {
            rest.push(ids.last())
        }
    }
}

/// The failure list for the send outcomes `delivered` of the clients `ids`:
/// each client whose send failed, in order, with a delivery error.
pub fn delivery_failures(ids: &Vec<String>, delivered: &Vec<bool>) -> (f: Vec<(String, DomainError)>)
    requires
        ids@.len() == delivered@.len(),
    ensures
        failure_ids(f@) == spec_delivery_failures(ids@.map_values(|s: String| s@), delivered@),
        forall|k: int| 0 <= k < f@.len() ==> is_delivery_failure(#[trigger] f@[k].1),
{
    let ghost views = ids@.map_values(|s: String| s@);
    let mut f: Vec<(String, DomainError)> = Vec::new();
    let mut i: usize = 0;
    while i < ids.len()
        invariant
            i <= ids@.len(),
            ids@.len() == delivered@.len(),
            views == ids@.map_values(|s: String| s@),
            failure_ids(f@) =~= spec_delivery_failures(views.take(i as int), delivered@.take(i as int)),
            forall|k: int| 0 <= k < f@.len() ==> is_delivery_failure(#[trigger] f@[k].1),
        decreases ids@.len() - i,
    {
        proof {
            assert(views.take(i + 1).drop_last() =~= views.take(i as int));
            assert(delivered@.take(i + 1).drop_last() =~= delivered@.take(i as int));
        }
        if !delivered[i] {
            f.push((ids[i].clone(), DomainError::WebSocketError("Failed to send message: channel closed".to_owned())));
        }
        i += 1;
    }
    assert(views.take(ids@.len() as int) =~= views);
    assert(delivered@.take(ids@.len() as int) =~= delivered@);
    f
}

/// Whether `r` is a broker error with the message `m`.
pub open spec fn is_broker_error<T>(r: Result<T, DomainError>, m: Seq<char>) -> bool {
    r matches Err(DomainError::WebSocketError(text)) && text@ == m
}

fn client_message(id: &str, tail: &str) -> (r: String)
    ensures
        r@ == "Client "@ + id@ + tail@,
{
    let mut r = "Client ".to_owned();
    r.append(id);
    r.append(tail);
    r
}

impl View for WebSocketBroker {
    type V = Seq<Seq<char>>;

    /// The registered client ids, in the order they were registered.
    closed spec fn view(&self) -> Seq<Seq<char>> {
        self.connections@.map_values(|c: ClientConnection| c.id@)
    }
}

impl WebSocketBroker {
    /// Each client id is registered at most once, and channels can be made
    /// with the broker's capacity.
    pub closed spec fn wf(&self) -> bool {
        &&& self@.no_duplicates()
        &&& 0 < self.capacity <= usize::MAX / 2
    }

    /// A well-formed broker registers each client id at most once.
    pub proof fn lemma_ids_unique(&self)
        requires
            self.wf(),
        ensures
            self@.no_duplicates(),
    {
    }

    /// An empty registry whose client channels hold `capacity` messages.
    pub fn new(capacity: usize) -> (r: WebSocketBroker)
        requires
            0 < capacity <= usize::MAX / 2,
        ensures
            r.wf(),
            r@ == Seq::<Seq<char>>::empty(),
    {
        let r = WebSocketBroker { connections: Vec::new(), capacity };
        assert(r@ =~= Seq::<Seq<char>>::empty());
        r
    }

    /// A new outbound channel holding `capacity` messages.
    pub fn create_connection_channel(&self, capacity: usize) -> Sender<String>
        requires
            0 < capacity <= usize::MAX / 2,
    {
        let (tx, _rx) = tokio::sync::broadcast::channel(capacity);
        tx
    }

    fn find(&self, client_id: &str) -> (r: Option<usize>)
        ensures
            r matches Some(i) ==> i < self@.len() && self@[i as int] == client_id@,
            r is None ==> !self@.contains(client_id@),
    {
        let mut i: usize = 0;
        while i < self.connections.len()
            invariant
                i <= self@.len(),
                self@.len() == self.connections@.len(),
                forall|k: int| 0 <= k < i ==> self@[k] != client_id@,
            decreases self.connections@.len() - i,
        {
            if same_text(self.connections[i].id.as_str(), client_id) {
                return Some(i);
            }
            i += 1;
        }
        None
    }

    /// Registers `client_id` with a fresh outbound channel. Registering an id
    /// that is present is an error, not an overwrite.
    pub fn register_client(&mut self, client_id: &str) -> (r: Result<(), DomainError>)
        requires
            old(self).wf(),
        ensures
            final(self).wf(),
            match spec_register(old(self)@, client_id@) {
                Some(ids) => r is Ok && final(self)@ == ids,
                None => is_broker_error(r, already_registered_message(client_id@)) && final(self)@ == old(self)@,
            },
    {
        if self.find(client_id).is_some() {
            return Err(DomainError::WebSocketError(client_message(client_id, " already registered")));
        }
        let (tx, rx) = tokio::sync::broadcast::channel(self.capacity);
        self.connections.push(ClientConnection { id: client_id.to_owned(), outbound: tx, pending: Some(rx) });
        assert(self@ =~= old(self)@.push(client_id@));
        Ok(())
    }

    /// Removes `client_id` and drops its channel; messages still buffered in
    /// it are lost.
    pub fn unregister_client(&mut self, client_id: &str) -> (r: Result<(), DomainError>)
        requires
            old(self).wf(),
        ensures
            final(self).wf(),
            match spec_unregister(old(self)@, client_id@) {
                Some(ids) => r is Ok && final(self)@ == ids,
                None => is_broker_error(r, not_found_message(client_id@)) && final(self)@ == old(self)@,
            },
    {
        match self.find(client_id) {
            Some(i) => {
                let ghost ids = self@;
                proof {
                    let p = position_of(ids, client_id@);
                    assert(ids.contains(client_id@));
                    assert(ids[p] == client_id@ && ids[i as int] == client_id@);
                    assert(p == i);
                }
                self.connections.remove(i);
                assert(self@ =~= ids.remove(i as int));
                proof {
                    assert forall|a: int, b: int| 0 <= a < b < self@.len() implies self@[a] != self@[b] by {
                        let a2 = if a < i { a } else { a + 1 };
                        let b2 = if b < i { b } else { b + 1 };
                        assert(self@[a] == ids[a2] && self@[b] == ids[b2]);
                    }
                }
                Ok(())
            },
            None => Err(DomainError::WebSocketError(client_message(client_id, " not found"))),
        }
    }

    /// Pushes `message` onto the channel of `client_id`. An unknown client is
    /// an error; so is a channel that nobody receives from.
    pub fn send_message(&self, client_id: &str, message: String) -> (r: Result<(), DomainError>)
        ensures
            !self@.contains(client_id@) ==> is_broker_error(r, not_found_message(client_id@)),
            self@.contains(client_id@) ==> r is Ok || is_broker_error(r, delivery_failed_message()),
    {
        match self.find(client_id) {
            Some(i) => match self.connections[i].outbound.send(message) {
                Ok(_) => Ok(()),
                Err(_) => Err(DomainError::WebSocketError("Failed to send message: channel closed".to_owned())),
            },
            None => Err(DomainError::WebSocketError(client_message(client_id, " not found"))),
        }
    }

    /// Sends `message` to every registered client, in registration order,
    /// going on past failures, and returns the clients whose delivery failed.
    /// Which sends fail depends on receivers held elsewhere; the result is
    /// `delivery_failures` of the registered ids for the outcomes that came
    /// back, one per client.
    pub fn broadcast_message(&self, message: &String) -> (failures: Vec<(String, DomainError)>)
        ensures
            exists|delivered: Seq<bool>| delivered.len() == self@.len() && #[trigger] failure_ids(failures@)
                == spec_delivery_failures(self@, delivered),
            forall|k: int| 0 <= k < failures@.len() ==> is_delivery_failure(#[trigger] failures@[k].1),
    {
        let mut ids: Vec<String> = Vec::new();
        let mut delivered: Vec<bool> = Vec::new();
        let mut i: usize = 0;
        while i < self.connections.len()
            invariant
                i <= self@.len(),
                self@.len() == self.connections@.len(),
                ids@.len() == i,
                delivered@.len() == i,
                forall|k: int| 0 <= k < i ==> #[trigger] ids@[k]@ == self@[k],
            decreases self.connections@.len() - i,
        {
            let conn = &self.connections[i];
            let ok = match conn.outbound.send(message.clone()) {
                Ok(_) => true,
                Err(_) => false,
            };
            ids.push(conn.id.clone());
            delivered.push(ok);
            i += 1;
        }
        proof {
            assert(ids@.map_values(|s: String| s@) =~= self@);
        }
        delivery_failures(&ids, &delivered)
    }

    /// A receiver of what is sent to `client_id`, or `None` where the client
    /// is not registered. The first call hands out the channel's own
    /// receiver, which holds what was sent since registration; later calls
    /// get receivers of what is sent from then on.
    pub fn subscribe(&mut self, client_id: &str) -> (r: Option<Receiver<String>>)
        requires
            old(self).wf(),
        ensures
            final(self).wf(),
            final(self)@ == old(self)@,
            r is Some <==> old(self)@.contains(client_id@),
    {
        match self.find(client_id) {
            Some(i) => {
                let ghost ids = self@;
                let conn = &mut self.connections[i];
                let rx = match conn.pending.take() {
                    Some(rx) => rx,
                    None => conn.outbound.subscribe(),
                };
                assert(self@ =~= ids);
                Some(rx)
            },
            None => None,
        }
    }

    /// The number of registered clients.
    pub fn connection_count(&self) -> (r: usize)
        ensures
            r == self@.len(),
    {
        self.connections.len()
    }
}

/// Registration is unique: once `id` has been registered (or was already),
/// registering it again fails; after it is unregistered it can be registered
/// again.
pub proof fn lemma_registration_uniqueness(ids: Seq<Seq<char>>, id: Seq<char>)
    requires
        ids.no_duplicates(),
    ensures
        spec_register(ids, id) matches Some(after) ==> spec_register(after, id) is None,
        spec_register(ids, id) is None ==> ({
            let removed = spec_unregister(ids, id);
            removed is Some && spec_register(removed->Some_0, id) is Some
        }),
{
    if let Some(after) = spec_register(ids, id) {
        assert(after[ids.len() as int] == id);
    }
    if ids.contains(id) {
        let p = position_of(ids, id);
        let removed = ids.remove(p);
        if removed.contains(id) {
            let q = choose|q: int| 0 <= q < removed.len() && removed[q] == id;
            let q2 = if q < p { q } else { q + 1 };
            assert(ids[q2] == id && ids[p] == id && q2 != p);
        }
    }
}

/// Operations on a client that is not registered fail and leave the registry
/// as it was.
pub proof fn lemma_missing_client(ids: Seq<Seq<char>>, id: Seq<char>)
    requires
        !ids.contains(id),
    ensures
        spec_unregister(ids, id) is None,
        spec_register(ids, id) == Some(ids.push(id)),
{
}

} // verus!
