use vstd::prelude::*;
use crate::connection::Connection;
use crate::endpoint::pipe_options;
use crate::endpoint::IpcEndpoint;
use crate::endpoint::PipeOptions;

verus! {

/// What a stream of incoming connections is, to a contract: the name it
/// listens at, and the one listener that is live.
pub struct IncomingState<L> {
    pub path: Seq<char>,
    pub listener: L,
}

/// The stream of connections that arrive at a named-pipe endpoint.
///
/// A pipe instance serves one client, so the stream holds the instance that
/// the next client will reach and takes a new one in after every accept.
pub struct Incoming<L> {
    endpoint: IpcEndpoint,
    listener: L,
}

impl<L> View for Incoming<L> {
    type V = IncomingState<L>;

    closed spec fn view(&self) -> IncomingState<L> {
        IncomingState { path: self.endpoint@.path, listener: self.listener }
    }
}

/// One pull on the stream, after a client has connected to `listener`: with a
/// new instance at hand the stream yields the server connection over
/// `listener` and goes on with the new instance; without one it ends with the
/// error, and the accepted connection is given up.
pub open spec fn incoming_step<S, C, L, E>(listener: L, replacement: Result<L, E>) -> Result<
    (Connection<S, C, L>, L),
    E,
> {
    match replacement {
        Ok(next) => Ok((Connection::Server(listener), next)),
        Err(error) => Err(error),
    }
}

impl<L> Incoming<L> {
    /// The first instance exists, so no later one asks for the name.
    #[verifier::type_invariant]
    spec fn name_is_reserved(self) -> bool {
        self.endpoint@.created
    }

    /// The pipe name that the stream listens at.
    pub fn path(&self) -> (path: &str)
        ensures
            path@ == self@.path,
    {
        self.endpoint.path()
    }

    /// The live listener: the instance to accept the next client on.
    pub fn listener(&self) -> (listener: &L)
        ensures
            *listener == self@.listener,
    {
        &self.listener
    }

    /// The options for the instance that replaces the live one. It never asks
    /// for the first instance.
    pub fn listener_options(&self) -> (options: PipeOptions)
        ensures
            options == pipe_options(false),
    {
        proof {
            use_type_invariant(self);
        }
        self.endpoint.listener_options()
    }

    /// Completes one pull on the stream. A client has connected to the live
    /// listener, and the caller has tried to create the next instance with
    /// `listener_options` before anything is yielded.
    ///
    /// With the new instance the pull yields the connection to the client
    /// together with the stream, which now listens on the new instance.
    /// Without it the stream is over and the pull gives the error.
    pub fn accepted<S, C, E>(self, replacement: Result<L, E>) -> (pulled: Result<
        (Connection<S, C, L>, Incoming<L>),
        E,
    >)
        ensures
            match incoming_step::<S, C, L, E>(self@.listener, replacement) {
                Ok((connection, next)) => pulled matches Ok((yielded, stream)) && yielded
                    == connection && stream@ == (IncomingState { path: self@.path, listener: next }),
                Err(error) => pulled == Err::<(Connection<S, C, L>, Incoming<L>), E>(error),
            },
    {
        proof {
            use_type_invariant(&self);
        }
        let Incoming { endpoint, listener } = self;
        let mut endpoint = endpoint;
        match endpoint.create_listener(replacement) {
            Ok(next) => Ok((Connection::Server(listener), Incoming { endpoint, listener: next })),
            Err(error) => Err(error),
        }
    }
}

impl IpcEndpoint {
    /// Turns the endpoint into the stream of its incoming connections, given
    /// the outcome of creating its first instance with `listener_options`.
    /// Without that instance there is no stream, and the error is handed on.
    pub fn incoming<L, E>(self, first: Result<L, E>) -> (stream: Result<Incoming<L>, E>)
        ensures
            match first {
                Ok(listener) => stream matches Ok(incoming) && incoming@ == (IncomingState {
                    path: self@.path,
                    listener,
                }),
                Err(error) => stream == Err::<Incoming<L>, E>(error),
            },
    {
        let mut endpoint = self;
        match endpoint.create_listener(first) {
            Ok(listener) => Ok(Incoming { endpoint, listener }),
            Err(error) => Err(error),
        }
    }
}

/// What a stream has come to after a series of pulls.
pub struct IncomingRun<S, C, L, E> {
    /// The connections yielded so far, in the order of their yielding.
    pub yielded: Seq<Connection<S, C, L>>,
    /// The live listener, or the error that ended the stream.
    pub state: Result<L, E>,
}

/// Where a stream that began with the listener `first` stands after one pull
/// for each of `replacements`: the outcomes of creating the next instance, in
/// the order in which clients connected. Nothing is pulled from a stream that
/// has ended.
pub open spec fn incoming_run<S, C, L, E>(first: L, replacements: Seq<Result<L, E>>) -> IncomingRun<
    S,
    C,
    L,
    E,
>
    decreases replacements.len(),
{
    if replacements.len() == 0 {
        IncomingRun { yielded: Seq::empty(), state: Ok(first) }
    } else {
        let before = incoming_run::<S, C, L, E>(first, replacements.drop_last());
        match before.state {
            Err(_) => before,
            Ok(listener) => match incoming_step::<S, C, L, E>(listener, replacements.last()) {
                Ok((connection, next)) => IncomingRun {
                    yielded: before.yielded.push(connection),
                    state: Ok(next),
                },
                Err(error) => IncomingRun { yielded: before.yielded, state: Err(error) },
            },
        }
    }
}

/// The listener that the client of number `i` (counted from zero) reaches:
/// the first instance, then each replacement in turn.
pub open spec fn listener_of<L, E>(first: L, replacements: Seq<Result<L, E>>, i: int) -> L {
    if i == 0 {
        first
    } else {
        replacements[i - 1]->Ok_0
    }
}

/// Every client that connects is yielded, and the stream stays open. If the
/// next instance is created after each of a number of connects, the stream
/// has yielded as many connections, in the order of the connects, each the
/// server connection over the instance that its client reached, and the
/// instance created last is live for the next client.
pub proof fn lemma_every_connect_is_yielded<S, C, L, E>(first: L, replacements: Seq<Result<L, E>>)
    requires
        forall|i: int| 0 <= i < replacements.len() ==> (#[trigger] replacements[i]) is Ok,
    ensures
        incoming_run::<S, C, L, E>(first, replacements).yielded.len() == replacements.len(),
        forall|i: int|
            0 <= i < replacements.len() ==> #[trigger] incoming_run::<S, C, L, E>(
                first,
                replacements,
            ).yielded[i] == Connection::<S, C, L>::Server(listener_of(first, replacements, i)),
        incoming_run::<S, C, L, E>(first, replacements).state == Ok::<L, E>(
            listener_of(first, replacements, replacements.len() as int),
        ),
    decreases replacements.len(),
{
    if replacements.len() > 0 {
        let before = replacements.drop_last();
        assert forall|i: int| 0 <= i < before.len() implies (#[trigger] before[i]) is Ok by {
            assert(before[i] == replacements[i]);
        }
        lemma_every_connect_is_yielded::<S, C, L, E>(first, before);
        let run_before = incoming_run::<S, C, L, E>(first, before);
        let run = incoming_run::<S, C, L, E>(first, replacements);
        assert(replacements.last() == replacements[replacements.len() - 1]);
        assert(replacements.last() is Ok);
        assert forall|i: int| 0 <= i < replacements.len() implies #[trigger] run.yielded[i]
            == Connection::<S, C, L>::Server(listener_of(first, replacements, i)) by {
            if i < before.len() {
                assert(run.yielded[i] == run_before.yielded[i]);
                assert(listener_of(first, before, i) == listener_of(first, replacements, i)) by {
                    if i > 0 {
                        assert(before[i - 1] == replacements[i - 1]);
                    }
                }
            } else {
                assert(listener_of(first, before, before.len() as int) == listener_of(
                    first,
                    replacements,
                    i,
                )) by {
                    if i > 0 {
                        assert(before[i - 1] == replacements[i - 1]);
                    }
                }
            }
        }
    }
}

/// A stream that cannot replace its listener ends there. If the next
/// instance is created after each of the first `failed` connects and not
/// after the one that follows, the stream has yielded those `failed`
/// connections and no more, and has ended with the error of the failed
/// creation, whatever is tried afterwards.
pub proof fn lemma_failed_replacement_ends_stream<S, C, L, E>(
    first: L,
    replacements: Seq<Result<L, E>>,
    failed: int,
)
    requires
        0 <= failed < replacements.len(),
        forall|i: int| 0 <= i < failed ==> (#[trigger] replacements[i]) is Ok,
        replacements[failed] is Err,
    ensures
        incoming_run::<S, C, L, E>(first, replacements).yielded == incoming_run::<S, C, L, E>(
            first,
            replacements.take(failed),
        ).yielded,
        incoming_run::<S, C, L, E>(first, replacements).yielded.len() == failed,
        incoming_run::<S, C, L, E>(first, replacements).state == Err::<L, E>(
            replacements[failed]->Err_0,
        ),
    decreases replacements.len() - failed,
{
    let served = replacements.take(failed);
    if failed + 1 == replacements.len() {
        assert(replacements.drop_last() == served);
        assert(replacements.last() == replacements[failed]);
        assert forall|i: int| 0 <= i < served.len() implies (#[trigger] served[i]) is Ok by {
            assert(served[i] == replacements[i]);
        }
        lemma_every_connect_is_yielded::<S, C, L, E>(first, served);
    } else {
        let before = replacements.drop_last();
        assert(before.take(failed) == served);
        assert(before[failed] == replacements[failed]);
        assert forall|i: int| 0 <= i < failed implies (#[trigger] before[i]) is Ok by {
            assert(before[i] == replacements[i]);
        }
        lemma_failed_replacement_ends_stream::<S, C, L, E>(first, before, failed);
    }
}

} // verus!
