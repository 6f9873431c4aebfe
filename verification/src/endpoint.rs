use vstd::prelude::*;

verus! {

/// Size in bytes of the input buffer and of the output buffer of every pipe
/// instance.
pub const PIPE_BUFFER_SIZE: u32 = 65536;

/// How one named-pipe instance is to be created.
#[derive(Clone, Copy, Debug, PartialEq, Eq)]
pub struct PipeOptions {
    /// The instance reserves the name: creating it fails if the name is taken.
    pub first_pipe_instance: bool,
    /// Clients from other machines are turned away.
    pub reject_remote_clients: bool,
    /// Clients may write to the server.
    pub access_inbound: bool,
    /// The server may write to clients.
    pub access_outbound: bool,
    /// Size of the input buffer, in bytes.
    pub in_buffer_size: u32,
    /// Size of the output buffer, in bytes.
    pub out_buffer_size: u32,
}

/// The options of a pipe instance, given whether it is the one that reserves
/// the name: local clients only, both directions open, both buffers of
/// `PIPE_BUFFER_SIZE` bytes.
pub open spec fn pipe_options(first: bool) -> PipeOptions {
    PipeOptions {
        first_pipe_instance: first,
        reject_remote_clients: true,
        access_inbound: true,
        access_outbound: true,
        in_buffer_size: PIPE_BUFFER_SIZE,
        out_buffer_size: PIPE_BUFFER_SIZE,
    }
}

/// What an endpoint is, to a contract: its name, and whether an instance of
/// it has been created already.
pub struct EndpointState {
    pub path: Seq<char>,
    pub created: bool,
}

/// The endpoint after an attempt to create an instance of it: a success marks
/// it as created, and nothing ever takes the mark away.
pub open spec fn after_create(endpoint: EndpointState, success: bool) -> EndpointState {
    EndpointState { path: endpoint.path, created: endpoint.created || success }
}

/// The endpoint after a series of attempts to create an instance of it, of
/// which `successes` tells which ones succeeded.
pub open spec fn after_creates(endpoint: EndpointState, successes: Seq<bool>) -> EndpointState
    decreases successes.len(),
{
    if successes.len() == 0 {
        endpoint
    } else {
        after_create(after_creates(endpoint, successes.drop_last()), successes.last())
    }
}

/// A named local address at which a listener accepts connections.
pub struct IpcEndpoint {
    path: String,
    /// Only one pipe instance may reserve the name; set once that one exists.
    created: bool,
}

impl View for IpcEndpoint {
    type V = EndpointState;

    closed spec fn view(&self) -> EndpointState {
        EndpointState { path: self.path@, created: self.created }
    }
}

impl IpcEndpoint {
    /// New IPC endpoint at the given path. No instance of it exists yet.
    pub fn new(path: String) -> (endpoint: Self)
        ensures
            endpoint@.path == path@,
            !endpoint@.created,
    {
        IpcEndpoint { path, created: false }
    }

    /// The path or pipe name of the endpoint.
    pub fn path(&self) -> (path: &str)
        ensures
            path@ == self@.path,
    {
        self.path.as_str()
    }

    /// Whether an instance of the endpoint has been created.
    pub fn is_created(&self) -> (created: bool)
        ensures
            created == self@.created,
    {
        self.created
    }

    /// The options for the next pipe instance of this endpoint. Exactly the
    /// first instance reserves the name.
    pub fn listener_options(&self) -> (options: PipeOptions)
        ensures
            options == pipe_options(!self@.created),
    {
        PipeOptions {
            first_pipe_instance: !self.created,
            reject_remote_clients: true,
            access_inbound: true,
            access_outbound: true,
            in_buffer_size: PIPE_BUFFER_SIZE,
            out_buffer_size: PIPE_BUFFER_SIZE,
        }
    }

    /// Takes note of an attempt to create a pipe instance with
    /// `listener_options`. A success marks the endpoint as created, a failure
    /// leaves it as it was; the outcome is handed on unchanged.
    pub fn create_listener<L, E>(&mut self, attempt: Result<L, E>) -> (listener: Result<L, E>)
        ensures
            listener == attempt,
            final(self)@ == after_create(old(self)@, attempt is Ok),
    {
        match attempt {
            Ok(listener) => {
                self.created = true;
                Ok(listener)
            },
            Err(error) => Err(error),
        }
    }
}

/// Only one instance reserves the name. Of the attempts to create an
/// instance of an endpoint that had none, each made with the options that the
/// endpoint gives at that time, an attempt asks for the first instance if and
/// only if no attempt before it succeeded.
pub proof fn lemma_first_instance_until_created(
    endpoint: EndpointState,
    successes: Seq<bool>,
    i: int,
)
    requires
        !endpoint.created,
        0 <= i <= successes.len(),
    ensures
        after_creates(endpoint, successes.take(i)).path == endpoint.path,
        pipe_options(!after_creates(endpoint, successes.take(i)).created).first_pipe_instance
            <==> forall|j: int| 0 <= j < i ==> !#[trigger] successes[j],
    decreases i,
{
    if i > 0 {
        let before = successes.take(i);
        assert(before.drop_last() == successes.take(i - 1));
        assert(before.last() == successes[i - 1]);
        lemma_first_instance_until_created(endpoint, successes, i - 1);
    }
}

} // verus!
