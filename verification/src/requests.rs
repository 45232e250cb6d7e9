//! Data carried between a session client and the server endpoint that runs
//! the engine: the request to start a computation and the session chosen for
//! it. The transport that moves these values is outside the core.
use vstd::prelude::*;

use std::collections::HashMap;

use crate::circuit::{Circuit, CircuitBlake3Hash};

verus! {

/// A client's request to open a new session: the program text, the function
/// to run, and the fingerprint of the circuit the client compiled, which the
/// server must reproduce or abort.
#[derive(Debug)]
pub struct NewSession {
    /// Plaintext freely chosen by the client to influence the server's
    /// choice of its input.
    pub plaintext_metadata: String,
    /// The source program to execute.
    pub program: String,
    /// The name of the function to execute.
    pub function: String,
    /// The fingerprint of the compiled circuit.
    pub circuit_hash: CircuitBlake3Hash,
    /// The client's software version.
    pub client_version: String,
}

/// A request by a client to start a computation, as the server's handler
/// sees it.
pub struct MpcRequest {
    /// Plaintext freely chosen by the client to influence the server's
    /// choice of its input.
    pub plaintext_metadata: String,
    /// The source program to execute.
    pub program: String,
    /// The name of the function to execute.
    pub function: String,
}

/// Session information used by the server to start executing the protocol.
#[derive(Debug)]
pub struct MpcSession {
    /// The circuit to execute.
    pub circuit: Circuit,
    /// The server's input, kept hidden from the client.
    pub input_from_server: Vec<bool>,
    /// Optional headers the client should set for every later request, so
    /// that the transport can route the whole session to one server.
    pub request_headers: HashMap<String, String>,
}

} // verus!
