//! The health endpoint's one answer.
//!
//! Every request to the local health port gets 200 with a small JSON body;
//! only the `vsock` member varies, with the connection-alive flag.

use vstd::prelude::*;

verus! {

use vstd::string::StringExecFns;

/// The health body for the current connection state.
pub fn health_body(vsock_connected: bool) -> (r: String)
    ensures
        vsock_connected ==> r@
            == "{\"proxy\":\"running\",\"status\":\"healthy\",\"vsock\":\"connected\"}"@,
        !vsock_connected ==> r@
            == "{\"proxy\":\"running\",\"status\":\"healthy\",\"vsock\":\"disconnected\"}"@,
{
    if vsock_connected {
        String::from_str("{\"proxy\":\"running\",\"status\":\"healthy\",\"vsock\":\"connected\"}")
    } else {
        String::from_str(
            "{\"proxy\":\"running\",\"status\":\"healthy\",\"vsock\":\"disconnected\"}",
        )
    }
}

} // verus!
