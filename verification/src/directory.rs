//! The service directory's ping handler: the one piece of that service's
//! behaviour that is not transport plumbing.

use vstd::prelude::*;

verus! {

/// A ping, carrying the caller's name.
#[derive(Debug, PartialEq, Default)]
pub struct TestRequestMessage {
    pub client_name: String,
}

/// The answer to a ping, carrying the server's name.
#[derive(Debug, PartialEq, Default)]
pub struct TestResponseMessage {
    pub server_name: String,
}

/// The service directory.
#[derive(Default)]
pub struct ServiceDirectoryImpl {}

impl ServiceDirectoryImpl {
    /// Answer a ping: whatever the request carries, the response names
    /// this server.
    #[allow(unused_variables)]
    pub fn test_ping(&self, request: TestRequestMessage) -> (r: TestResponseMessage)
        ensures
            r.server_name@ == "Server"@,
    {
        TestResponseMessage { server_name: "Server".to_owned() }
    }
}

} // verus!
