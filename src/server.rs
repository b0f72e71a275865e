use vstd::prelude::*;

verus! {

/// Settings of the server, before it runs.
#[derive(Debug, Default)]
pub struct ServerBuilder {
    pub port: u16,
}

impl ServerBuilder {
    pub fn new(port: u16) -> (r: ServerBuilder)
        ensures
            r.port == port,
    {
        ServerBuilder { port }
    }
}

} // verus!
