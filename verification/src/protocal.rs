use vstd::prelude::*;

verus! {

/// A request sent by a client to the server.
#[derive(Clone, Copy, Debug, PartialEq, Eq, Structural)]
pub enum Request {
    /// Ask the server to send the number back.
    ReturnNumber(u32),
}

/// A response sent by the server to a client.
#[derive(Clone, Copy, Debug, PartialEq, Eq, Structural)]
pub enum Response {
    /// The number the server returns.
    Number(u32),
}

impl Request {
    /// The response the server gives to this request: it returns the
    /// number that was asked for.
    pub fn respond(&self) -> (response: Response)
        ensures
            match *self {
                Request::ReturnNumber(n) => response == Response::Number(n),
            },
    {
        match self {
            Request::ReturnNumber(n) => Response::Number(*n),
        }
    }
}

} // verus!
