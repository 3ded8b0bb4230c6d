use vstd::prelude::*;

use crate::ids::Signature;
use crate::keys::PublicKey;

verus! {

/// Whether the node serves the public or only its friends.
#[derive(Debug, Clone, Copy, PartialEq, Eq, Structural)]
pub enum ServerType {
    PublicServer,
    PrivateServer,
}

/// Requests to the module that holds the identity key.
#[derive(Debug)]
pub enum ToSecurityModule {
    RequestSign { message: Vec<u8> },
    RequestPublicKey {},
}

/// Answers of the module that holds the identity key.
#[derive(Debug, Clone, Copy)]
pub enum FromSecurityModule {
    ResponseSign { signature: Signature },
    ResponsePublicKey { public_key: PublicKey },
}

/// Events of the timer.
#[derive(Debug, Clone, Copy, PartialEq, Eq, Structural)]
pub enum FromTimer {
    TimeTick,
}

} // verus!
