//! The data back end's registry of the load balancers it talks to.

use vstd::prelude::*;

use crate::request::Request;

verus! {

/// The receiving end of a `std::sync::mpsc` channel.
#[verifier::external_type_specification]
#[verifier::external_body]
#[verifier::reject_recursive_types(T)]
pub struct ExReceiver<T>(std::sync::mpsc::Receiver<T>);

/// The sending end of a `std::sync::mpsc` channel.
#[verifier::external_type_specification]
#[verifier::external_body]
#[verifier::reject_recursive_types(T)]
pub struct ExSender<T>(std::sync::mpsc::Sender<T>);

/// What an old-style request to the data back end was about.
#[derive(PartialEq, Eq, Structural, Clone, Copy, Debug)]
pub enum DataTypes {
    Shutdown,
    NewLoadBalancer,
    NewClientIO,
    NewClient,
}

/// An old-style request to the data back end.
pub struct RequestOLD {
    pub data_type: DataTypes,
    pub data: String,
    pub options: String,
}

/// The channels to and from one load balancer.
pub struct Communications {
    pub data_in: std::sync::mpsc::Receiver<Request>,
    pub data_out: std::sync::mpsc::Sender<Request>,
    pub name: String,
}

/// The data back end: the load balancers it serves.
pub struct Data {
    pub balancers: Vec<Communications>,
}

impl Data {
    /// A back end that serves no load balancer yet.
    pub fn new() -> (res: Data)
        ensures
            res.balancers@.len() == 0,
    {
        Data { balancers: Vec::new() }
    }

    /// Starts serving; the back end does nothing yet.
    pub fn start(&mut self)
        ensures
            final(self).balancers@ == old(self).balancers@,
    {
    }
}

} // verus!
