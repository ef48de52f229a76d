//! The boundary between a host and the adapters that it was built with.
use crate::api::{AdapterError, AdapterErrorModel};
use crate::copy::Dup;
use crate::text;
use crate::text::Text;
use vstd::prelude::*;

verus! {

/// The diagnostics that a host takes from an adapter: messages, in the order they came.
#[derive(Debug)]
pub struct Host {
    pub messages: Vec<String>,
}

impl View for Host {
    type V = Seq<Text>;

    open spec fn view(&self) -> Seq<Text> {
        self.messages.deep_view()
    }
}

impl Host {
    /// A host that has heard nothing yet.
    pub fn new() -> (r: Self)
        ensures
            r@ == Seq::<Text>::empty(),
    {
        let r = Host { messages: Vec::new() };
        assert(r@ =~= Seq::<Text>::empty());
        r
    }

    /// Takes a message.
    pub fn info(&mut self, message: &str)
        ensures
            final(self)@ == old(self)@.push(message@),
    {
        let ghost before = self@;
        self.messages.push(message.to_owned());
        assert(self@ =~= before.push(message@));
    }
}

/// The adapters that a host can make, by name, in order.
#[derive(Debug)]
pub struct Registry {
    names: Vec<String>,
}

impl View for Registry {
    type V = Seq<Text>;

    closed spec fn view(&self) -> Seq<Text> {
        self.names.deep_view()
    }
}

/// An adapter of that name cannot be added.
pub open spec fn refused(name: Text) -> AdapterErrorModel {
    AdapterErrorModel::Invalid("duplicate or empty adapter: "@ + name)
}

/// An adapter of that name cannot be made.
pub open spec fn missing(name: Text) -> AdapterErrorModel {
    AdapterErrorModel::Invalid("unknown adapter: "@ + name)
}

impl Registry {
    /// No adapters.
    pub fn new() -> (r: Self)
        ensures
            r@ == Seq::<Text>::empty(),
            text::ordered(r@),
    {
        let r = Registry { names: Vec::new() };
        assert(r@ =~= Seq::<Text>::empty());
        r
    }

    /// Adds an adapter under a name that is not blank and not taken.
    pub fn register(&mut self, name: &str) -> (r: Result<(), AdapterError>)
        ensures
            text::ordered(old(self)@) ==> text::ordered(final(self)@),
            match r {
                Ok(()) => !text::blank(name@) && !old(self)@.contains(name@) && final(self)@
                    == text::placed(old(self)@, name@),
                Err(error) => (text::blank(name@) || old(self)@.contains(name@)) && final(self)@
                    == old(self)@ && error@ == refused(name@),
            },
    {
        if text::is_blank(name) || text::holds(&self.names, name) {
            return Err(
                AdapterError::Invalid(text::cat2("duplicate or empty adapter: ", name)),
            );
        }
        proof {
            if text::ordered(self@) {
                text::placed_is_ordered_insertion(self@, name@);
            }
        }
        text::place(&mut self.names, name.to_owned());
        Ok(())
    }

    /// The names of the adapters, in order.
    pub fn names(&self) -> (r: Vec<String>)
        ensures
            r.deep_view() == self@,
    {
        self.names.dup()
    }

    /// Accepts the name of an adapter that can be made.
    pub fn create(&self, name: &str) -> (r: Result<(), AdapterError>)
        ensures
            match r {
                Ok(()) => self@.contains(name@),
                Err(error) => !self@.contains(name@) && error@ == missing(name@),
            },
    {
        if text::holds(&self.names, name) {
            Ok(())
        } else {
            Err(AdapterError::Invalid(text::cat2("unknown adapter: ", name)))
        }
    }
}

/// An adapter that was added can be made, and one that could be made before still can.
pub proof fn registered_adapters_can_be_made(names: Seq<Text>, name: Text)
    requires
        text::ordered(names),
        !names.contains(name),
    ensures
        text::placed(names, name).contains(name),
        forall|other: Text| #[trigger]
            names.contains(other) ==> text::placed(names, name).contains(other),
{
    text::placed_is_ordered_insertion(names, name);
}

} // verus!
