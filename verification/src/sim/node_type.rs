use vstd::prelude::*;
use vstd::string::*;

verus! {

/// Role of a node in the network.
#[derive(Debug, PartialEq, Eq)]
pub enum NodeType {
    Coordinator,
    Router,
    EndDevice,
    UserType(String),
}

/// What a `NodeType` holds, as a mathematical value.
pub enum NodeTypeView {
    Coordinator,
    Router,
    EndDevice,
    UserType(Seq<char>),
}

impl View for NodeType {
    type V = NodeTypeView;

    open spec fn view(&self) -> NodeTypeView {
        match self {
            NodeType::Coordinator => NodeTypeView::Coordinator,
            NodeType::Router => NodeTypeView::Router,
            NodeType::EndDevice => NodeTypeView::EndDevice,
            NodeType::UserType(s) => NodeTypeView::UserType(s@),
        }
    }
}

impl Clone for NodeType {
    fn clone(&self) -> (r: Self)
        ensures
            r@ == self@,
    {
        match self {
            NodeType::Coordinator => NodeType::Coordinator,
            NodeType::Router => NodeType::Router,
            NodeType::EndDevice => NodeType::EndDevice,
            NodeType::UserType(s) => NodeType::UserType(s.clone()),
        }
    }
}

impl NodeType {
    /// The role that a configuration word names; an unknown word is a role of
    /// the user's own.
    pub open spec fn spec_new(s: Seq<char>) -> NodeTypeView {
        if s == "coordinator"@ {
            NodeTypeView::Coordinator
        } else if s == "router"@ {
            NodeTypeView::Router
        } else if s == "end_device"@ {
            NodeTypeView::EndDevice
        } else {
            NodeTypeView::UserType(s)
        }
    }

    pub fn new(node_type: &str) -> (r: Self)
        ensures
            r@ == Self::spec_new(node_type@),
    {
        let word = String::from_str(node_type);
        if word == String::from_str("coordinator") {
            NodeType::Coordinator
        } else if word == String::from_str("router") {
            NodeType::Router
        } else if word == String::from_str("end_device") {
            NodeType::EndDevice
        } else {
            NodeType::UserType(word)
        }
    }

    pub fn is_coordinator(&self) -> (b: bool)
        ensures
            b == (self@ is Coordinator),
    {
        matches!(self, NodeType::Coordinator)
    }

    pub fn is_router(&self) -> (b: bool)
        ensures
            b == (self@ is Router),
    {
        matches!(self, NodeType::Router)
    }
}

} // verus!
