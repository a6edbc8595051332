//! Resource sinks: nodes that absorb a resource.

use vstd::prelude::*;

use crate::ports::InPortV;
use crate::ports::RecipeInputResource;

verus! {

/// A node that absorbs one resource.  Its input port is created lazily on
/// the first inbound connection, so its resource type is inferred from the
/// first flow that arrives.
#[derive(Debug)]
pub struct ResourceSink {
    /// Unique id of the node within its graph.
    pub id: u64,
    /// The input port, once the first connection arrived.
    pub sink: Option<RecipeInputResource>,
}

/// The mathematical value of a [`ResourceSink`].
#[verifier::ext_equal]
pub ghost struct SinkV {
    pub id: u64,
    pub sink: Option<InPortV>,
}

impl View for ResourceSink {
    type V = SinkV;

    open spec fn view(&self) -> SinkV {
        SinkV {
            id: self.id,
            sink: match self.sink {
                Some(p) => Some(p@),
                None => None,
            },
        }
    }
}

impl SinkV {
    /// The port, if present, is well formed.
    pub open spec fn wf(self) -> bool {
        match self.sink {
            Some(p) => p.wf(),
            None => true,
        }
    }
}

impl Clone for ResourceSink {
    fn clone(&self) -> (r: Self)
        ensures
            r@ == self@,
    {
        ResourceSink {
            id: self.id,
            sink: match &self.sink {
                Some(p) => Some(p.clone()),
                None => None,
            },
        }
    }
}

impl ResourceSink {
    /// A new sink with no port yet.
    pub fn new(id: u64) -> (r: Self)
        ensures
            r@ == (SinkV { id, sink: None }),
            r@.wf(),
    {
        Self { id, sink: None }
    }
}

} // verus!
