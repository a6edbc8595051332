//! Flow edges: directed, resource-typed connections between node ports.

use vstd::prelude::*;

use crate::recipe_window::RecipeWindowType;
use crate::resources::FlowError;
use crate::resources::FlowErrorType;
use crate::resources::ResourceDefinition;
use crate::resources::ResourceDefinitionV;

verus! {

/// Whether an edge is still being drawn or is fixed at both ends.
#[derive(Debug, PartialEq, Eq, Structural, Copy, Clone)]
pub enum ArrowUsageState {
    Active,
    Anchored,
}

/// A directed edge carrying one resource from a (node, port) start to a
/// (node, port) end.  Until [`ArrowFlow::put_end`] succeeds the edge is
/// `Active` and has no end.
#[derive(Debug)]
pub struct ArrowFlow {
    pub state: ArrowUsageState,
    /// The resource the edge carries.
    pub resource: ResourceDefinition,
    pub start_flow_window: u64,
    pub start_flow_type: RecipeWindowType,
    pub end_flow_window: Option<u64>,
    pub end_flow_type: Option<RecipeWindowType>,
    pub start_flow_index: usize,
    pub end_flow_index: usize,
}

/// The mathematical value of an [`ArrowFlow`].
#[verifier::ext_equal]
pub ghost struct ArrowV {
    pub state: ArrowUsageState,
    pub resource: ResourceDefinitionV,
    pub start_flow_window: u64,
    pub start_flow_type: RecipeWindowType,
    pub end_flow_window: Option<u64>,
    pub end_flow_type: Option<RecipeWindowType>,
    pub start_flow_index: usize,
    pub end_flow_index: usize,
}

impl View for ArrowFlow {
    type V = ArrowV;

    open spec fn view(&self) -> ArrowV {
        ArrowV {
            state: self.state,
            resource: self.resource@,
            start_flow_window: self.start_flow_window,
            start_flow_type: self.start_flow_type,
            end_flow_window: self.end_flow_window,
            end_flow_type: self.end_flow_type,
            start_flow_index: self.start_flow_index,
            end_flow_index: self.end_flow_index,
        }
    }
}

impl Clone for ArrowFlow {
    fn clone(&self) -> (r: Self)
        ensures
            r@ == self@,
    {
        ArrowFlow {
            state: self.state,
            resource: self.resource.clone(),
            start_flow_window: self.start_flow_window,
            start_flow_type: self.start_flow_type,
            end_flow_window: self.end_flow_window,
            end_flow_type: self.end_flow_type,
            start_flow_index: self.start_flow_index,
            end_flow_index: self.end_flow_index,
        }
    }
}

impl ArrowFlow {
    /// A new edge being drawn from the given start point, carrying
    /// `resource`.
    pub fn new(
        resource: ResourceDefinition,
        start_flow: u64,
        start_flow_type: RecipeWindowType,
        flow_index: usize,
    ) -> (r: Self)
        ensures
            r@ == (ArrowV {
                state: ArrowUsageState::Active,
                resource: resource@,
                start_flow_window: start_flow,
                start_flow_type,
                end_flow_window: None,
                end_flow_type: None,
                start_flow_index: flow_index,
                end_flow_index: 0usize,
            }),
    {
        ArrowFlow {
            state: ArrowUsageState::Active,
            resource,
            start_flow_window: start_flow,
            start_flow_type,
            end_flow_window: None,
            end_flow_type: None,
            start_flow_index: flow_index,
            end_flow_index: 0,
        }
    }

    /// Anchor the edge at an end point.  When the end point's resource is
    /// known and differs from the edge's, the anchoring fails with
    /// `WrongResourceType` and the edge is left exactly as it was (its end
    /// stays unset); otherwise the end is recorded and the edge becomes
    /// `Anchored`.
    pub fn put_end(
        &mut self,
        resource: Option<ResourceDefinition>,
        end_flow: u64,
        end_flow_type: RecipeWindowType,
        flow_index: usize,
    ) -> (r: Result<(), FlowError>)
        ensures
            (match resource {
                Some(res) => res@ != old(self)@.resource,
                None => false,
            }) ==> r == Err::<(), FlowError>(FlowError {
                error_type: FlowErrorType::WrongResourceType,
            }) && final(self)@ == old(self)@,
            (match resource {
                Some(res) => res@ == old(self)@.resource,
                None => true,
            }) ==> r == Ok::<(), FlowError>(()) && final(self)@ == (ArrowV {
                state: ArrowUsageState::Anchored,
                end_flow_window: Some(end_flow),
                end_flow_type: Some(end_flow_type),
                end_flow_index: flow_index,
                ..old(self)@
            }),
    {
        match &resource {
            Some(res) => {
                if !(*res == self.resource) {
                    return Err(FlowError::new(FlowErrorType::WrongResourceType));
                }
            },
            None => {},
        }
        self.end_flow_window = Some(end_flow);
        self.end_flow_type = Some(end_flow_type);
        self.end_flow_index = flow_index;
        self.state = ArrowUsageState::Anchored;
        Ok(())
    }
}

} // verus!
