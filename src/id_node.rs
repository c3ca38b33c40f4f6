use vstd::prelude::*;
use crate::connection::RelayConnectionNode;
use crate::cursor::RelayCursor;

verus! {

/// A record identified by an integer id, paged in id order.
#[derive(Debug, Clone, Copy, PartialEq, Eq)]
pub struct IdNode {
    pub id: i32,
}

impl RelayConnectionNode for IdNode {
    type Cursor = i32;

    open spec fn spec_cursor(&self) -> i32 {
        self.id
    }

    fn cursor(&self) -> (r: i32) {
        self.id
    }

    fn connection_type_name() -> &'static str {
        "IdNodeConnection"
    }

    fn edge_type_name() -> &'static str {
        "IdNodeConnectionEdge"
    }
}

} // verus!
