//! Model construction for many-core system descriptions.
//!
//! A decoded description of a grid of cores is validated, put in identifier
//! order and completed with the data that is derived from it: router
//! identifiers, matrix-edge flags, the task placement index, the border
//! association and the catalogue of attributes that a front end may request.

pub mod attributes;
pub mod borders;
pub mod channels;
pub mod configurable_attributes;
pub mod cores;
pub mod error;
pub mod graph;
pub mod inference;
pub mod laws;
pub mod overwrite;
pub mod placement;
pub mod router;
pub mod routing;
pub mod system;
pub mod text;
pub mod topology;
pub mod validation;

pub use crate::attributes::AttributeBag;
pub use crate::borders::{BorderKind, BorderRouter, Borders};
pub use crate::channels::{Channel, Channels, Directions, Flow};
pub use crate::configurable_attributes::{
    AttributeRegistry, AttributeType, ConfigurableAttributes, BORDER_ROUTERS_KEY, COORDINATES_KEY,
    ID_KEY, ROUTING_KEY,
};
pub use crate::cores::{Core, Cores, MatrixEdge};
pub use crate::error::{generation_error, ManycoreError, ManycoreErrorKind};
pub use crate::graph::{Edge, Task, TaskGraph};
pub use crate::router::Router;
pub use crate::routing::{supported_algorithms, RoutingAlgorithms};
pub use crate::system::{DecodedSystem, ManycoreSystem};
