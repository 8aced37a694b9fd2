//! Wave function collapse over a hexagonal grid.
pub mod context;
pub mod grid;
pub mod location;
pub mod propagation;
pub mod totals;

pub use context::WaveFunctionCollapseContext;
pub use grid::GridView;
pub use grid::HexGrid;
pub use grid::MaybeCell;
pub use grid::PendingCell;
pub use location::GridLocation;
pub use location::opposite_direction;
pub use propagation::WafeFunctionReducer;
pub use propagation::WfcView;
