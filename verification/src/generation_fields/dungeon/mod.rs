//! Dungeons of halls and rooms on a hexagonal grid.
pub mod cell_type;
pub mod connections;
pub mod generator;
pub mod reducer;
pub mod room;
pub mod weighted;

pub use cell_type::all_halls;
pub use cell_type::all_rooms;
pub use cell_type::cell_probabilities;
pub use cell_type::possible_connections;
pub use cell_type::DungeonCellType;
pub use cell_type::NUM_POSSIBLE_DUNGEON_CELLS;
pub use connections::CellConnections;
pub use weighted::get_random_cell_type;
pub use weighted::weighted_pick;
pub use reducer::DungeonReducer;
pub use room::DungeonRoom;
pub use room::DungeonRoomShape;
pub use generator::view::DungeonGeneratorState;
pub use generator::DungeonGenerator;
