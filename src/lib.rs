//! Tournament and table aggregates for a multiplayer card room: seat
//! assignment, the tournament lifecycle, replay from the occurrence log, and
//! the fan-out of table occurrences to observers.

mod identity;

pub mod routing;
pub mod nickname;
pub mod player;
pub mod table;
pub mod tournament;

pub mod auth;
pub mod create_tournament;
pub mod find_tournaments;
pub mod join_tournament;
pub mod observe_table;
pub mod provider;
pub mod services;
pub mod traits;

pub use routing::TableEventBroadcast;
pub use nickname::Nickname;
pub use nickname::NicknameError;
pub use table::Table;
pub use table::TableError;
pub use table::TableEvent;
pub use table::TableEventType;
pub use table::TableSpecification;
pub use table::TableSpecificationError;
pub use table::TableState;
pub use tournament::Tournament;
pub use tournament::TournamentError;
pub use tournament::TournamentEvent;
pub use tournament::TournamentMessage;
pub use tournament::TournamentMessageType;
pub use tournament::TournamentSpecification;
pub use tournament::TournamentSpecificationError;
pub use tournament::TournamentStage;
