//! The names most applications need.

pub use crate::client::LobbyStatus;
pub use crate::client::SteamP2PClient;
pub use crate::networked_events::Networked;
pub use crate::networked_events::NetworkedEventRegister;
pub use crate::networked_transform::NetworkedTransform;
pub use crate::FilePath;
pub use crate::LobbyJoined;
pub use crate::NetworkIdentity;
pub use crate::OtherJoined;
pub use crate::SteamId;
pub use crate::UnhandledInstantiation;
