pub mod card;
pub mod gem_type;
pub mod memo;
pub mod payment;
pub mod player;
pub mod token;

pub use crate::card::{effective_cost, Card, CardId, Cost};
pub use crate::gem_type::GemType;
pub use crate::payment::{payment_options, shortfall, token_match};
pub use crate::player::{
    InvalidCall, Player, PlayerPublicInfo, PlayerView, MAX_RESERVED, NOBLE_POINTS,
};
pub use crate::token::Tokens;
