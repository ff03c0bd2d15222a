pub mod behavior;
pub mod behavior_ascending_price;
pub mod behavior_descending_price;
