pub mod faction;
pub mod navgrid;
pub mod pathfind;
pub mod nearest;
pub mod route;
pub mod economy;
pub mod kinds;
pub mod components;
pub mod text;
pub mod matchmaker;
pub mod lobby;
pub mod session;
pub mod rules;
pub mod map;
pub mod spawner;
pub mod combat;
pub mod mining;
pub mod abilities;
pub mod movement;
pub mod orders;
pub mod http;
