//! Client core of Crabcraft.
pub mod archive;
pub mod bits;
pub mod book;
pub mod book_screen;
pub mod chars;
pub mod chunks;
pub mod cli;
pub mod clicks;
pub mod commands;
pub mod component;
pub mod component_windows;
pub mod digging;
pub mod effects;
pub mod entities;
pub mod hash;
pub mod items;
pub mod join;
pub mod json;
pub mod labels;
pub mod looks;
pub mod maps;
pub mod metadata;
pub mod motion;
pub mod named;
pub mod nbt;
pub mod order;
pub mod overlays;
pub mod packets;
pub mod packs;
pub mod particles;
pub mod play;
pub mod player;
pub mod players;
pub mod protocol;
pub mod recipe_book;
pub mod recipes;
pub mod registries;
pub mod resource_pack;
pub mod scoreboard;
pub mod screens;
pub mod session;
pub mod signs;
pub mod slots;
pub mod sounds;
pub mod table;
pub mod text;
pub mod typing;
pub mod uuids;
pub mod windows;
pub mod wire;
