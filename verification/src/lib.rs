//! A small library for serving rendered face thumbnails cut from square
//! texture atlases ("skins"), with a bounded least-recently-used memo cache
//! in front of the expensive decode/render/encode pipeline.

pub mod api;
pub mod cache;
pub mod codec;
pub mod config;
pub mod minecraft;
pub mod render;
pub mod skin;
pub mod web;
