pub mod textures;
pub mod theme;
pub mod text;
pub mod level;
pub mod i18n;
pub mod locales;
pub mod vehicle;
pub mod obstacle;
pub mod audio;
pub mod board;
pub mod session;
pub mod solver;
