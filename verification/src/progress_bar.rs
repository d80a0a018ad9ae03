//! What a progress display is drawn with: bar styles, colours, and the
//! rendering of elapsed time. The display itself reads the clock and writes
//! to the terminal, and lives with the program that owns them.

pub mod progress;
pub mod style;
