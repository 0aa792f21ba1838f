//! The verified core of Mouse Shaker, an application that keeps a computer
//! awake by moving the mouse and pressing a key at configured intervals.
use vstd::prelude::*;

pub mod app;
pub mod icon;
pub mod settings;
pub mod text;
pub mod worker;

pub use app::{App, FrameOutcome, MenuCommand, MenuOutcome, RunCommand, TrayClick, WindowCommand};
pub use icon::RgbaImage;
pub use worker::{MouseJiggler, MouseMove, WaitOutcome};
pub use settings::{
    PersistedSettings, DEFAULT_KEY_INTERVAL_SECS, DEFAULT_MOUSE_INTERVAL_SECS, MAX_INTERVAL_SECS,
    SETTINGS_FILE_NAME,
};

verus! {

} // verus!
