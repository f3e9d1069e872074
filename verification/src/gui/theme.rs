//! The colour themes of the graphical front end.

use vstd::prelude::*;

use crate::tftp::log_buffer::LogLevel;

verus! {

/// A colour as red, green and blue.
#[derive(Debug, Clone, Copy, PartialEq, Eq, Structural)]
pub struct Rgb {
    pub r: u8,
    pub g: u8,
    pub b: u8,
}

/// The two themes.
#[derive(Debug, Clone, Copy, PartialEq, Eq, Structural)]
pub enum Theme {
    Dark,
    Light,
}

pub open spec fn rgb(r: u8, g: u8, b: u8) -> Rgb {
    Rgb { r, g, b }
}

impl Theme {
    pub fn sidebar_bg(&self) -> (c: Rgb)
        ensures
            c == match self {
                Theme::Dark => rgb(0x2f, 0x2f, 0x2f),
                Theme::Light => rgb(0xf0, 0xf0, 0xf5),
            },
    {
        match self {
            Theme::Dark => Rgb { r: 0x2f, g: 0x2f, b: 0x2f },
            Theme::Light => Rgb { r: 0xf0, g: 0xf0, b: 0xf5 },
        }
    }

    pub fn sidebar_text(&self) -> (c: Rgb)
        ensures
            c == match self {
                Theme::Dark => rgb(0xd0, 0xd0, 0xd0),
                Theme::Light => rgb(0x33, 0x33, 0x33),
            },
    {
        match self {
            Theme::Dark => Rgb { r: 0xd0, g: 0xd0, b: 0xd0 },
            Theme::Light => Rgb { r: 0x33, g: 0x33, b: 0x33 },
        }
    }

    pub fn sidebar_hover_bg(&self) -> (c: Rgb)
        ensures
            c == match self {
                Theme::Dark => rgb(0x3a, 0x3a, 0x3a),
                Theme::Light => rgb(0xe8, 0xe8, 0xf0),
            },
    {
        match self {
            Theme::Dark => Rgb { r: 0x3a, g: 0x3a, b: 0x3a },
            Theme::Light => Rgb { r: 0xe8, g: 0xe8, b: 0xf0 },
        }
    }

    pub fn sidebar_selected_bg(&self) -> (c: Rgb)
        ensures
            c == match self {
                Theme::Dark => rgb(0x44, 0x44, 0x44),
                Theme::Light => rgb(0xe0, 0xe0, 0xe8),
            },
    {
        match self {
            Theme::Dark => Rgb { r: 0x44, g: 0x44, b: 0x44 },
            Theme::Light => Rgb { r: 0xe0, g: 0xe0, b: 0xe8 },
        }
    }

    pub fn sidebar_selected_text(&self) -> (c: Rgb)
        ensures
            c == match self {
                Theme::Dark => rgb(0xff, 0xff, 0xff),
                Theme::Light => rgb(0x11, 0x11, 0x11),
            },
    {
        match self {
            Theme::Dark => Rgb { r: 0xff, g: 0xff, b: 0xff },
            Theme::Light => Rgb { r: 0x11, g: 0x11, b: 0x11 },
        }
    }

    pub fn accent(&self) -> (c: Rgb)
        ensures
            c == match self {
                Theme::Dark => rgb(0x6e, 0xa8, 0xfe),
                Theme::Light => rgb(0x19, 0x76, 0xd2),
            },
    {
        match self {
            Theme::Dark => Rgb { r: 0x6e, g: 0xa8, b: 0xfe },
            Theme::Light => Rgb { r: 0x19, g: 0x76, b: 0xd2 },
        }
    }

    pub fn status_running(&self) -> (c: Rgb)
        ensures
            c == rgb(0x4c, 0xaf, 0x50),
    {
        Rgb { r: 0x4c, g: 0xaf, b: 0x50 }
    }

    pub fn status_stopped(&self) -> (c: Rgb)
        ensures
            c == rgb(0x9e, 0x9e, 0x9e),
    {
        Rgb { r: 0x9e, g: 0x9e, b: 0x9e }
    }

    pub fn status_error(&self) -> (c: Rgb)
        ensures
            c == rgb(0xf4, 0x43, 0x36),
    {
        Rgb { r: 0xf4, g: 0x43, b: 0x36 }
    }

    /// The colour of a log level, the same in both themes.
    pub fn log_color(&self, level: LogLevel) -> (c: Rgb)
        ensures
            c == match level {
                LogLevel::Trace => rgb(0x90, 0x90, 0x90),
                LogLevel::Debug => rgb(0x00, 0xbc, 0xd4),
                LogLevel::Info => rgb(0x4c, 0xaf, 0x50),
                LogLevel::Warn => rgb(0xff, 0xc1, 0x07),
                LogLevel::Error => rgb(0xf4, 0x43, 0x36),
            },
    {
        match level {
            LogLevel::Trace => Rgb { r: 0x90, g: 0x90, b: 0x90 },
            LogLevel::Debug => Rgb { r: 0x00, g: 0xbc, b: 0xd4 },
            LogLevel::Info => Rgb { r: 0x4c, g: 0xaf, b: 0x50 },
            LogLevel::Warn => Rgb { r: 0xff, g: 0xc1, b: 0x07 },
            LogLevel::Error => Rgb { r: 0xf4, g: 0x43, b: 0x36 },
        }
    }
}

} // verus!
