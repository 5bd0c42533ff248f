//! The translation toast: its payload and where the toast window goes.
use vstd::prelude::*;

use crate::text::to_string;

verus! {

/// What the translation toast shows.
#[derive(Debug, Clone, PartialEq, Eq)]
pub struct TranslationToastPayload {
    pub original: String,
    pub translated: String,
    pub source_lang: String,
    pub target_lang: String,
    pub reverse: bool,
}

/// The toast that shows an error message: the message in place of the
/// translation, everything else empty.
pub fn show_translation_error(message: &str) -> (res: TranslationToastPayload)
    ensures
        res.original@ == Seq::<char>::empty(),
        res.translated@ == message@,
        res.source_lang@ == Seq::<char>::empty(),
        res.target_lang@ == Seq::<char>::empty(),
        !res.reverse,
{
    TranslationToastPayload {
        original: String::new(),
        translated: to_string(message),
        source_lang: String::new(),
        target_lang: String::new(),
        reverse: false,
    }
}

/// What the start-up toast shows.
#[derive(Debug, Clone, PartialEq, Eq)]
pub struct AppToastPayload {
    pub title: String,
    pub message: String,
}

/// The toast shown at start-up: the application runs and works in the
/// background.
pub fn startup_toast_payload() -> (res: AppToastPayload)
    ensures
        res.title@ == "KeyTweak запущен"@,
        res.message@ == "Горячие клавиши и Caps Lock работают в фоне."@,
{
    AppToastPayload {
        title: to_string("KeyTweak запущен"),
        message: to_string("Горячие клавиши и Caps Lock работают в фоне."),
    }
}

/// The bounds of a monitor, in physical pixels.
#[derive(Debug, Clone, Copy, PartialEq, Eq)]
pub struct MonitorBounds {
    pub left: i32,
    pub top: i32,
    pub right: i32,
    pub bottom: i32,
}

/// A position in physical pixels.
#[derive(Debug, Clone, Copy, PartialEq, Eq)]
pub struct Position {
    pub x: i64,
    pub y: i64,
}

/// Integer division rounding toward zero, as Rust's `/` does.
pub open spec fn div_toward_zero(a: int, b: int) -> int {
    if a >= 0 {
        a / b
    } else {
        -((-a) / b)
    }
}

impl MonitorBounds {
    /// The middle of the monitor.
    pub fn center(&self) -> (res: Position)
        ensures
            res.x == div_toward_zero(self.left + self.right, 2),
            res.y == div_toward_zero(self.top + self.bottom, 2),
    {
        let sx: i64 = self.left as i64 + self.right as i64;
        let sy: i64 = self.top as i64 + self.bottom as i64;
        let x: i64 = if sx >= 0 {
            sx / 2
        } else {
            -((-sx) / 2)
        };
        let y: i64 = if sy >= 0 {
            sy / 2
        } else {
            -((-sy) / 2)
        };
        Position { x, y }
    }

    /// The position that puts a window of the given size `margin` pixels
    /// from the bottom-right corner.
    pub fn corner_pos(&self, width: u32, height: u32, margin: i32) -> (res: Position)
        ensures
            res.x == self.right - width - margin,
            res.y == self.bottom - height - margin,
    {
        Position {
            x: self.right as i64 - width as i64 - margin as i64,
            y: self.bottom as i64 - height as i64 - margin as i64,
        }
    }
}

/// How far the toast is placed from the cursor.
pub const TOAST_CURSOR_OFFSET: i64 = 16;
/// How far the toast keeps from the monitor edges.
pub const TOAST_EDGE_MARGIN: i64 = 8;

/// One coordinate of the toast: after the cursor, or before it when it
/// would overflow the far edge; then kept `TOAST_EDGE_MARGIN` inside both
/// edges, the near edge first.
pub open spec fn toast_coordinate(cursor: int, size: int, low: int, high: int) -> int {
    let a = if cursor + 16 + size > high { cursor - 16 - size } else { cursor + 16 };
    let b = if a < low + 8 { low + 8 } else { a };
    if b + size > high - 8 { high - 8 - size } else { b }
}

fn clamp_coordinate(cursor: i64, size: i64, low: i64, high: i64) -> (res: i64)
    requires
        -0x1_0000_0000 <= cursor <= 0x1_0000_0000,
        0 <= size <= 0x1_0000_0000,
        -0x1_0000_0000 <= low <= 0x1_0000_0000,
        -0x1_0000_0000 <= high <= 0x1_0000_0000,
    ensures
        res == toast_coordinate(cursor as int, size as int, low as int, high as int),
{
    let mut a = cursor + TOAST_CURSOR_OFFSET;
    if a + size > high {
        a = cursor - TOAST_CURSOR_OFFSET - size;
    }
    if a < low + TOAST_EDGE_MARGIN {
        a = low + TOAST_EDGE_MARGIN;
    }
    if a + size > high - TOAST_EDGE_MARGIN {
        a = high - TOAST_EDGE_MARGIN - size;
    }
    a
}

/// Where the translation toast of the given size goes: next to the cursor
/// (or to the monitor centre when the cursor is unknown), flipped to the
/// other side of the cursor when it would leave the monitor, and kept
/// inside the monitor's margins.
pub fn toast_position(bounds: &MonitorBounds, cursor: Option<(i32, i32)>, width: u32, height: u32) -> (res:
    Position)
    ensures
        ({
            let (cx, cy) = match cursor {
                Some(c) => (c.0 as int, c.1 as int),
                None => (
                    div_toward_zero(bounds.left + bounds.right, 2),
                    div_toward_zero(bounds.top + bounds.bottom, 2),
                ),
            };
            &&& res.x == toast_coordinate(cx, width as int, bounds.left as int, bounds.right as int)
            &&& res.y == toast_coordinate(cy, height as int, bounds.top as int, bounds.bottom as int)
        }),
{
    let c = match cursor {
        Some(c) => Position { x: c.0 as i64, y: c.1 as i64 },
        None => bounds.center(),
    };
    let x = clamp_coordinate(c.x, width as i64, bounds.left as i64, bounds.right as i64);
    let y = clamp_coordinate(c.y, height as i64, bounds.top as i64, bounds.bottom as i64);
    Position { x, y }
}

/// Law: when the monitor is wide (tall) enough for the toast and its
/// margins, the toast lies within the margins.
pub proof fn toast_stays_inside(cursor: int, size: int, low: int, high: int)
    requires
        size >= 0,
        high - low >= size + 16,
    ensures
        low + 8 <= toast_coordinate(cursor, size, low, high),
        toast_coordinate(cursor, size, low, high) + size <= high - 8,
{
}

} // verus!
