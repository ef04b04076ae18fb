//! The control sequences the stopwatch writes, and the whole texts written
//! under the terminal lock: one frame per tick, one startup and one cleanup.
use crate::hms::{format_seconds, hms_text};
use vstd::prelude::*;
use vstd::string::*;

verus! {

/// ESC 7: remember the cursor position.
pub open spec fn save_code() -> Seq<char> {
    seq!['\u{1b}', '7']
}

/// ESC 8: return to the remembered cursor position.
pub open spec fn restore_code() -> Seq<char> {
    seq!['\u{1b}', '8']
}

/// CSI J: erase from the cursor to the end of the screen.
pub open spec fn clear_down_code() -> Seq<char> {
    seq!['\u{1b}', '[', 'J']
}

/// CSI ?25l: hide the text cursor.
pub open spec fn hide_code() -> Seq<char> {
    seq!['\u{1b}', '[', '?', '2', '5', 'l']
}

/// CSI ?25h: show the text cursor.
pub open spec fn show_code() -> Seq<char> {
    seq!['\u{1b}', '[', '?', '2', '5', 'h']
}

/// One redraw of the time shown for `s` seconds: save the cursor, clear what
/// lies below it, write the time, put the cursor back.
pub open spec fn frame(s: nat) -> Seq<char> {
    save_code() + clear_down_code() + hms_text(s) + restore_code()
}

/// The closing text: the cursor shown again and a newline after the final time.
pub open spec fn cleanup() -> Seq<char> {
    show_code() + seq!['\n']
}

/// Relies on crossterm's `cursor::SavePosition::write_ansi`, which writes `ESC 7`.
#[verifier::external_body]
fn save_position() -> (r: String)
    ensures
        r@ == save_code(),
{
    let mut out = String::new();
    let _ = crossterm::Command::write_ansi(&crossterm::cursor::SavePosition, &mut out);
    out
}

/// Relies on crossterm's `cursor::RestorePosition::write_ansi`, which writes `ESC 8`.
#[verifier::external_body]
fn restore_position() -> (r: String)
    ensures
        r@ == restore_code(),
{
    let mut out = String::new();
    let _ = crossterm::Command::write_ansi(&crossterm::cursor::RestorePosition, &mut out);
    out
}

/// Relies on crossterm's `terminal::Clear::write_ansi`, which writes `CSI J`
/// for `ClearType::FromCursorDown`.
#[verifier::external_body]
fn clear_from_cursor_down() -> (r: String)
    ensures
        r@ == clear_down_code(),
{
    let mut out = String::new();
    let clear = crossterm::terminal::Clear(crossterm::terminal::ClearType::FromCursorDown);
    let _ = crossterm::Command::write_ansi(&clear, &mut out);
    out
}

/// Relies on crossterm's `cursor::Hide::write_ansi`, which writes `CSI ?25l`.
#[verifier::external_body]
fn hide_cursor() -> (r: String)
    ensures
        r@ == hide_code(),
{
    let mut out = String::new();
    let _ = crossterm::Command::write_ansi(&crossterm::cursor::Hide, &mut out);
    out
}

/// Relies on crossterm's `cursor::Show::write_ansi`, which writes `CSI ?25h`.
#[verifier::external_body]
fn show_cursor() -> (r: String)
    ensures
        r@ == show_code(),
{
    let mut out = String::new();
    let _ = crossterm::Command::write_ansi(&crossterm::cursor::Show, &mut out);
    out
}

/// The text written once before the first tick: the cursor hidden.
pub fn startup_text() -> (r: String)
    ensures
        r@ == hide_code(),
{
    hide_cursor()
}

/// The whole text of one redraw for `seconds` elapsed seconds.
pub fn frame_text(seconds: u64) -> (r: String)
    ensures
        r@ == frame(seconds as nat),
{
    let mut out = save_position();
    let clear = clear_from_cursor_down();
    out.append(clear.as_str());
    let time = format_seconds(seconds);
    out.append(time.as_str());
    let restore = restore_position();
    out.append(restore.as_str());
    assert(out@ =~= frame(seconds as nat));
    out
}

/// The text written once at the end: cursor shown, then a newline.
pub fn cleanup_text() -> (r: String)
    ensures
        r@ == cleanup(),
{
    let mut out = show_cursor();
    proof { reveal_strlit("\n"); }
    out.append("\n");
    assert(out@ =~= cleanup());
    out
}

} // verus!
