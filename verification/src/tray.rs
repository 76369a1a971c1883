use vstd::prelude::*;

use crate::text::chars_of;

verus! {

/// What the tray menu asks of the tracker.
#[derive(Debug, Clone, Copy, PartialEq, Eq)]
pub enum TrayCommand {
    ToggleHidden,
    Reload,
    Exit,
}

/// The menu item that hides or shows the activities.
pub const MENU_VISIBILITY: usize = 1001;

/// The menu item that reloads the configuration.
pub const MENU_RELOAD: usize = 1002;

/// The menu item that ends the program.
pub const MENU_EXIT: usize = 1003;

/// The command of a menu item, by its identifier.
pub open spec fn menu_command(id: usize) -> Option<TrayCommand> {
    if id == MENU_VISIBILITY {
        Some(TrayCommand::ToggleHidden)
    } else if id == MENU_RELOAD {
        Some(TrayCommand::Reload)
    } else if id == MENU_EXIT {
        Some(TrayCommand::Exit)
    } else {
        None
    }
}

/// The command of a menu message, whose low 16 bits of `wparam` name the item.
pub fn command_for_menu_id(wparam: usize) -> (r: Option<TrayCommand>)
    ensures
        r == menu_command(wparam & 0xffff),
{
    let id = wparam & 0xffff;
    if id == MENU_VISIBILITY {
        Some(TrayCommand::ToggleHidden)
    } else if id == MENU_RELOAD {
        Some(TrayCommand::Reload)
    } else if id == MENU_EXIT {
        Some(TrayCommand::Exit)
    } else {
        None
    }
}

/// What a tray command leaves of the two switches of the main loop.
pub struct TrayOutcome {
    pub hidden: bool,
    pub running: bool,
}

/// Applies a tray command: hiding toggles, exit stops, reload changes nothing yet.
pub fn handle_tray_command(command: TrayCommand, hidden: bool) -> (r: TrayOutcome)
    ensures
        r.hidden == (if command == TrayCommand::ToggleHidden {
            !hidden
        } else {
            hidden
        }),
        r.running == (command != TrayCommand::Exit),
{
    match command {
        TrayCommand::ToggleHidden => TrayOutcome { hidden: !hidden, running: true },
        TrayCommand::Reload => TrayOutcome { hidden, running: true },
        TrayCommand::Exit => TrayOutcome { hidden, running: false },
    }
}

/// The UTF-16 code units of `c`: one below U+10000, else a surrogate pair.
pub open spec fn utf16_units(c: char) -> Seq<u16> {
    let v = c as u32;
    if v < 0x10000 {
        seq![v as u16]
    } else {
        let w = v - 0x10000;
        seq![(0xD800 + w / 0x400) as u16, (0xDC00 + w % 0x400) as u16]
    }
}

/// The UTF-16 encoding of `s`, as `str::encode_utf16` gives it.
pub open spec fn encode_utf16(s: Seq<char>) -> Seq<u16>
    decreases s.len(),
{
    if s.len() == 0 {
        Seq::<u16>::empty()
    } else {
        encode_utf16(s.drop_last()) + utf16_units(s.last())
    }
}

/// Appends the UTF-16 code units of `c` to `units`.
fn push_utf16(units: &mut Vec<u16>, c: char)
    ensures
        final(units)@ == old(units)@ + utf16_units(c),
{
    let v = c as u32;
    if v < 0x10000 {
        units.push(v as u16);
    } else {
        assert(v <= 0x10FFFF) by {
            vstd::utf8::char_is_scalar(c);
        }
        let w = v - 0x10000;
        units.push((0xD800 + w / 0x400) as u16);
        units.push((0xDC00 + w % 0x400) as u16);
    }
    assert(units@ =~= old(units)@ + utf16_units(c));
}

/// The UTF-16 code units of `text`.
pub fn utf16_of(text: &str) -> (r: Vec<u16>)
    ensures
        r@ == encode_utf16(text@),
{
    let v = chars_of(text);
    let mut units: Vec<u16> = Vec::new();
    let mut i: usize = 0;
    while i < v.len()
        invariant
            i <= v@.len(),
            v@ == text@,
            units@ == encode_utf16(text@.take(i as int)),
        decreases v@.len() - i,
    {
        assert(text@.take(i + 1 as int).drop_last() =~= text@.take(i as int));
        push_utf16(&mut units, v[i]);
        i += 1;
    }
    assert(text@.take(v@.len() as int) =~= text@);
    units
}

/// `text` as a NUL-terminated UTF-16 string, as the Windows API takes it.
pub fn wide(text: &str) -> (r: Vec<u16>)
    ensures
        r@ == encode_utf16(text@).push(0),
{
    let mut units = utf16_of(text);
    units.push(0);
    units
}

/// How many code units of a tooltip fit in a buffer of `len` units, which keeps its last
/// unit for the terminating NUL.
pub open spec fn tooltip_len(len: nat, units: nat) -> nat {
    let room = if len > 0 {
        (len - 1) as nat
    } else {
        0
    };
    if units < room {
        units
    } else {
        room
    }
}

/// Copies as much of `text` into `destination` as fits before its last unit; the rest
/// of `destination` stays as it was.
pub fn copy_tooltip(destination: &mut [u16], text: &str)
    ensures
        final(destination)@.len() == old(destination)@.len(),
        final(destination)@ == encode_utf16(text@).take(
            tooltip_len(old(destination)@.len(), encode_utf16(text@).len()) as int,
        ) + old(destination)@.skip(
            tooltip_len(old(destination)@.len(), encode_utf16(text@).len()) as int,
        ),
{
    let units = utf16_of(text);
    let maximum_length = if destination.len() > 0 {
        destination.len() - 1
    } else {
        0
    };
    let count = if units.len() < maximum_length {
        units.len()
    } else {
        maximum_length
    };
    let mut i: usize = 0;
    while i < count
        invariant
            i <= count <= units@.len(),
            count <= destination@.len(),
            count == tooltip_len(old(destination)@.len(), units@.len()),
            units@ == encode_utf16(text@),
            destination@.len() == old(destination)@.len(),
            forall|j: int| 0 <= j < i ==> #[trigger] destination@[j] == units@[j],
            forall|j: int| i <= j < destination@.len() ==> #[trigger] destination@[j] == old(
                destination,
            )@[j],
        decreases count - i,
    {
        destination[i] = units[i];
        i += 1;
    }
    assert(destination@ =~= units@.take(count as int) + old(destination)@.skip(count as int));
}

} // verus!
