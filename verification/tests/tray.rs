use discord_activity_mvp::tray::{
    TrayCommand, command_for_menu_id, copy_tooltip, handle_tray_command, utf16_of, wide,
};

#[test]
fn menu_items_map_to_commands() {
    assert_eq!(command_for_menu_id(1001), Some(TrayCommand::ToggleHidden));
    assert_eq!(command_for_menu_id(1002), Some(TrayCommand::Reload));
    assert_eq!(command_for_menu_id(1003), Some(TrayCommand::Exit));
    assert_eq!(command_for_menu_id(0x1_0000 + 1003), Some(TrayCommand::Exit));
    assert_eq!(command_for_menu_id(7), None);
}

#[test]
fn commands_switch_the_loop() {
    let toggled = handle_tray_command(TrayCommand::ToggleHidden, false);
    assert!(toggled.hidden && toggled.running);
    let reload = handle_tray_command(TrayCommand::Reload, true);
    assert!(reload.hidden && reload.running);
    let exit = handle_tray_command(TrayCommand::Exit, false);
    assert!(!exit.hidden && !exit.running);
}

#[test]
fn wide_strings_match_encode_utf16() {
    for text in ["", "Exit", "Reload activities.xml", "é😀x"] {
        let mut expected: Vec<u16> = text.encode_utf16().collect();
        assert_eq!(utf16_of(text), expected);
        expected.push(0);
        assert_eq!(wide(text), expected);
    }
}

#[test]
fn tooltip_keeps_the_terminator() {
    let mut buffer = [7u16; 5];
    copy_tooltip(&mut buffer, "abcdef");
    assert_eq!(buffer, [97, 98, 99, 100, 7]);

    let mut buffer = [0u16; 8];
    copy_tooltip(&mut buffer, "ab");
    assert_eq!(buffer, [97, 98, 0, 0, 0, 0, 0, 0]);

    let mut empty: [u16; 0] = [];
    copy_tooltip(&mut empty, "ab");
}
