use soulmemory_rs::game::{game_for_lowercase_name, game_for_process, str_equal, DxVersion, GameKind, MockGame};

#[test]
fn process_names_select_titles_in_any_case() {
    assert_eq!(game_for_process("DarkSoulsRemastered.exe"), Some(GameKind::DarkSoulsRemastered));
    assert_eq!(game_for_process("SEKIRO.EXE"), Some(GameKind::Sekiro));
    assert_eq!(game_for_process("eldenring.exe"), Some(GameKind::EldenRing));
    assert_eq!(game_for_process("notepad.exe"), None);
}

#[test]
fn lowercase_names_are_compared_as_given() {
    assert_eq!(game_for_lowercase_name("armoredcore6.exe"), Some(GameKind::ArmoredCore6));
    assert_eq!(game_for_lowercase_name("ArmoredCore6.exe"), None);
    assert_eq!(game_for_lowercase_name("mockgame.exe"), Some(GameKind::MockGame));
}

#[test]
fn titles_render_with_their_api() {
    assert_eq!(GameKind::DarkSoulsPrepareToDieEdition.get_dx_version(), DxVersion::Dx9);
    assert_eq!(GameKind::DarkSouls3.get_dx_version(), DxVersion::Dx11);
    assert_eq!(GameKind::ArmoredCore6.get_dx_version(), DxVersion::Dx12);
}

#[test]
fn mock_game_buffers_changes() {
    let mut g = MockGame::new();
    assert!(!g.get_event_flag_state(3));
    assert!(g.raise_event_flag(3, true));
    assert!(!g.raise_event_flag(3, true));
    assert!(g.raise_event_flag_at(4, false, 77));
    assert!(g.get_event_flag_state(3));
    let flags = g.get_buffered_flags();
    assert_eq!(flags.len(), 2);
    assert_eq!((flags[1].time, flags[1].flag, flags[1].state), (77, 4, false));
    assert!(g.get_buffered_flags().is_empty());
}

#[test]
fn string_comparison() {
    assert!(str_equal("abc", "abc"));
    assert!(!str_equal("abc", "abd"));
    assert!(!str_equal("abc", "ab"));
}
