use pincer_cli::keymap::{KeyAction, KeyContext, KeyInput, Keymap, KeymapPreset};

#[test]
fn default_preset_is_vim() {
    assert_eq!(Keymap::default().preset(), KeymapPreset::Vim);
}

#[test]
fn vim_keeps_existing_jk_navigation() {
    let map = Keymap::new(KeymapPreset::Vim);
    assert_eq!(map.action_for(KeyContext::List, KeyInput::Char('j')), Some(KeyAction::MoveDown));
    assert_eq!(map.action_for(KeyContext::List, KeyInput::Char('k')), Some(KeyAction::MoveUp));
}

#[test]
fn plain_uses_home_end_instead_of_vim_jumps() {
    let map = Keymap::new(KeymapPreset::Plain);
    assert_eq!(map.action_for(KeyContext::List, KeyInput::Home), Some(KeyAction::JumpTop));
    assert_eq!(map.action_for(KeyContext::List, KeyInput::Char('g')), None);
}

#[test]
fn function_keys_refresh_and_help() {
    for preset in [KeymapPreset::Vim, KeymapPreset::Plain] {
        let keymap = Keymap::new(preset);
        for context in [KeyContext::List, KeyContext::Comments] {
            assert_eq!(keymap.action_for(context, KeyInput::F(5)), Some(KeyAction::Refresh));
            assert_eq!(keymap.action_for(context, KeyInput::F(1)), Some(KeyAction::ToggleHelp));
            assert_eq!(keymap.action_for(context, KeyInput::F(2)), None);
        }
    }
}
