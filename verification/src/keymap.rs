use vstd::prelude::*;

use crate::text::{
    ascii_lower, ascii_lower_chars, chars_of, push_str, string_of, trim, trim_str,
};

verus! {

#[derive(Debug, Clone, Copy, PartialEq, Eq, Structural)]
pub enum KeymapPreset {
    Vim,
    Plain,
}

impl Default for KeymapPreset {
    fn default() -> (r: Self)
        ensures
            r == KeymapPreset::Vim,
    {
        KeymapPreset::Vim
    }
}

pub open spec fn preset_name(p: KeymapPreset) -> Seq<char> {
    match p {
        KeymapPreset::Vim => "vim"@,
        KeymapPreset::Plain => "plain"@,
    }
}

/// What a preset name reads as: its trimmed, ASCII-lowered form decides.
pub open spec fn parse_preset(s: Seq<char>) -> Option<KeymapPreset> {
    let n = ascii_lower(trim(s));
    if n == "vim"@ || n == "default"@ {
        Some(KeymapPreset::Vim)
    } else if n == "plain"@ || n == "non-vim"@ || n == "nonvim"@ {
        Some(KeymapPreset::Plain)
    } else {
        None
    }
}

pub open spec fn unknown_preset_message(s: Seq<char>) -> Seq<char> {
    "unknown keymap preset '"@ + s + "' (expected 'vim' or 'plain')"@
}

impl KeymapPreset {
    pub fn as_str(self) -> (r: &'static str)
        ensures
            r@ == preset_name(self),
    {
        match self {
            Self::Vim => "vim",
            Self::Plain => "plain",
        }
    }

    /// Reads a preset name; anything else is an error that says what was expected.
    pub fn parse(s: &str) -> (r: Result<Self, String>)
        ensures
            match parse_preset(s@) {
                Some(p) => r == Ok::<KeymapPreset, String>(p),
                None => r is Err && r->Err_0@ == unknown_preset_message(s@),
            },
    {
        let normalized = ascii_lower_chars(&trim_str(s));
        if crate::markup::seq_eq(&normalized, &chars_of("vim")) || crate::markup::seq_eq(
            &normalized,
            &chars_of("default"),
        ) {
            Ok(Self::Vim)
        } else if crate::markup::seq_eq(&normalized, &chars_of("plain"))
            || crate::markup::seq_eq(&normalized, &chars_of("non-vim"))
            || crate::markup::seq_eq(&normalized, &chars_of("nonvim")) {
            Ok(Self::Plain)
        } else {
            let mut out: Vec<char> = Vec::new();
            push_str(&mut out, "unknown keymap preset '");
            push_str(&mut out, s);
            push_str(&mut out, "' (expected 'vim' or 'plain')");
            Err(string_of(&out))
        }
    }
}

impl std::str::FromStr for KeymapPreset {
    type Err = String;

    fn from_str(s: &str) -> (r: Result<Self, Self::Err>)
        ensures
            match parse_preset(s@) {
                Some(p) => r == Ok::<KeymapPreset, String>(p),
                None => r is Err && r->Err_0@ == unknown_preset_message(s@),
            },
    {
        Self::parse(s)
    }
}

#[derive(Debug, Clone, Copy, PartialEq, Eq, Structural)]
pub enum KeyContext {
    List,
    Comments,
    Search,
}

#[derive(Debug, Clone, Copy, PartialEq, Eq, Structural)]
pub enum KeyAction {
    ToggleHelp,
    ToggleProfiling,
    Quit,
    Escape,
    MoveDown,
    MoveUp,
    JumpTop,
    JumpBottom,
    Refresh,
    NextPage,
    PrevPage,
    CycleFeed,
    OpenComments,
    OpenStoryLink,
    OpenCommentsThread,
    OpenCommentPermalink,
    ToggleCommentCollapse,
    StartSearch,
    NextMatch,
    NextHighScore,
    SearchCancel,
    SearchApply,
    SearchBackspace,
}

/// A key as the terminal reports it.
#[derive(Debug, Clone, Copy, PartialEq, Eq, Structural)]
pub enum KeyInput {
    Char(char),
    Esc,
    Backspace,
    Enter,
    Up,
    Down,
    Home,
    End,
    PageUp,
    PageDown,
    Tab,
    /// A function key, by its number.
    F(u8),
    Other,
}

/// Keys that act the same under every preset and in every context.
pub open spec fn global_binding(code: KeyInput) -> Option<KeyAction> {
    match code {
        KeyInput::Char('?') => Some(KeyAction::ToggleHelp),
        KeyInput::Char('p') => Some(KeyAction::ToggleProfiling),
        KeyInput::Char('q') => Some(KeyAction::Quit),
        KeyInput::Esc | KeyInput::Backspace => Some(KeyAction::Escape),
        KeyInput::Char('o') => Some(KeyAction::OpenStoryLink),
        KeyInput::Char('b') => Some(KeyAction::OpenCommentsThread),
        KeyInput::F(1) => Some(KeyAction::ToggleHelp),
        KeyInput::F(5) => Some(KeyAction::Refresh),
        _ => None,
    }
}

/// Bindings shared by both presets in the comments view, beyond navigation.
pub open spec fn comments_binding(code: KeyInput) -> Option<KeyAction> {
    match code {
        KeyInput::Char('r') => Some(KeyAction::Refresh),
        KeyInput::Char('c') => Some(KeyAction::OpenCommentPermalink),
        KeyInput::Char('z') => Some(KeyAction::ToggleCommentCollapse),
        KeyInput::Char('/') => Some(KeyAction::StartSearch),
        KeyInput::Char('n') => Some(KeyAction::NextMatch),
        KeyInput::Char('H') => Some(KeyAction::NextHighScore),
        _ => None,
    }
}

pub open spec fn search_binding(code: KeyInput) -> Option<KeyAction> {
    match code {
        KeyInput::Esc => Some(KeyAction::SearchCancel),
        KeyInput::Enter => Some(KeyAction::SearchApply),
        KeyInput::Backspace => Some(KeyAction::SearchBackspace),
        _ => None,
    }
}

pub open spec fn vim_binding(context: KeyContext, code: KeyInput) -> Option<KeyAction> {
    match context {
        KeyContext::Search => search_binding(code),
        KeyContext::List => match code {
            KeyInput::Char('j') | KeyInput::Down => Some(KeyAction::MoveDown),
            KeyInput::Char('k') | KeyInput::Up => Some(KeyAction::MoveUp),
            KeyInput::Char('g') => Some(KeyAction::JumpTop),
            KeyInput::Char('G') => Some(KeyAction::JumpBottom),
            KeyInput::Char('r') => Some(KeyAction::Refresh),
            KeyInput::Char(']') | KeyInput::PageDown => Some(KeyAction::NextPage),
            KeyInput::Char('[') | KeyInput::PageUp => Some(KeyAction::PrevPage),
            KeyInput::Tab => Some(KeyAction::CycleFeed),
            KeyInput::Enter => Some(KeyAction::OpenComments),
            _ => None,
        },
        KeyContext::Comments => match code {
            KeyInput::Char('j') | KeyInput::Down => Some(KeyAction::MoveDown),
            KeyInput::Char('k') | KeyInput::Up => Some(KeyAction::MoveUp),
            KeyInput::Char('g') => Some(KeyAction::JumpTop),
            KeyInput::Char('G') => Some(KeyAction::JumpBottom),
            _ => comments_binding(code),
        },
    }
}

pub open spec fn plain_binding(context: KeyContext, code: KeyInput) -> Option<KeyAction> {
    match context {
        KeyContext::Search => search_binding(code),
        KeyContext::List => match code {
            KeyInput::Down => Some(KeyAction::MoveDown),
            KeyInput::Up => Some(KeyAction::MoveUp),
            KeyInput::Home => Some(KeyAction::JumpTop),
            KeyInput::End => Some(KeyAction::JumpBottom),
            KeyInput::Char('r') => Some(KeyAction::Refresh),
            KeyInput::PageDown => Some(KeyAction::NextPage),
            KeyInput::PageUp => Some(KeyAction::PrevPage),
            KeyInput::Tab => Some(KeyAction::CycleFeed),
            KeyInput::Enter => Some(KeyAction::OpenComments),
            _ => None,
        },
        KeyContext::Comments => match code {
            KeyInput::Down => Some(KeyAction::MoveDown),
            KeyInput::Up => Some(KeyAction::MoveUp),
            KeyInput::Home => Some(KeyAction::JumpTop),
            KeyInput::End => Some(KeyAction::JumpBottom),
            _ => comments_binding(code),
        },
    }
}

/// The action of a key: a global binding wins, else the preset's binding for the context.
pub open spec fn binding(preset: KeymapPreset, context: KeyContext, code: KeyInput) -> Option<
    KeyAction,
> {
    match global_binding(code) {
        Some(a) => Some(a),
        None => match preset {
            KeymapPreset::Vim => vim_binding(context, code),
            KeymapPreset::Plain => plain_binding(context, code),
        },
    }
}

#[derive(Debug, Clone, Copy)]
pub struct Keymap {
    pub preset: KeymapPreset,
}

impl Keymap {
    pub fn new(preset: KeymapPreset) -> (r: Self)
        ensures
            r.preset == preset,
    {
        Self { preset }
    }

    pub fn preset(self) -> (r: KeymapPreset)
        ensures
            r == self.preset,
    {
        self.preset
    }

    pub fn action_for(self, context: KeyContext, code: KeyInput) -> (r: Option<KeyAction>)
        ensures
            r == binding(self.preset, context, code),
    {
        match Self::global_action(code) {
            Some(a) => Some(a),
            None => match self.preset {
                KeymapPreset::Vim => Self::vim_action(context, code),
                KeymapPreset::Plain => Self::plain_action(context, code),
            },
        }
    }

    fn global_action(code: KeyInput) -> (r: Option<KeyAction>)
        ensures
            r == global_binding(code),
    {
        match code {
            KeyInput::Char('?') => Some(KeyAction::ToggleHelp),
            KeyInput::Char('p') => Some(KeyAction::ToggleProfiling),
            KeyInput::Char('q') => Some(KeyAction::Quit),
            KeyInput::Esc | KeyInput::Backspace => Some(KeyAction::Escape),
            KeyInput::Char('o') => Some(KeyAction::OpenStoryLink),
            KeyInput::Char('b') => Some(KeyAction::OpenCommentsThread),
            KeyInput::F(1) => Some(KeyAction::ToggleHelp),
            KeyInput::F(5) => Some(KeyAction::Refresh),
            _ => None,
        }
    }

    pub fn search_action(code: KeyInput) -> (r: Option<KeyAction>)
        ensures
            r == search_binding(code),
    {
        match code {
            KeyInput::Esc => Some(KeyAction::SearchCancel),
            KeyInput::Enter => Some(KeyAction::SearchApply),
            KeyInput::Backspace => Some(KeyAction::SearchBackspace),
            _ => None,
        }
    }

    fn comments_action(code: KeyInput) -> (r: Option<KeyAction>)
        ensures
            r == comments_binding(code),
    {
        match code {
            KeyInput::Char('r') => Some(KeyAction::Refresh),
            KeyInput::Char('c') => Some(KeyAction::OpenCommentPermalink),
            KeyInput::Char('z') => Some(KeyAction::ToggleCommentCollapse),
            KeyInput::Char('/') => Some(KeyAction::StartSearch),
            KeyInput::Char('n') => Some(KeyAction::NextMatch),
            KeyInput::Char('H') => Some(KeyAction::NextHighScore),
            _ => None,
        }
    }

    fn vim_action(context: KeyContext, code: KeyInput) -> (r: Option<KeyAction>)
        ensures
            r == vim_binding(context, code),
    {
        match context {
            KeyContext::Search => Self::search_action(code),
            KeyContext::List => match code {
                KeyInput::Char('j') | KeyInput::Down => Some(KeyAction::MoveDown),
                KeyInput::Char('k') | KeyInput::Up => Some(KeyAction::MoveUp),
                KeyInput::Char('g') => Some(KeyAction::JumpTop),
                KeyInput::Char('G') => Some(KeyAction::JumpBottom),
                KeyInput::Char('r') => Some(KeyAction::Refresh),
                KeyInput::Char(']') | KeyInput::PageDown => Some(KeyAction::NextPage),
                KeyInput::Char('[') | KeyInput::PageUp => Some(KeyAction::PrevPage),
                KeyInput::Tab => Some(KeyAction::CycleFeed),
                KeyInput::Enter => Some(KeyAction::OpenComments),
                _ => None,
            },
            KeyContext::Comments => match code {
                KeyInput::Char('j') | KeyInput::Down => Some(KeyAction::MoveDown),
                KeyInput::Char('k') | KeyInput::Up => Some(KeyAction::MoveUp),
                KeyInput::Char('g') => Some(KeyAction::JumpTop),
                KeyInput::Char('G') => Some(KeyAction::JumpBottom),
                _ => Self::comments_action(code),
            },
        }
    }

    fn plain_action(context: KeyContext, code: KeyInput) -> (r: Option<KeyAction>)
        ensures
            r == plain_binding(context, code),
    {
        match context {
            KeyContext::Search => Self::search_action(code),
            KeyContext::List => match code {
                KeyInput::Down => Some(KeyAction::MoveDown),
                KeyInput::Up => Some(KeyAction::MoveUp),
                KeyInput::Home => Some(KeyAction::JumpTop),
                KeyInput::End => Some(KeyAction::JumpBottom),
                KeyInput::Char('r') => Some(KeyAction::Refresh),
                KeyInput::PageDown => Some(KeyAction::NextPage),
                KeyInput::PageUp => Some(KeyAction::PrevPage),
                KeyInput::Tab => Some(KeyAction::CycleFeed),
                KeyInput::Enter => Some(KeyAction::OpenComments),
                _ => None,
            },
            KeyContext::Comments => match code {
                KeyInput::Down => Some(KeyAction::MoveDown),
                KeyInput::Up => Some(KeyAction::MoveUp),
                KeyInput::Home => Some(KeyAction::JumpTop),
                KeyInput::End => Some(KeyAction::JumpBottom),
                _ => Self::comments_action(code),
            },
        }
    }
}

impl Default for Keymap {
    fn default() -> (r: Self)
        ensures
            r.preset == KeymapPreset::Vim,
    {
        Self::new(KeymapPreset::Vim)
    }
}

/// The quit, help and escape keys do the same in every context and preset.
pub proof fn lemma_global_keys_everywhere(preset: KeymapPreset, context: KeyContext, code: KeyInput)
    requires
        global_binding(code) is Some,
    ensures
        binding(preset, context, code) == global_binding(code),
{
}

} // verus!
