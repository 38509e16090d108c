use vstd::prelude::*;

verus! {

/// One color, as a red/green/blue triple.
#[derive(Debug, Clone, Copy, PartialEq, Eq, Structural)]
pub struct Color {
    pub r: u8,
    pub g: u8,
    pub b: u8,
}

/// The fixed table of colors for every named UI role: the two pane
/// backgrounds, the terminal transcript colors, and one color per syntax
/// token category. Built once at startup and only read afterwards.
#[derive(Debug, Clone, Copy, PartialEq, Eq, Structural)]
pub struct Theme {
    pub background_left: Color,
    pub background_right: Color,
    pub terminal_command: Color,
    pub terminal_output: Color,
    pub terminal_cursor_bg: Color,
    pub terminal_cursor_fg: Color,
    pub syntax_comment: Color,
    pub syntax_constant: Color,
    pub syntax_function: Color,
    pub syntax_keyword: Color,
    pub syntax_label: Color,
    pub syntax_number: Color,
    pub syntax_operator: Color,
    pub syntax_parameter: Color,
    pub syntax_property: Color,
    pub syntax_punctuation: Color,
    pub syntax_string: Color,
    pub syntax_type: Color,
    pub syntax_variable: Color,
}

/// The built-in palette.
pub open spec fn spec_default_theme() -> Theme {
    Theme {
        background_left: Color { r: 0x1e, g: 0x1e, b: 0x2e },
        background_right: Color { r: 0x18, g: 0x18, b: 0x25 },
        terminal_command: Color { r: 0xa6, g: 0xe3, b: 0xa1 },
        terminal_output: Color { r: 0xcd, g: 0xd6, b: 0xf4 },
        terminal_cursor_bg: Color { r: 0xf5, g: 0xe0, b: 0xdc },
        terminal_cursor_fg: Color { r: 0x11, g: 0x11, b: 0x1b },
        syntax_comment: Color { r: 0x6c, g: 0x70, b: 0x86 },
        syntax_constant: Color { r: 0xfa, g: 0xb3, b: 0x87 },
        syntax_function: Color { r: 0x89, g: 0xb4, b: 0xfa },
        syntax_keyword: Color { r: 0xcb, g: 0xa6, b: 0xf7 },
        syntax_label: Color { r: 0x74, g: 0xc7, b: 0xec },
        syntax_number: Color { r: 0xfa, g: 0xb3, b: 0x87 },
        syntax_operator: Color { r: 0x94, g: 0xe2, b: 0xd5 },
        syntax_parameter: Color { r: 0xee, g: 0xba, b: 0xbe },
        syntax_property: Color { r: 0xb4, g: 0xbe, b: 0xfe },
        syntax_punctuation: Color { r: 0x93, g: 0x99, b: 0xb2 },
        syntax_string: Color { r: 0xa6, g: 0xe3, b: 0xa1 },
        syntax_type: Color { r: 0xf9, g: 0xe2, b: 0xaf },
        syntax_variable: Color { r: 0xcd, g: 0xd6, b: 0xf4 },
    }
}

impl Default for Theme {
    /// The built-in palette; there is no configuration to fail on.
    fn default() -> (r: Self)
        ensures
            r == spec_default_theme(),
    {
        Theme {
            background_left: Color { r: 0x1e, g: 0x1e, b: 0x2e },
            background_right: Color { r: 0x18, g: 0x18, b: 0x25 },
            terminal_command: Color { r: 0xa6, g: 0xe3, b: 0xa1 },
            terminal_output: Color { r: 0xcd, g: 0xd6, b: 0xf4 },
            terminal_cursor_bg: Color { r: 0xf5, g: 0xe0, b: 0xdc },
            terminal_cursor_fg: Color { r: 0x11, g: 0x11, b: 0x1b },
            syntax_comment: Color { r: 0x6c, g: 0x70, b: 0x86 },
            syntax_constant: Color { r: 0xfa, g: 0xb3, b: 0x87 },
            syntax_function: Color { r: 0x89, g: 0xb4, b: 0xfa },
            syntax_keyword: Color { r: 0xcb, g: 0xa6, b: 0xf7 },
            syntax_label: Color { r: 0x74, g: 0xc7, b: 0xec },
            syntax_number: Color { r: 0xfa, g: 0xb3, b: 0x87 },
            syntax_operator: Color { r: 0x94, g: 0xe2, b: 0xd5 },
            syntax_parameter: Color { r: 0xee, g: 0xba, b: 0xbe },
            syntax_property: Color { r: 0xb4, g: 0xbe, b: 0xfe },
            syntax_punctuation: Color { r: 0x93, g: 0x99, b: 0xb2 },
            syntax_string: Color { r: 0xa6, g: 0xe3, b: 0xa1 },
            syntax_type: Color { r: 0xf9, g: 0xe2, b: 0xaf },
            syntax_variable: Color { r: 0xcd, g: 0xd6, b: 0xf4 },
        }
    }
}

} // verus!
