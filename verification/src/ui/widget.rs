use vstd::prelude::*;
use crate::ui::input::{Interaction, KeyboardInput, KeyCode};
use crate::ui::region::WidgetPlacementInfo;
use crate::ui::terminal::{enter_relation, next_relation, prev_relation, TerminalWidget};
use crate::ui::text::{is_control, is_control_char, string_pop, string_push};

verus! {

/// A plain panel; it reacts to no input.
pub struct PanelWidget {}

impl PanelWidget {
    pub fn new() -> Self {
        Self {}
    }
}

impl Default for PanelWidget {
    fn default() -> Self {
        Self::new()
    }
}

/// A button; a click on it goes to its interaction handler.
pub struct ButtonWidget {}

impl Default for ButtonWidget {
    fn default() -> Self {
        Self {}
    }
}

/// Static text.
pub struct TextWidget {
    pub font_size: u32,
    pub contents: String,
}

/// Text that the focused widget edits from the keyboard.
pub struct EditableTextWidget {
    pub font_size: u32,
    pub contents: String,
}

/// What a panel is built from.
pub struct PanelInfo {
    pub placement: WidgetPlacementInfo,
}

/// What a button is built from.
pub struct ButtonInfo {
    pub placement: WidgetPlacementInfo,
}

/// What a text widget is built from.
pub struct TextInfo {
    pub placement: WidgetPlacementInfo,
    pub font_size: u32,
    pub contents: String,
}

/// What an editable text widget is built from.
pub struct EditableTextInfo {
    pub placement: WidgetPlacementInfo,
    pub font_size: u32,
    pub contents: String,
}

/// The kinds of widget.
pub enum Widget {
    Panel(PanelWidget),
    Button(ButtonWidget),
    Text(TextWidget),
    EditableText(EditableTextWidget),
    Terminal(TerminalWidget),
}

/// `n` is the widget `o` after the character `c` was typed into it.
pub open spec fn char_typed(o: Widget, n: Widget, c: char) -> bool {
    match (o, n) {
        (Widget::EditableText(a), Widget::EditableText(b)) => {
            &&& b.font_size == a.font_size
            &&& b.contents@ == if is_control_char(c) {
                a.contents@
            } else {
                a.contents@.push(c)
            }
        },
        (Widget::Terminal(a), Widget::Terminal(b)) => {
            &&& b.input_chars() == if is_control_char(c) {
                a.input_chars()
            } else {
                a.input_chars().push(c)
            }
            &&& b.cursor_pos() == a.cursor_pos()
            &&& b.lines() == a.lines()
            &&& b.history() == a.history()
            &&& b.history_cursor() == a.history_cursor()
            &&& b.font_size_of() == a.font_size_of()
        },
        (Widget::EditableText(_), _) => false,
        (Widget::Terminal(_), _) => false,
        _ => n == o,
    }
}

/// Typing a printable character (anything outside Unicode's control range
/// `Cc`: U+0000 to U+001F and U+007F to U+009F, so the space among others)
/// appends it to an editable text or a terminal's input line; typing a
/// control character changes nothing. Other widgets are left alone.
pub proof fn law_typing_appends_printable(o: Widget, n: Widget, c: char)
    requires
        char_typed(o, n, c),
    ensures
        ({
            let code = c as u32;
            let printable = code >= 0x20 && !(0x7f <= code && code <= 0x9f);
            match (o, n) {
                (Widget::EditableText(a), Widget::EditableText(b)) => b.contents@ == if printable {
                    a.contents@.push(c)
                } else {
                    a.contents@
                },
                (Widget::Terminal(a), Widget::Terminal(b)) => b.input_chars() == if printable {
                    a.input_chars().push(c)
                } else {
                    a.input_chars()
                },
                (Widget::EditableText(_), _) => false,
                (Widget::Terminal(_), _) => false,
                _ => n == o,
            }
        }),
{
}

/// A typed character reaches the focused widget: editable texts append it and
/// terminals append it to their input line, unless it is a control character.
pub fn process_input_char(widget: &mut Widget, c: char)
    ensures
        char_typed(*old(widget), *final(widget), c),
{
    match widget {
        Widget::EditableText(editable_text) => {
            if !is_control(c) {
                string_push(&mut editable_text.contents, c);
            }
        },
        Widget::Terminal(terminal) => {
            if !is_control(c) {
                terminal.push_input(c);
            }
        },
        _ => {},
    }
}

/// A key press reaches the focused widget. Return hands the text of an
/// editable text, or the entered line of a terminal, to the widget's
/// interaction handler; Back removes the last character; Up and Down walk a
/// terminal's history.
pub fn process_keyboard_input(widget: &mut Widget, input: &KeyboardInput) -> (r: Option<Interaction>)
    requires
        *old(widget) matches Widget::Terminal(t) ==> t.wf(),
    ensures
        *final(widget) matches Widget::Terminal(t) ==> t.wf(),
        match (*old(widget), *final(widget)) {
            (Widget::EditableText(o), Widget::EditableText(n)) => {
                &&& n.font_size == o.font_size
                &&& if input.key() == KeyCode::Return {
                    &&& n.contents@ == o.contents@
                    &&& r matches Some(Interaction::TextEdited(s)) && s@ == o.contents@
                } else if input.key() == KeyCode::Back {
                    &&& n.contents@ == if o.contents@.len() > 0 {
                        o.contents@.drop_last()
                    } else {
                        o.contents@
                    }
                    &&& r is None
                } else {
                    &&& n.contents@ == o.contents@
                    &&& r is None
                }
            },
            (Widget::Terminal(o), Widget::Terminal(n)) => {
                if input.key() == KeyCode::Return {
                    r matches Some(Interaction::TerminalInput(s)) && enter_relation(o, n, s@)
                } else if input.key() == KeyCode::Back {
                    &&& n.input_chars() == if o.input_chars().len() > 0 {
                        o.input_chars().drop_last()
                    } else {
                        o.input_chars()
                    }
                    &&& n.cursor_pos() == o.cursor_pos()
                    &&& n.lines() == o.lines()
                    &&& n.history() == o.history()
                    &&& n.history_cursor() == o.history_cursor()
                    &&& n.font_size_of() == o.font_size_of()
                    &&& r is None
                } else if input.key() == KeyCode::Up {
                    prev_relation(o, n) && r is None
                } else if input.key() == KeyCode::Down {
                    next_relation(o, n) && r is None
                } else {
                    &&& n == o
                    &&& r is None
                }
            },
            (Widget::EditableText(_), _) => false,
            (Widget::Terminal(_), _) => false,
            _ => *final(widget) == *old(widget) && r is None,
        },
{
    match widget {
        Widget::EditableText(editable_text) => {
            if input.is_return() {
                let contents = editable_text.contents.clone();
                Some(Interaction::TextEdited(contents))
            } else if input.is_back() {
                let _ = string_pop(&mut editable_text.contents);
                None
            } else {
                None
            }
        },
        Widget::Terminal(terminal) => {
            if input.is_return() {
                let command = terminal.enter();
                Some(Interaction::TerminalInput(command))
            } else if input.is_back() {
                terminal.pop_input();
                None
            } else if input.is_up() {
                terminal.prev();
                None
            } else if input.is_down() {
                terminal.next();
                None
            } else {
                None
            }
        },
        _ => None,
    }
}

} // verus!
