//! State of the terminal front end: the chat log, the input line with its
//! cursor and history, and how keys and engine events change them.

use vstd::prelude::*;
use crate::command::{Command, parse_spec, CommandView};
use crate::text::{push_char, trim, trim_str, utf8_len, char_len_utf8, lemma_utf8_len_push};

verus! {

/// A message shown in the chat panel.
#[derive(Debug)]
pub struct ChatMessage {
    pub character_name: String,
    pub content: String,
    pub is_user: bool,
    pub is_system: bool,
}

/// A character listed in the sidebar.
#[derive(Debug)]
pub struct CharacterInfo {
    pub name: String,
    pub short_description: String,
    pub is_active: bool,
}

/// Events the roleplay engine sends to the front end.
#[derive(Debug)]
pub enum AppEvent {
    NewMessage(ChatMessage),
    SystemMessage(String),
    Loading(bool),
    SceneChanged(String),
    CharactersUpdated(Vec<CharacterInfo>),
    StreamDelta { character: String, delta: String },
    Quit,
}

/// The keys the front end reacts to.
#[derive(Debug, Clone, Copy, PartialEq, Eq, Structural)]
pub enum KeyCode {
    Char(char),
    Enter,
    Backspace,
    Left,
    Right,
    Up,
    Down,
    PageUp,
    PageDown,
    Other,
}

/// The front end's state.
#[derive(Debug)]
pub struct App {
    /// Chat messages to display.
    pub messages: Vec<ChatMessage>,
    /// Current input line.
    pub input: String,
    /// Submitted lines, oldest first.
    pub input_history: Vec<String>,
    /// Position in the history while browsing it.
    pub history_index: Option<usize>,
    /// Whether the app should quit.
    pub should_quit: bool,
    /// Rows scrolled up from the bottom of the chat panel.
    pub scroll_offset: u16,
    /// Characters shown in the sidebar.
    pub characters: Vec<CharacterInfo>,
    /// Current scene name.
    pub scene_name: String,
    /// Story title.
    pub story_title: String,
    /// Whether a response is awaited.
    pub is_loading: bool,
    /// Cursor position in the input, in characters.
    pub cursor_position: usize,
}

/// `s` with `c` inserted before character `k`.
pub open spec fn insert_at(s: Seq<char>, k: int, c: char) -> Seq<char> {
    s.take(k) + seq![c] + s.skip(k)
}

/// The history entry a step up selects.
pub open spec fn history_up_index(index: Option<usize>, len: nat) -> int {
    match index {
        Some(i) => if i > 0 {
            i - 1
        } else {
            i as int
        },
        None => len - 1,
    }
}

/// A copy of the characters `s[from..to]` followed by `tail`.
fn copy_chars(out: &mut String, s: &str, from: usize, to: usize)
    requires
        from <= to <= s@.len(),
    ensures
        final(out)@ == old(out)@ + s@.subrange(from as int, to as int),
{
    let mut i = from;
    while i < to
        invariant
            from <= i <= to,
            to <= s@.len(),
            out@ == old(out)@ + s@.subrange(from as int, i as int),
        decreases to - i,
    {
        push_char(out, s.get_char(i));
        assert(out@ =~= old(out)@ + s@.subrange(from as int, i + 1));
        i = i + 1;
    }
}

/// What a key does to the front end, and the command it yields.
pub open spec fn key_effect(
    before: App,
    code: KeyCode,
    control_only: bool,
    after: App,
    r: Option<Command>,
) -> bool {
    &&& after.messages == before.messages
    &&& after.characters == before.characters
    &&& after.scene_name == before.scene_name
    &&& after.story_title == before.story_title
    &&& after.is_loading == before.is_loading
    &&& match code {
        KeyCode::Char(c) => if c == 'c' && control_only {
            &&& after.should_quit
            &&& r matches Some(Command::Quit)
            &&& after == (App { should_quit: true, ..before })
        } else {
            &&& r is None
            &&& after.input@ == insert_at(before.input@, before.cursor_position as int, c)
            &&& after.cursor_position == before.cursor_position + 1
            &&& after == (App { input: after.input, cursor_position: after.cursor_position, ..before })
        },
        KeyCode::Enter => {
            let t = trim(before.input@);
            if t.len() == 0 {
                r is None && after == before
            } else {
                &&& after.input_history@.len() == before.input_history@.len() + 1
                &&& after.input_history@.last()@ == t
                &&& after.input_history@.drop_last() =~= before.input_history@
                &&& after.input@.len() == 0
                &&& after.cursor_position == 0
                &&& after.history_index is None
                &&& after.should_quit == before.should_quit
                &&& after.scroll_offset == before.scroll_offset
                &&& r matches Some(cmd) && match parse_spec(t) {
                    Some(v) => cmd@ == v,
                    None => cmd@ == CommandView::SendMessage(t),
                }
            }
        },
        KeyCode::Backspace => {
            &&& r is None
            &&& if before.cursor_position > 0 {
                &&& after.input@ == before.input@.remove(before.cursor_position - 1)
                &&& after == (App {
                    input: after.input,
                    cursor_position: (before.cursor_position - 1) as usize,
                    ..before
                })
            } else {
                after == before
            }
        },
        KeyCode::Left => r is None && after == (App {
            cursor_position: if before.cursor_position > 0 {
                (before.cursor_position - 1) as usize
            } else {
                0
            },
            ..before
        }),
        KeyCode::Right => {
            &&& r is None
            &&& after == (App { cursor_position: after.cursor_position, ..before })
            &&& after.cursor_position == if before.cursor_position < before.input@.len() {
                before.cursor_position + 1
            } else {
                before.cursor_position as int
            }
        },
        KeyCode::Up => {
            &&& r is None
            &&& if before.input_history@.len() == 0 {
                after == before
            } else {
                let idx = history_up_index(before.history_index, before.input_history@.len());
                &&& after.history_index == Some(idx as usize)
                &&& after.input == before.input_history@[idx]
                &&& after.cursor_position == after.input@.len()
                &&& after == (App {
                    history_index: after.history_index,
                    input: after.input,
                    cursor_position: after.cursor_position,
                    ..before
                })
            }
        },
        KeyCode::Down => {
            &&& r is None
            &&& match before.history_index {
                None => after == before,
                Some(i) => {
                    &&& if i + 1 < before.input_history@.len() {
                        &&& after.history_index == Some((i + 1) as usize)
                        &&& after.input == before.input_history@[i + 1]
                    } else {
                        &&& after.history_index is None
                        &&& after.input@.len() == 0
                    }
                    &&& after.cursor_position == after.input@.len()
                    &&& after == (App {
                        history_index: after.history_index,
                        input: after.input,
                        cursor_position: after.cursor_position,
                        ..before
                    })
                },
            }
        },
        KeyCode::PageUp => r is None && after == (App {
            scroll_offset: if before.scroll_offset as int + 5 > u16::MAX {
                u16::MAX
            } else {
                (before.scroll_offset + 5) as u16
            },
            ..before
        }),
        KeyCode::PageDown => r is None && after == (App {
            scroll_offset: if before.scroll_offset >= 5 {
                (before.scroll_offset - 5) as u16
            } else {
                0
            },
            ..before
        }),
        KeyCode::Other => r is None && after == before,
    }
}

impl App {
    /// The shape every method keeps: the cursor lies within the input and
    /// the history position names an entry.
    pub open spec fn wf(&self) -> bool {
        &&& self.cursor_position <= self.input@.len()
        &&& match self.history_index {
            Some(i) => i < self.input_history@.len(),
            None => true,
        }
    }

    /// An empty front end for the given story and scene.
    pub fn new(story_title: String, scene_name: String) -> (app: Self)
        ensures
            app.wf(),
            app.messages@.len() == 0,
            app.input@.len() == 0,
            app.input_history@.len() == 0,
            app.history_index is None,
            !app.should_quit,
            app.scroll_offset == 0,
            app.characters@.len() == 0,
            app.scene_name == scene_name,
            app.story_title == story_title,
            !app.is_loading,
            app.cursor_position == 0,
    {
        App {
            messages: Vec::new(),
            input: String::new(),
            input_history: Vec::new(),
            history_index: None,
            should_quit: false,
            scroll_offset: 0,
            characters: Vec::new(),
            scene_name,
            story_title,
            is_loading: false,
            cursor_position: 0,
        }
    }

    /// Shows a message and scrolls back to the bottom.
    pub fn add_message(&mut self, msg: ChatMessage)
        ensures
            final(self).messages@ == old(self).messages@.push(msg),
            final(self).scroll_offset == 0,
            *final(self) == (App { messages: final(self).messages, scroll_offset: 0, ..*old(self) }),
    {
        self.messages.push(msg);
        self.scroll_offset = 0;
    }

    /// Shows a system notice (the scroll position is kept).
    pub fn add_system_message(&mut self, content: String)
        ensures
            final(self).messages@ == old(self).messages@.push(
                ChatMessage {
                    character_name: final(self).messages@.last().character_name,
                    content,
                    is_user: false,
                    is_system: true,
                },
            ),
            final(self).messages@.last().character_name@ == "System"@,
            *final(self) == (App { messages: final(self).messages, ..*old(self) }),
    {
        self.messages.push(
            ChatMessage {
                character_name: String::from_str("System"),
                content,
                is_user: false,
                is_system: true,
            },
        );
    }

    /// Takes the trimmed input line when it is not blank: it joins the
    /// history, the history browsing ends and the line is cleared. A blank
    /// line is left as it is.
    pub fn submit_input(&mut self) -> (r: Option<String>)
        ensures
            trim(old(self).input@).len() == 0 ==> r is None && *final(self) == *old(self),
            trim(old(self).input@).len() > 0 ==> {
                &&& r matches Some(t) && t@ == trim(old(self).input@)
                &&& final(self).input_history@ == old(self).input_history@.push(r->0)
                &&& final(self).history_index is None
                &&& final(self).input@.len() == 0
                &&& final(self).cursor_position == 0
                &&& *final(self) == (App {
                    input_history: final(self).input_history,
                    history_index: None,
                    input: final(self).input,
                    cursor_position: 0,
                    ..*old(self)
                })
            },
    {
        let text = String::from_str(trim_str(self.input.as_str()));
        if text.as_str().unicode_len() == 0 {
            return None;
        }
        self.input_history.push(text.clone());
        self.history_index = None;
        self.input = String::new();
        self.cursor_position = 0;
        Some(text)
    }

    /// Byte offset of character `char_idx` of the input (its byte length
    /// when `char_idx` is past the end).
    pub fn char_to_byte_index(&self, char_idx: usize) -> (b: usize)
        requires
            utf8_len(self.input@) <= usize::MAX,
        ensures
            b == utf8_len(
                self.input@.take(
                    if char_idx <= self.input@.len() {
                        char_idx as int
                    } else {
                        self.input@.len() as int
                    },
                ),
            ),
    {
        let n = self.input.as_str().unicode_len();
        let stop = if char_idx <= n {
            char_idx
        } else {
            n
        };
        let mut b: usize = 0;
        let mut i: usize = 0;
        while i < stop
            invariant
                stop <= n,
                n == self.input@.len(),
                i <= stop,
                utf8_len(self.input@) <= usize::MAX,
                b == utf8_len(self.input@.take(i as int)),
            decreases stop - i,
        {
            let c = self.input.as_str().get_char(i);
            proof {
                assert(self.input@.take(i + 1) =~= self.input@.take(i as int).push(c));
                lemma_utf8_len_push(self.input@.take(i as int), c);
                crate::text::lemma_utf8_len_prefix(self.input@, i + 1);
            }
            b = b + char_len_utf8(c);
            i = i + 1;
        }
        b
    }

    /// Number of characters of the input.
    pub fn input_char_count(&self) -> (n: usize)
        ensures
            n == self.input@.len(),
    {
        self.input.as_str().unicode_len()
    }

    /// Reacts to a key. `control_only` tells whether Control, and no other
    /// modifier, was held. Returns the command the key issues, if any.
    pub fn handle_key(&mut self, code: KeyCode, control_only: bool) -> (r: Option<Command>)
        requires
            old(self).wf(),
        ensures
            final(self).wf(),
            key_effect(*old(self), code, control_only, *final(self), r),
    {
        match code {
            KeyCode::Char(c) => {
                if c == 'c' && control_only {
                    self.should_quit = true;
                    return Some(Command::Quit);
                }
                let k = self.cursor_position;
                let n = self.input.as_str().unicode_len();
                let mut s = String::new();
                copy_chars(&mut s, self.input.as_str(), 0, k);
                push_char(&mut s, c);
                copy_chars(&mut s, self.input.as_str(), k, n);
                assert(s@ =~= insert_at(self.input@, k as int, c));
                // The new line's length is a `usize`, so the cursor after the
                // inserted character is one too.
                let new_len = s.as_str().unicode_len();
                assert(k + 1 <= new_len);
                self.input = s;
                self.cursor_position = k + 1;
                None
            },
            KeyCode::Enter => {
                let ghost before = *self;
                match self.submit_input() {
                    Some(text) => {
                        let parsed = Command::parse(text.as_str());
                        assert(trim(text@) == text@) by {
                            crate::text::lemma_trim_idempotent(before.input@);
                        }
                        match parsed {
                            Some(cmd) => Some(cmd),
                            None => Some(Command::SendMessage(text)),
                        }
                    },
                    None => None,
                }
            },
            KeyCode::Backspace => {
                if self.cursor_position > 0 {
                    let k = self.cursor_position - 1;
                    let n = self.input.as_str().unicode_len();
                    let mut s = String::new();
                    copy_chars(&mut s, self.input.as_str(), 0, k);
                    copy_chars(&mut s, self.input.as_str(), k + 1, n);
                    assert(s@ =~= self.input@.remove(k as int));
                    self.input = s;
                    self.cursor_position = k;
                }
                None
            },
            KeyCode::Left => {
                if self.cursor_position > 0 {
                    self.cursor_position = self.cursor_position - 1;
                }
                None
            },
            KeyCode::Right => {
                if self.cursor_position < self.input_char_count() {
                    self.cursor_position = self.cursor_position + 1;
                }
                None
            },
            KeyCode::Up => {
                if self.input_history.len() > 0 {
                    let idx = match self.history_index {
                        Some(i) => if i > 0 {
                            i - 1
                        } else {
                            i
                        },
                        None => self.input_history.len() - 1,
                    };
                    self.history_index = Some(idx);
                    self.input = self.input_history[idx].clone();
                    self.cursor_position = self.input_char_count();
                }
                None
            },
            KeyCode::Down => {
                if let Some(idx) = self.history_index {
                    let hl = self.input_history.len();
                    assert(idx < hl);
                    if idx + 1 < hl {
                        self.history_index = Some(idx + 1);
                        self.input = self.input_history[idx + 1].clone();
                    } else {
                        self.history_index = None;
                        self.input = String::new();
                    }
                    self.cursor_position = self.input_char_count();
                }
                None
            },
            KeyCode::PageUp => {
                self.scroll_offset = if self.scroll_offset > u16::MAX - 5 {
                    u16::MAX
                } else {
                    self.scroll_offset + 5
                };
                None
            },
            KeyCode::PageDown => {
                self.scroll_offset = if self.scroll_offset >= 5 {
                    self.scroll_offset - 5
                } else {
                    0
                };
                None
            },
            KeyCode::Other => None,
        }
    }

    /// Applies one engine event. Returns `true` when the event ends the
    /// draining of pending events (a quit request).
    pub fn apply_event(&mut self, event: AppEvent) -> (stop: bool)
        ensures
            stop == (event is Quit),
            match event {
                AppEvent::NewMessage(msg) => *final(self) == (App {
                    messages: final(self).messages,
                    scroll_offset: 0,
                    ..*old(self)
                }) && final(self).messages@ == old(self).messages@.push(msg),
                AppEvent::SystemMessage(text) => *final(self) == (App {
                    messages: final(self).messages,
                    ..*old(self)
                }) && final(self).messages@.drop_last() == old(self).messages@
                    && final(self).messages@.last().content == text
                    && final(self).messages@.last().character_name@ == "System"@
                    && final(self).messages@.last().is_system
                    && !final(self).messages@.last().is_user,
                AppEvent::Loading(b) => *final(self) == (App { is_loading: b, ..*old(self) }),
                AppEvent::SceneChanged(name) => *final(self) == (App { scene_name: name, ..*old(self) }),
                AppEvent::CharactersUpdated(cs) => *final(self) == (App { characters: cs, ..*old(self) }),
                AppEvent::StreamDelta { character, delta } => {
                    let ms = old(self).messages@;
                    if ms.len() > 0 && ms.last().character_name@ == character@ {
                        &&& *final(self) == (App { messages: final(self).messages, ..*old(self) })
                        &&& final(self).messages@.drop_last() == ms.drop_last()
                        &&& final(self).messages@.last() == (ChatMessage {
                            content: final(self).messages@.last().content,
                            ..ms.last()
                        })
                        &&& final(self).messages@.last().content@ == ms.last().content@ + delta@
                    } else {
                        *final(self) == *old(self)
                    }
                },
                AppEvent::Quit => *final(self) == (App { should_quit: true, ..*old(self) }),
            },
    {
        match event {
            AppEvent::NewMessage(msg) => {
                self.add_message(msg);
                false
            },
            AppEvent::SystemMessage(text) => {
                self.add_system_message(text);
                false
            },
            AppEvent::Loading(b) => {
                self.is_loading = b;
                false
            },
            AppEvent::SceneChanged(name) => {
                self.scene_name = name;
                false
            },
            AppEvent::CharactersUpdated(cs) => {
                self.characters = cs;
                false
            },
            AppEvent::StreamDelta { character, delta } => {
                let n = self.messages.len();
                if n > 0 && self.messages[n - 1].character_name == character {
                    let ghost before = self.messages@;
                    let mut last = self.messages.pop().unwrap();
                    last.content.append(delta.as_str());
                    self.messages.push(last);
                    assert(self.messages@.drop_last() =~= before.drop_last());
                }
                false
            },
            AppEvent::Quit => {
                self.should_quit = true;
                true
            },
        }
    }
}

} // verus!
