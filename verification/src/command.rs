//! Slash commands typed into the input line.

use vstd::prelude::*;
use crate::text::{is_ws, trim, trim_end_index, trim_start_index, trim_str};

verus! {

/// Commands the player can issue.
#[derive(Debug)]
pub enum Command {
    /// Send a chat message.
    SendMessage(String),
    /// Quit the application.
    Quit,
    /// Switch to a different scene.
    Scene(String),
    /// List the characters.
    Characters,
    /// Show the model configuration.
    Model,
    /// Save the session under a name.
    Save(String),
    /// Load the session saved under a name.
    Load(String),
    /// Show help.
    Help,
    /// Clear the chat history.
    Clear,
}

/// The mathematical content of a command.
pub enum CommandView {
    SendMessage(Seq<char>),
    Quit,
    Scene(Seq<char>),
    Characters,
    Model,
    Save(Seq<char>),
    Load(Seq<char>),
    Help,
    Clear,
}

impl View for Command {
    type V = CommandView;

    open spec fn view(&self) -> CommandView {
        match self {
            Command::SendMessage(s) => CommandView::SendMessage(s@),
            Command::Quit => CommandView::Quit,
            Command::Scene(s) => CommandView::Scene(s@),
            Command::Characters => CommandView::Characters,
            Command::Model => CommandView::Model,
            Command::Save(s) => CommandView::Save(s@),
            Command::Load(s) => CommandView::Load(s@),
            Command::Help => CommandView::Help,
            Command::Clear => CommandView::Clear,
        }
    }
}

/// ASCII lower case of a character; other characters are unchanged.
pub open spec fn ascii_lower(c: char) -> char {
    if 'A' <= c <= 'Z' {
        ((c as u32) + 32) as char
    } else {
        c
    }
}

/// Whether a command word names `name` (a lower-case ASCII word without the
/// letter k), ignoring case. For such names this is exactly whether the
/// Unicode lower case of the word equals the name.
pub open spec fn word_is(w: Seq<char>, name: Seq<char>) -> bool {
    w.len() == name.len() && forall|i: int| 0 <= i < w.len() ==> ascii_lower(w[i]) == name[i]
}

/// Index of the first space of `s`, if any.
pub open spec fn first_space(s: Seq<char>) -> Option<int> {
    if exists|i: int| 0 <= i < s.len() && s[i] == ' ' {
        Some(choose|i: int| 0 <= i < s.len() && s[i] == ' ' && forall|j: int| 0 <= j < i ==> s[j] != ' ')
    } else {
        None
    }
}

/// The command word: the text after `/` up to the first space.
pub open spec fn command_word(body: Seq<char>) -> Seq<char> {
    match first_space(body) {
        Some(i) => body.take(i),
        None => body,
    }
}

/// The argument: the text after the first space (empty without one).
pub open spec fn command_arg(body: Seq<char>) -> Seq<char> {
    match first_space(body) {
        Some(i) => body.skip(i + 1),
        None => Seq::empty(),
    }
}

/// The argument, or `autosave` when it is empty.
pub open spec fn name_or_autosave(arg: Seq<char>) -> Seq<char> {
    if arg.len() == 0 {
        "autosave"@
    } else {
        arg
    }
}

/// The command an input line denotes, if it is one.
pub open spec fn parse_spec(input: Seq<char>) -> Option<CommandView> {
    let t = trim(input);
    if t.len() == 0 || t[0] != '/' {
        None
    } else {
        let body = t.drop_first();
        let w = command_word(body);
        let a = command_arg(body);
        if word_is(w, "quit"@) || word_is(w, "q"@) || word_is(w, "exit"@) {
            Some(CommandView::Quit)
        } else if word_is(w, "scene"@) {
            Some(CommandView::Scene(a))
        } else if word_is(w, "characters"@) || word_is(w, "chars"@) {
            Some(CommandView::Characters)
        } else if word_is(w, "model"@) {
            Some(CommandView::Model)
        } else if word_is(w, "save"@) {
            Some(CommandView::Save(name_or_autosave(a)))
        } else if word_is(w, "load"@) {
            Some(CommandView::Load(name_or_autosave(a)))
        } else if word_is(w, "help"@) || word_is(w, "h"@) {
            Some(CommandView::Help)
        } else if word_is(w, "clear"@) {
            Some(CommandView::Clear)
        } else {
            None
        }
    }
}

/// Whether a command word names one of the commands.
pub open spec fn is_command_word(w: Seq<char>) -> bool {
    word_is(w, "quit"@) || word_is(w, "q"@) || word_is(w, "exit"@) || word_is(w, "scene"@) || word_is(
        w,
        "characters"@,
    ) || word_is(w, "chars"@) || word_is(w, "model"@) || word_is(w, "save"@) || word_is(w, "load"@)
        || word_is(w, "help"@) || word_is(w, "h"@) || word_is(w, "clear"@)
}

/// A line and its trimmed text denote the same command, and a line denotes
/// one exactly when its trimmed text is `/` followed by a command word (up to
/// the first space).
pub proof fn law_parse_ignores_surrounding_whitespace(input: Seq<char>)
    ensures
        parse_spec(input) == parse_spec(trim(input)),
        parse_spec(input) is Some <==> ({
            let t = trim(input);
            t.len() > 0 && t[0] == '/' && is_command_word(command_word(t.drop_first()))
        }),
{
    crate::text::lemma_trim_idempotent(input);
}

/// A word of the form `/name`, with no blank in it, is its own trimmed text
/// and its whole command word.
proof fn lemma_plain_command(w: Seq<char>)
    requires
        w.len() > 1,
        w[0] == '/',
        forall|i: int| 0 <= i < w.len() ==> !is_ws(#[trigger] w[i]),
    ensures
        trim(w) == w,
        command_word(w.drop_first()) == w.drop_first(),
        command_arg(w.drop_first()) == Seq::<char>::empty(),
{
    assert(trim_start_index(w) == 0);
    assert(!is_ws(w.last()));
    assert(trim_end_index(w) == w.len());
    assert(w.subrange(0, w.len() as int) =~= w);
    let b = w.drop_first();
    assert forall|i: int| 0 <= i < b.len() implies b[i] != ' ' by {
        assert(b[i] == w[i + 1]);
        assert(!is_ws(w[i + 1]));
    }
}

/// The words every command is matched against, spelled out.
proof fn reveal_command_words()
    ensures
        "quit"@ =~= seq!['q', 'u', 'i', 't'],
        "q"@ =~= seq!['q'],
        "exit"@ =~= seq!['e', 'x', 'i', 't'],
        "scene"@ =~= seq!['s', 'c', 'e', 'n', 'e'],
        "characters"@ =~= seq!['c', 'h', 'a', 'r', 'a', 'c', 't', 'e', 'r', 's'],
        "chars"@ =~= seq!['c', 'h', 'a', 'r', 's'],
        "model"@ =~= seq!['m', 'o', 'd', 'e', 'l'],
        "save"@ =~= seq!['s', 'a', 'v', 'e'],
        "load"@ =~= seq!['l', 'o', 'a', 'd'],
        "help"@ =~= seq!['h', 'e', 'l', 'p'],
        "h"@ =~= seq!['h'],
        "clear"@ =~= seq!['c', 'l', 'e', 'a', 'r'],
        "autosave"@ =~= seq!['a', 'u', 't', 'o', 's', 'a', 'v', 'e'],
{
    reveal_strlit("quit");
    reveal_strlit("q");
    reveal_strlit("exit");
    reveal_strlit("scene");
    reveal_strlit("characters");
    reveal_strlit("chars");
    reveal_strlit("model");
    reveal_strlit("save");
    reveal_strlit("load");
    reveal_strlit("help");
    reveal_strlit("h");
    reveal_strlit("clear");
    reveal_strlit("autosave");
}

proof fn lemma_help_scene()
    ensures
        parse_spec("/scene"@) == Some(CommandView::Scene(Seq::empty())),
{
    reveal_strlit("/scene");
    reveal_command_words();
    lemma_plain_command("/scene"@);
}

proof fn lemma_help_characters()
    ensures
        parse_spec("/characters"@) == Some(CommandView::Characters),
{
    reveal_strlit("/characters");
    reveal_command_words();
    lemma_plain_command("/characters"@);
}

proof fn lemma_help_model()
    ensures
        parse_spec("/model"@) == Some(CommandView::Model),
{
    reveal_strlit("/model");
    reveal_command_words();
    lemma_plain_command("/model"@);
    let w = "model"@;
    assert(ascii_lower(w[0]) != "scene"@[0]);
    assert(ascii_lower(w[0]) != "chars"@[0]);
}

proof fn lemma_help_save()
    ensures
        parse_spec("/save"@) == Some(CommandView::Save("autosave"@)),
{
    reveal_strlit("/save");
    reveal_command_words();
    lemma_plain_command("/save"@);
    let w = "save"@;
    assert(ascii_lower(w[0]) != "quit"@[0]);
    assert(ascii_lower(w[0]) != "exit"@[0]);
}

proof fn lemma_help_load()
    ensures
        parse_spec("/load"@) == Some(CommandView::Load("autosave"@)),
{
    reveal_strlit("/load");
    reveal_command_words();
    lemma_plain_command("/load"@);
    let w = "load"@;
    assert(ascii_lower(w[0]) != "quit"@[0]);
    assert(ascii_lower(w[0]) != "exit"@[0]);
    assert(ascii_lower(w[0]) != "save"@[0]);
}

proof fn lemma_help_clear()
    ensures
        parse_spec("/clear"@) == Some(CommandView::Clear),
{
    reveal_strlit("/clear");
    reveal_command_words();
    lemma_plain_command("/clear"@);
    let w = "clear"@;
    assert(ascii_lower(w[0]) != "scene"@[0]);
    assert(ascii_lower(w[1]) != "chars"@[1]);
    assert(ascii_lower(w[0]) != "model"@[0]);
}

proof fn lemma_help_help()
    ensures
        parse_spec("/help"@) == Some(CommandView::Help),
{
    reveal_strlit("/help");
    reveal_command_words();
    lemma_plain_command("/help"@);
    let w = "help"@;
    assert(ascii_lower(w[0]) != "quit"@[0]);
    assert(ascii_lower(w[0]) != "exit"@[0]);
    assert(ascii_lower(w[0]) != "save"@[0]);
    assert(ascii_lower(w[0]) != "load"@[0]);
}

proof fn lemma_help_quit()
    ensures
        parse_spec("/quit"@) == Some(CommandView::Quit),
{
    reveal_strlit("/quit");
    reveal_command_words();
    lemma_plain_command("/quit"@);
}

/// Whether a line of the help text starts at `at` with the word `w`
/// followed by a blank.
pub open spec fn help_line_at(at: int, w: Seq<char>) -> bool {
    let h = help_text_spec();
    &&& 0 <= at
    &&& at + w.len() < h.len()
    &&& at == 0 || h[at - 1] == '\n'
    &&& h.subrange(at, at + w.len()) == w
    &&& h[at + w.len()] == ' '
}

/// Where each command's line of the help text starts.
proof fn lemma_help_lines()
    ensures
        help_line_at(0, "/scene"@),
        help_line_at(35, "/characters"@),
        help_line_at(75, "/model"@),
        help_line_at(125, "/save"@),
        help_line_at(155, "/load"@),
        help_line_at(185, "/clear"@),
        help_line_at(221, "/help"@),
        help_line_at(253, "/quit"@),
{
    reveal_strlit(
        "/scene <name>  - Switch to a scene\n/characters    - List active characters\n/model         - Show current model configuration\n/save [name]   - Save session\n/load [name]   - Load session\n/clear         - Clear chat history\n/help          - Show this help\n/quit          - Exit the application",
    );
    reveal_strlit("/scene");
    reveal_strlit("/characters");
    reveal_strlit("/model");
    reveal_strlit("/save");
    reveal_strlit("/load");
    reveal_strlit("/clear");
    reveal_strlit("/help");
    reveal_strlit("/quit");
    let h = help_text_spec();
    assert(h.subrange(0, 6) =~= "/scene"@);
    assert(h.subrange(35, 46) =~= "/characters"@);
    assert(h.subrange(75, 81) =~= "/model"@);
    assert(h.subrange(125, 130) =~= "/save"@);
    assert(h.subrange(155, 160) =~= "/load"@);
    assert(h.subrange(185, 191) =~= "/clear"@);
    assert(h.subrange(221, 226) =~= "/help"@);
    assert(h.subrange(253, 258) =~= "/quit"@);
}

/// The help text has a line for each command, which begins with the command
/// followed by a blank, and each of those commands is one that `parse`
/// recognises, as the command the line describes.
pub proof fn law_help_commands_parse()
    ensures
        help_line_at(0, "/scene"@),
        help_line_at(35, "/characters"@),
        help_line_at(75, "/model"@),
        help_line_at(125, "/save"@),
        help_line_at(155, "/load"@),
        help_line_at(185, "/clear"@),
        help_line_at(221, "/help"@),
        help_line_at(253, "/quit"@),
        parse_spec("/scene"@) == Some(CommandView::Scene(Seq::empty())),
        parse_spec("/characters"@) == Some(CommandView::Characters),
        parse_spec("/model"@) == Some(CommandView::Model),
        parse_spec("/save"@) == Some(CommandView::Save("autosave"@)),
        parse_spec("/load"@) == Some(CommandView::Load("autosave"@)),
        parse_spec("/clear"@) == Some(CommandView::Clear),
        parse_spec("/help"@) == Some(CommandView::Help),
        parse_spec("/quit"@) == Some(CommandView::Quit),
{
    lemma_help_lines();
    lemma_help_scene();
    lemma_help_characters();
    lemma_help_model();
    lemma_help_save();
    lemma_help_load();
    lemma_help_clear();
    lemma_help_help();
    lemma_help_quit();
}

/// The first space of `s` is at `k` when `s[k]` is a space and none comes
/// before it.
proof fn lemma_first_space_at(s: Seq<char>, k: int)
    requires
        0 <= k < s.len(),
        s[k] == ' ',
        forall|j: int| 0 <= j < k ==> s[j] != ' ',
    ensures
        first_space(s) == Some(k),
{
    let i = choose|i: int| 0 <= i < s.len() && s[i] == ' ' && forall|j: int| 0 <= j < i ==> s[j] != ' ';
    assert(0 <= i < s.len() && s[i] == ' ' && forall|j: int| 0 <= j < i ==> s[j] != ' ');
    if i < k {
        assert(s[i] != ' ');
    }
    if i > k {
        assert(s[k] != ' ');
    }
}

/// A line `/w arg`, with no space in `w`, has the command word `w` and the
/// argument `arg`.
proof fn lemma_split_command(t: Seq<char>, w: Seq<char>, arg: Seq<char>)
    requires
        t == seq!['/'] + w + seq![' '] + arg,
        forall|i: int| 0 <= i < w.len() ==> w[i] != ' ',
    ensures
        t.len() > 0,
        t[0] == '/',
        command_word(t.drop_first()) == w,
        command_arg(t.drop_first()) == arg,
{
    let body = t.drop_first();
    assert(body =~= w + seq![' '] + arg);
    assert forall|j: int| 0 <= j < w.len() implies body[j] != ' ' by {
        assert(body[j] == w[j]);
    }
    lemma_first_space_at(body, w.len() as int);
    assert(body.take(w.len() as int) =~= w);
    assert(body.skip(w.len() as int + 1) =~= arg);
}

#[verifier::rlimit(30)]
proof fn lemma_save_with_argument(input: Seq<char>, arg: Seq<char>)
    requires
        trim(input) == "/save"@ + seq![' '] + arg,
        arg.len() > 0,
    ensures
        parse_spec(input) == Some(CommandView::Save(arg)),
{
    reveal_command_words();
    reveal_strlit("/save");
    let w = "save"@;
    assert(trim(input) =~= seq!['/'] + w + seq![' '] + arg);
    lemma_split_command(trim(input), w, arg);
    assert(!word_is(w, "quit"@)) by {
        assert(ascii_lower(w[0]) != "quit"@[0]);
    }
    assert(!word_is(w, "exit"@)) by {
        assert(ascii_lower(w[0]) != "exit"@[0]);
    }
    assert(word_is(w, "save"@));
}

#[verifier::rlimit(30)]
proof fn lemma_load_with_argument(input: Seq<char>, arg: Seq<char>)
    requires
        trim(input) == "/load"@ + seq![' '] + arg,
        arg.len() > 0,
    ensures
        parse_spec(input) == Some(CommandView::Load(arg)),
{
    reveal_command_words();
    reveal_strlit("/load");
    let w = "load"@;
    assert(trim(input) =~= seq!['/'] + w + seq![' '] + arg);
    lemma_split_command(trim(input), w, arg);
    assert(!word_is(w, "quit"@)) by {
        assert(ascii_lower(w[0]) != "quit"@[0]);
    }
    assert(!word_is(w, "exit"@)) by {
        assert(ascii_lower(w[0]) != "exit"@[0]);
    }
    assert(!word_is(w, "save"@)) by {
        assert(ascii_lower(w[0]) != "save"@[0]);
    }
    assert(word_is(w, "load"@));
}

#[verifier::rlimit(30)]
proof fn lemma_scene_with_argument(input: Seq<char>, arg: Seq<char>)
    requires
        trim(input) == "/scene"@ + seq![' '] + arg,
    ensures
        parse_spec(input) == Some(CommandView::Scene(arg)),
{
    reveal_command_words();
    reveal_strlit("/scene");
    let w = "scene"@;
    assert(trim(input) =~= seq!['/'] + w + seq![' '] + arg);
    lemma_split_command(trim(input), w, arg);
}

proof fn lemma_bare_save_and_load(input: Seq<char>)
    ensures
        trim(input) == "/save"@ ==> parse_spec(input) == Some(CommandView::Save(seq!['a', 'u', 't', 'o', 's', 'a', 'v', 'e'])),
        trim(input) == "/load"@ ==> parse_spec(input) == Some(CommandView::Load(seq!['a', 'u', 't', 'o', 's', 'a', 'v', 'e'])),
{
    reveal_command_words();
    crate::text::lemma_trim_idempotent(input);
    if trim(input) == "/save"@ {
        lemma_help_save();
        law_parse_ignores_surrounding_whitespace(input);
    }
    if trim(input) == "/load"@ {
        lemma_help_load();
        law_parse_ignores_surrounding_whitespace(input);
    }
}

/// `/save` and `/load` take the session name from the text after the first
/// space, whatever it is; only without any text after the command is the
/// name `autosave`. `/scene` takes the scene's name the same way.
pub proof fn law_commands_take_their_argument(input: Seq<char>, arg: Seq<char>)
    ensures
        trim(input) == "/save"@ + seq![' '] + arg && arg.len() > 0 ==> parse_spec(input) == Some(
            CommandView::Save(arg),
        ),
        trim(input) == "/load"@ + seq![' '] + arg && arg.len() > 0 ==> parse_spec(input) == Some(
            CommandView::Load(arg),
        ),
        trim(input) == "/scene"@ + seq![' '] + arg ==> parse_spec(input) == Some(CommandView::Scene(arg)),
        trim(input) == "/save"@ ==> parse_spec(input) == Some(CommandView::Save(seq!['a', 'u', 't', 'o', 's', 'a', 'v', 'e'])),
        trim(input) == "/load"@ ==> parse_spec(input) == Some(CommandView::Load(seq!['a', 'u', 't', 'o', 's', 'a', 'v', 'e'])),
{
    if trim(input) == "/save"@ + seq![' '] + arg && arg.len() > 0 {
        lemma_save_with_argument(input, arg);
    }
    if trim(input) == "/load"@ + seq![' '] + arg && arg.len() > 0 {
        lemma_load_with_argument(input, arg);
    }
    if trim(input) == "/scene"@ + seq![' '] + arg {
        lemma_scene_with_argument(input, arg);
    }
    lemma_bare_save_and_load(input);
}

/// Whether `w` names `name`, ignoring ASCII case.
fn word_matches(w: &str, name: &str) -> (b: bool)
    ensures
        b == word_is(w@, name@),
{
    let n = w.unicode_len();
    if n != name.unicode_len() {
        return false;
    }
    let mut i: usize = 0;
    while i < n
        invariant
            n == w@.len(),
            n == name@.len(),
            i <= n,
            forall|j: int| 0 <= j < i ==> ascii_lower(w@[j]) == name@[j],
        decreases n - i,
    {
        let c = w.get_char(i);
        let lower = if 'A' <= c && c <= 'Z' {
            ((c as u32) + 32) as u8 as char
        } else {
            c
        };
        assert(lower == ascii_lower(c)) by {
            if 'A' <= c && c <= 'Z' {
                assert(((c as u32) + 32) as u8 as char == ((c as u32) + 32) as char);
            }
        }
        if lower != name.get_char(i) {
            return false;
        }
        i = i + 1;
    }
    true
}

/// Whether two texts are equal.
pub fn strs_equal(a: &str, b: &str) -> (r: bool)
    ensures
        r == (a@ == b@),
{
    let n = a.unicode_len();
    if n != b.unicode_len() {
        return false;
    }
    let mut i: usize = 0;
    while i < n
        invariant
            n == a@.len(),
            n == b@.len(),
            i <= n,
            forall|j: int| 0 <= j < i ==> a@[j] == b@[j],
        decreases n - i,
    {
        if a.get_char(i) != b.get_char(i) {
            return false;
        }
        i = i + 1;
    }
    assert(a@ =~= b@);
    true
}

/// A string of the given text.
fn owned(s: &str) -> (r: String)
    ensures
        r@ == s@,
{
    String::from_str(s)
}

impl Command {
    /// The slash command an input line denotes; `None` for an ordinary
    /// message or an unknown command.
    pub fn parse(input: &str) -> (r: Option<Command>)
        ensures
            match r {
                Some(c) => parse_spec(input@) == Some(c@),
                None => parse_spec(input@) is None,
            },
    {
        let t = trim_str(input);
        let n = t.unicode_len();
        if n == 0 || t.get_char(0) != '/' {
            return None;
        }
        let body = t.substring_char(1, n);
        assert(body@ =~= trim(input@).drop_first());
        let m = body.unicode_len();
        let mut i: usize = 0;
        while i < m && body.get_char(i) != ' '
            invariant
                m == body@.len(),
                i <= m,
                forall|j: int| 0 <= j < i ==> body@[j] != ' ',
            decreases m - i,
        {
            i = i + 1;
        }
        let ghost b = body@;
        let (word, arg) = if i < m {
            proof {
                assert(b[i as int] == ' ');
                let k = first_space(b)->0;
                assert(first_space(b) is Some);
                assert(k == i) by {
                    if k < i {
                        assert(b[k] != ' ');
                    }
                    if k > i {
                    }
                }
            }
            (body.substring_char(0, i), body.substring_char(i + 1, m))
        } else {
            assert(first_space(b) is None);
            let e = body.substring_char(m, m);
            assert(e@ =~= Seq::<char>::empty());
            let whole = body.substring_char(0, m);
            assert(whole@ =~= b);
            (whole, e)
        };
        assert(word@ =~= command_word(b));
        assert(arg@ =~= command_arg(b));
        if word_matches(word, "quit") || word_matches(word, "q") || word_matches(word, "exit") {
            Some(Command::Quit)
        } else if word_matches(word, "scene") {
            Some(Command::Scene(owned(arg)))
        } else if word_matches(word, "characters") || word_matches(word, "chars") {
            Some(Command::Characters)
        } else if word_matches(word, "model") {
            Some(Command::Model)
        } else if word_matches(word, "save") {
            if arg.unicode_len() == 0 {
                Some(Command::Save(owned("autosave")))
            } else {
                Some(Command::Save(owned(arg)))
            }
        } else if word_matches(word, "load") {
            if arg.unicode_len() == 0 {
                Some(Command::Load(owned("autosave")))
            } else {
                Some(Command::Load(owned(arg)))
            }
        } else if word_matches(word, "help") || word_matches(word, "h") {
            Some(Command::Help)
        } else if word_matches(word, "clear") {
            Some(Command::Clear)
        } else {
            None
        }
    }

    /// Help text listing every command.
    pub fn help_text() -> (s: &'static str)
        ensures
            s@ == help_text_spec(),
    {
        "/scene <name>  - Switch to a scene\n/characters    - List active characters\n/model         - Show current model configuration\n/save [name]   - Save session\n/load [name]   - Load session\n/clear         - Clear chat history\n/help          - Show this help\n/quit          - Exit the application"
    }
}

/// The help text.
pub open spec fn help_text_spec() -> Seq<char> {
    "/scene <name>  - Switch to a scene\n/characters    - List active characters\n/model         - Show current model configuration\n/save [name]   - Save session\n/load [name]   - Load session\n/clear         - Clear chat history\n/help          - Show this help\n/quit          - Exit the application"@
}

} // verus!
