//! The `/client chatsounds` command: what its arguments ask for.
use vstd::prelude::*;
use crate::text::{chars_of, string_from};

verus! {

/// What the command's arguments ask for.
#[derive(Debug)]
pub enum Command {
    /// Show whether sounds mute while the window has no focus.
    ShowMuteLoseFocus,
    /// Set whether sounds mute while the window has no focus.
    SetMuteLoseFocus(bool),
    /// The value given for mute-lose-focus is not `true` or `false`.
    InvalidBool(String),
    /// Show how `play` is used.
    PlayHelp,
    /// Play the words given, joined by spaces.
    Play(String),
    /// Stop every sound.
    Stop,
    /// Show the volume.
    ShowVolume,
    /// Set the volume to the number written.
    SetVolume(String),
    /// Show every use of the command.
    Help,
}

/// The command's value, its strings as characters.
pub enum CommandView {
    ShowMuteLoseFocus,
    SetMuteLoseFocus(bool),
    InvalidBool(Seq<char>),
    PlayHelp,
    Play(Seq<char>),
    Stop,
    ShowVolume,
    SetVolume(Seq<char>),
    Help,
}

impl View for Command {
    type V = CommandView;

    open spec fn view(&self) -> CommandView {
        match self {
            Command::ShowMuteLoseFocus => CommandView::ShowMuteLoseFocus,
            Command::SetMuteLoseFocus(b) => CommandView::SetMuteLoseFocus(*b),
            Command::InvalidBool(s) => CommandView::InvalidBool(s@),
            Command::PlayHelp => CommandView::PlayHelp,
            Command::Play(s) => CommandView::Play(s@),
            Command::Stop => CommandView::Stop,
            Command::ShowVolume => CommandView::ShowVolume,
            Command::SetVolume(s) => CommandView::SetVolume(s@),
            Command::Help => CommandView::Help,
        }
    }
}

pub open spec fn word_mute() -> Seq<char> {
    seq!['m', 'u', 't', 'e', '-', 'l', 'o', 's', 'e', '-', 'f', 'o', 'c', 'u', 's']
}

pub open spec fn word_play() -> Seq<char> {
    seq!['p', 'l', 'a', 'y']
}

pub open spec fn word_sh() -> Seq<char> {
    seq!['s', 'h']
}

pub open spec fn word_volume() -> Seq<char> {
    seq!['v', 'o', 'l', 'u', 'm', 'e']
}

pub open spec fn word_true() -> Seq<char> {
    seq!['t', 'r', 'u', 'e']
}

pub open spec fn word_false() -> Seq<char> {
    seq!['f', 'a', 'l', 's', 'e']
}

/// The words joined by single spaces.
pub open spec fn joined(ws: Seq<Seq<char>>) -> Seq<char>
    decreases ws.len(),
{
    if ws.len() == 0 {
        Seq::empty()
    } else if ws.len() == 1 {
        ws[0]
    } else {
        joined(ws.drop_last()) + seq![' '] + ws.last()
    }
}

/// What the arguments `a` ask for.
pub open spec fn parse_spec(a: Seq<Seq<char>>) -> CommandView {
    if a.len() == 1 && a[0] == word_mute() {
        CommandView::ShowMuteLoseFocus
    } else if a.len() == 2 && a[0] == word_mute() {
        if a[1] == word_true() {
            CommandView::SetMuteLoseFocus(true)
        } else if a[1] == word_false() {
            CommandView::SetMuteLoseFocus(false)
        } else {
            CommandView::InvalidBool(a[1])
        }
    } else if a.len() == 1 && a[0] == word_play() {
        CommandView::PlayHelp
    } else if a.len() >= 2 && a[0] == word_play() {
        CommandView::Play(joined(a.subrange(1, a.len() as int)))
    } else if a.len() == 1 && a[0] == word_sh() {
        CommandView::Stop
    } else if a.len() == 1 && a[0] == word_volume() {
        CommandView::ShowVolume
    } else if a.len() == 2 && a[0] == word_volume() {
        CommandView::SetVolume(a[1])
    } else {
        CommandView::Help
    }
}

/// The arguments as characters.
pub open spec fn args_view(args: Seq<String>) -> Seq<Seq<char>> {
    args.map_values(|s: String| s@)
}

/// Whether `s` is the word `w`.
fn is_word(s: &String, w: &Vec<char>) -> (r: bool)
    ensures
        r == (s@ == w@),
{
    let v = chars_of(s.as_str());
    if v.len() != w.len() {
        return false;
    }
    let r = crate::text::starts_with(&v, w);
    assert(v@.subrange(0, v@.len() as int) =~= v@);
    r
}

/// Joins `args[from..]` with single spaces.
fn join_from(args: &Vec<String>, from: usize) -> (r: String)
    requires
        from < args.len(),
    ensures
        r@ == joined(args_view(args@).subrange(from as int, args@.len() as int)),
{
    let ghost a = args_view(args@);
    let mut out: Vec<char> = chars_of(args[from].as_str());
    let mut i: usize = from + 1;
    assert(a.subrange(from as int, from + 1).len() == 1);
    assert(out@ == joined(a.subrange(from as int, i as int)));
    while i < args.len()
        invariant
            from < i <= args.len(),
            a == args_view(args@),
            out@ == joined(a.subrange(from as int, i as int)),
        decreases args.len() - i,
    {
        let ghost sub = a.subrange(from as int, i + 1);
        assert(sub.drop_last() =~= a.subrange(from as int, i as int));
        out.push(' ');
        let w = chars_of(args[i].as_str());
        crate::overlay::append_chars(&mut out, &w);
        assert(out@ =~= joined(sub));
        i += 1;
    }
    string_from(&out)
}

/// What the command's arguments ask for, as `parse_spec` says.
pub fn parse_command(args: &Vec<String>) -> (r: Command)
    ensures
        r@ == parse_spec(args_view(args@)),
{
    let ghost a = args_view(args@);
    let mute: Vec<char> = vec!['m', 'u', 't', 'e', '-', 'l', 'o', 's', 'e', '-', 'f', 'o', 'c', 'u', 's'];
    let play: Vec<char> = vec!['p', 'l', 'a', 'y'];
    let sh: Vec<char> = vec!['s', 'h'];
    let volume: Vec<char> = vec!['v', 'o', 'l', 'u', 'm', 'e'];
    let yes: Vec<char> = vec!['t', 'r', 'u', 'e'];
    let no: Vec<char> = vec!['f', 'a', 'l', 's', 'e'];
    assert(mute@ =~= word_mute());
    assert(play@ =~= word_play());
    assert(sh@ =~= word_sh());
    assert(volume@ =~= word_volume());
    assert(yes@ =~= word_true());
    assert(no@ =~= word_false());
    let n = args.len();
    if n == 0 {
        return Command::Help;
    }
    assert(a[0] == args@[0]@);
    let first_mute = is_word(&args[0], &mute);
    let first_play = is_word(&args[0], &play);
    let first_volume = is_word(&args[0], &volume);
    if n == 1 && first_mute {
        Command::ShowMuteLoseFocus
    } else if n == 2 && first_mute {
        assert(a[1] == args@[1]@);
        if is_word(&args[1], &yes) {
            Command::SetMuteLoseFocus(true)
        } else if is_word(&args[1], &no) {
            Command::SetMuteLoseFocus(false)
        } else {
            Command::InvalidBool(crate::text::copy_string(&args[1]))
        }
    } else if n == 1 && first_play {
        Command::PlayHelp
    } else if n >= 2 && first_play {
        Command::Play(join_from(args, 1))
    } else if n == 1 && is_word(&args[0], &sh) {
        Command::Stop
    } else if n == 1 && first_volume {
        Command::ShowVolume
    } else if n == 2 && first_volume {
        assert(a[1] == args@[1]@);
        Command::SetVolume(crate::text::copy_string(&args[1]))
    } else {
        Command::Help
    }
}

} // verus!
