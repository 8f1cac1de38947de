use vstd::prelude::*;
use crate::builtins::{args_of, builtin_named, builtin_notice, builtin_of, echo_output, echo_text, Builtin};
use crate::text::{same_text, texts};
use crate::tokenizer::Token;

verus! {

/// What a command line asks for, over plain sequences.
pub enum Act {
    Nothing,
    Exit,
    Write(Seq<char>),
    ChangeHome(bool),
    ChangeDir(Seq<char>, bool),
    PrintCwd,
    Lookup(Seq<char>),
    Run(Seq<char>, Seq<Seq<char>>),
}

/// The next thing the shell does for a command line. The caller carries it
/// out: it owns the process, the file system and the output streams.
pub enum Step {
    /// No words, or `type` with no argument.
    Nothing,
    /// `exit`: end the process with status 0.
    Exit,
    /// Write this text to the output sink.
    Write(String),
    /// `cd` to the home directory; `too_many` when more than one argument
    /// was given.
    ChangeHome { too_many: bool },
    /// `cd` to `path`; `too_many` when more than one argument was given.
    ChangeDir { path: String, too_many: bool },
    /// `pwd`: write the working directory and a newline to the sink.
    PrintCwd,
    /// `type` of a name that is no builtin: resolve it on the search path.
    Lookup(String),
    /// Resolve `name` on the search path and run it with `args`.
    Run { name: String, args: Vec<String> },
}

impl View for Step {
    type V = Act;

    open spec fn view(&self) -> Act {
        match self {
            Step::Nothing => Act::Nothing,
            Step::Exit => Act::Exit,
            Step::Write(t) => Act::Write(t@),
            Step::ChangeHome { too_many } => Act::ChangeHome(*too_many),
            Step::ChangeDir { path, too_many } => Act::ChangeDir(path@, *too_many),
            Step::PrintCwd => Act::PrintCwd,
            Step::Lookup(n) => Act::Lookup(n@),
            Step::Run { name, args } => Act::Run(name@, texts(args@)),
        }
    }
}

/// What the command line `ws` asks for: a builtin is carried out by the shell,
/// any other command is looked up on the search path.
pub open spec fn decision(ws: Seq<Seq<char>>) -> Act {
    if ws.len() == 0 {
        Act::Nothing
    } else {
        let args = args_of(ws);
        match builtin_named(ws[0]) {
            Some(Builtin::Exit) => Act::Exit,
            Some(Builtin::Echo) => Act::Write(echo_text(ws)),
            Some(Builtin::Pwd) => Act::PrintCwd,
            Some(Builtin::Cd) => {
                if args.len() == 0 || args[0] == "~"@ {
                    Act::ChangeHome(args.len() > 1)
                } else {
                    Act::ChangeDir(args[0], args.len() > 1)
                }
            },
            Some(Builtin::Type) => {
                if args.len() == 0 {
                    Act::Nothing
                } else if builtin_named(args[0]) is Some {
                    Act::Write(args[0] + " is a shell builtin\n"@)
                } else {
                    Act::Lookup(args[0])
                }
            },
            None => Act::Run(ws[0], args),
        }
    }
}

/// Every word of `words` after the first.
fn arguments(words: &Vec<String>) -> (r: Vec<String>)
    requires
        words@.len() > 0,
    ensures
        texts(r@) == args_of(texts(words@)),
{
    let mut out: Vec<String> = Vec::new();
    let mut i: usize = 1;
    while i < words.len()
        invariant
            1 <= i <= words@.len(),
            texts(out@) == texts(words@).subrange(1, i as int),
        decreases words@.len() - i,
    {
        let ghost prev = out@;
        let w = words[i].clone();
        assert(w@ == words@[i as int]@);
        out.push(w);
        assert(texts(out@) =~= texts(prev).push(w@));
        assert(texts(out@) =~= texts(words@).subrange(1, i + 1));
        i = i + 1;
    }
    assert(texts(words@).subrange(1, words@.len() as int) =~= texts(words@).skip(1));
    out
}

/// Decides what the command line `words` asks for.
pub fn decide(words: &Vec<String>) -> (r: Step)
    ensures
        r@ == decision(texts(words@)),
{
    let ghost ws = texts(words@);
    if words.len() == 0 {
        return Step::Nothing;
    }
    assert(ws[0] == words@[0]@);
    let ghost args = args_of(ws);
    assert(args.len() == words@.len() - 1);
    if words.len() > 1 {
        assert(args[0] == words@[1]@);
    }
    match builtin_of(words[0].as_str()) {
        Some(Builtin::Exit) => Step::Exit,
        Some(Builtin::Echo) => Step::Write(echo_output(words)),
        Some(Builtin::Pwd) => Step::PrintCwd,
        Some(Builtin::Cd) => {
            let too_many = words.len() > 2;
            if words.len() == 1 || same_text(words[1].as_str(), "~") {
                Step::ChangeHome { too_many }
            } else {
                Step::ChangeDir { path: words[1].clone(), too_many }
            }
        },
        Some(Builtin::Type) => {
            if words.len() == 1 {
                Step::Nothing
            } else if builtin_of(words[1].as_str()).is_some() {
                Step::Write(builtin_notice(words[1].as_str()))
            } else {
                Step::Lookup(words[1].clone())
            }
        },
        None => Step::Run { name: words[0].clone(), args: arguments(words) },
    }
}

/// The file that standard output goes to: the redirect target, unless it is
/// absent or empty, in which case output goes to the terminal.
pub fn redirect_path(line: &Token) -> (r: Option<String>)
    ensures
        r is Some <==> (line.stdout matches Some(t) && t@.len() > 0),
        r matches Some(p) ==> line.target_view() == Some(p@),
{
    match &line.stdout {
        Some(t) => {
            if t.unicode_len() > 0 {
                Some(t.clone())
            } else {
                None
            }
        },
        None => None,
    }
}

} // verus!
