use vstd::prelude::*;
use crate::text::{same_text, texts};

verus! {

/// The commands that the shell carries out itself.
#[derive(Clone, Copy, Debug, PartialEq, Eq, Structural)]
pub enum Builtin {
    Cd,
    Echo,
    Exit,
    Pwd,
    Type,
}

/// The builtin that `name` names, if any; names are case-sensitive.
pub open spec fn builtin_named(name: Seq<char>) -> Option<Builtin> {
    if name == "cd"@ {
        Some(Builtin::Cd)
    } else if name == "echo"@ {
        Some(Builtin::Echo)
    } else if name == "exit"@ {
        Some(Builtin::Exit)
    } else if name == "pwd"@ {
        Some(Builtin::Pwd)
    } else if name == "type"@ {
        Some(Builtin::Type)
    } else {
        None
    }
}

/// The arguments of a command: every word after the first.
pub open spec fn args_of(ws: Seq<Seq<char>>) -> Seq<Seq<char>> {
    if ws.len() == 0 {
        Seq::empty()
    } else {
        ws.skip(1)
    }
}

/// The words joined by single spaces.
pub open spec fn joined(ws: Seq<Seq<char>>) -> Seq<char>
    decreases ws.len(),
{
    if ws.len() == 0 {
        Seq::empty()
    } else if ws.len() == 1 {
        ws[0]
    } else {
        joined(ws.drop_last()) + seq![' '] + ws.last()
    }
}

/// What `echo` writes: its arguments joined by single spaces, then a newline.
pub open spec fn echo_text(ws: Seq<Seq<char>>) -> Seq<char> {
    joined(args_of(ws)) + seq!['\n']
}

/// Looks `name` up among the builtins.
pub fn builtin_of(name: &str) -> (r: Option<Builtin>)
    ensures
        r == builtin_named(name@),
{
    if same_text(name, "cd") {
        Some(Builtin::Cd)
    } else if same_text(name, "echo") {
        Some(Builtin::Echo)
    } else if same_text(name, "exit") {
        Some(Builtin::Exit)
    } else if same_text(name, "pwd") {
        Some(Builtin::Pwd)
    } else if same_text(name, "type") {
        Some(Builtin::Type)
    } else {
        None
    }
}

/// The output of `echo` for the command line `words` (the first word is the
/// command itself).
pub fn echo_output(words: &Vec<String>) -> (r: String)
    ensures
        r@ == echo_text(texts(words@)),
{
    let ghost ws = texts(words@);
    let mut out = String::new();
    proof {
        reveal_strlit("\n");
        assert("\n"@ =~= seq!['\n']);
    }
    if words.len() > 1 {
        let mut i: usize = 1;
        assert(ws.subrange(1, 1) =~= Seq::<Seq<char>>::empty());
        while i < words.len()
            invariant
                ws == texts(words@),
                1 <= i <= words@.len(),
                out@ == joined(ws.subrange(1, i as int)),
            decreases words@.len() - i,
        {
            let ghost part = ws.subrange(1, i + 1);
            assert(part.drop_last() =~= ws.subrange(1, i as int));
            assert(part.last() == words@[i as int]@);
            proof {
                reveal_strlit(" ");
                assert(" "@ =~= seq![' ']);
            }
            if i > 1 {
                out.append(" ");
            }
            out.append(words[i].as_str());
            if i > 1 {
                assert(out@ =~= joined(part.drop_last()) + seq![' '] + part.last());
            } else {
                assert(part.len() == 1);
                assert(out@ =~= part[0]);
            }
            i = i + 1;
        }
        assert(ws.subrange(1, words@.len() as int) =~= args_of(ws));
    } else {
        assert(args_of(ws) =~= Seq::<Seq<char>>::empty());
    }
    out.append("\n");
    out
}

/// `text` with a newline added.
pub fn line_of(text: &str) -> (r: String)
    ensures
        r@ == text@ + "\n"@,
{
    let mut r = String::from_str(text);
    r.append("\n");
    r
}

/// What `type` writes for a builtin.
pub fn builtin_notice(name: &str) -> (r: String)
    ensures
        r@ == name@ + " is a shell builtin\n"@,
{
    let mut r = String::from_str(name);
    r.append(" is a shell builtin\n");
    r
}

/// The diagnostic of `cd` when `path` is missing or not a directory.
pub fn cd_failure(path: &str) -> (r: String)
    ensures
        r@ == path@ + ": No such file or directory\n"@,
{
    let mut r = String::from_str(path);
    r.append(": No such file or directory\n");
    r
}

/// The diagnostic of `cd` when given more than one argument, if it was.
pub fn cd_warning(too_many: bool) -> (r: Option<String>)
    ensures
        too_many <==> r is Some,
        r matches Some(t) ==> t@ == "cd: too many arguments\n"@,
{
    if too_many {
        Some(String::from_str("cd: too many arguments\n"))
    } else {
        None
    }
}

/// Where `cd` with no argument or with `~` goes: the home directory, or the
/// diagnostic to write when it is not known.
pub fn home_destination(home: Option<String>) -> (r: Result<String, String>)
    ensures
        home matches Some(h) ==> r == Ok::<String, String>(h),
        home is None ==> (r matches Err(e) && e@ == "cd: HOME not set\n"@),
{
    match home {
        Some(h) => Ok(h),
        None => Err(String::from_str("cd: HOME not set\n")),
    }
}

/// The diagnostic for a command that is neither a builtin nor on the search
/// path.
pub fn command_not_found(name: &str) -> (r: String)
    ensures
        r@ == name@ + ": command not found\n"@,
{
    let mut r = String::from_str(name);
    r.append(": command not found\n");
    r
}

/// A line for one of the two output streams.
pub enum Reply {
    /// For the output sink, which a redirect may point at a file.
    Output(String),
    /// For the diagnostic stream, which is never redirected.
    Diagnostic(String),
}

/// What `type` reports for a name that is not a builtin, given where the
/// search path resolved it, if anywhere.
pub fn type_result(name: &str, resolved: Option<String>) -> (r: Reply)
    ensures
        resolved matches Some(p) ==> (r matches Reply::Output(t) && t@ == name@ + " is "@ + p@
            + "\n"@),
        resolved is None ==> (r matches Reply::Diagnostic(t) && t@ == name@ + ": not found\n"@),
{
    match resolved {
        Some(p) => {
            let mut t = String::from_str(name);
            t.append(" is ");
            t.append(p.as_str());
            t.append("\n");
            Reply::Output(t)
        },
        None => {
            let mut t = String::from_str(name);
            t.append(": not found\n");
            Reply::Diagnostic(t)
        },
    }
}

} // verus!
