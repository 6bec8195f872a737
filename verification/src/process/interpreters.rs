//! Friendly names for programs run by an interpreter.
//!
//! Programs like java, perl and python execute files with a known extension
//! or run modules; the friendly name shows the script or the module.

use vstd::prelude::*;
use crate::metrics::string_views;
use crate::strings::{
    ends_with, push_char, push_chars, slice_ends_with, slice_starts_with, starts_with, str_chars,
    str_eq, string_from_chars, sub_chars,
};

verus! {

/// Position of the last slash in a path, or -1 if there is none.
pub open spec fn last_slash(s: Seq<char>) -> int
    decreases s.len(),
{
    if s.len() == 0 {
        -1
    } else if s.last() == '/' {
        s.len() - 1
    } else {
        last_slash(s.drop_last())
    }
}

/// What follows the last slash of a path, the whole path if it has none.
pub open spec fn spec_basename(s: Seq<char>) -> Seq<char> {
    s.skip(last_slash(s) + 1)
}

/// Text without slashes at the end of a path leaves its last slash where it is.
proof fn lemma_last_slash_after(s: Seq<char>, name: Seq<char>)
    requires
        !name.contains('/'),
    ensures
        last_slash(s + name) == last_slash(s),
    decreases name.len(),
{
    if name.len() > 0 {
        assert((s + name).drop_last() =~= s + name.drop_last());
        assert((s + name).last() == name.last());
        assert(name.drop_last().contains('/') ==> name.contains('/')) by {
            if name.drop_last().contains('/') {
                let k = choose|k: int| 0 <= k < name.drop_last().len() && name.drop_last()[k] == '/';
                assert(name[k] == '/');
            }
        }
        assert(name[name.len() - 1] == name.last());
        lemma_last_slash_after(s, name.drop_last());
    }
}

/// The base name of a path is what follows its last slash: a name without
/// slashes is its own base name, and so is it after any directory.
pub proof fn law_basename_after_last_slash(dir: Seq<char>, name: Seq<char>)
    requires
        !name.contains('/'),
    ensures
        spec_basename(name) == name,
        spec_basename(dir.push('/') + name) == name,
{
    lemma_last_slash_after(Seq::empty(), name);
    assert(Seq::<char>::empty() + name =~= name);
    lemma_last_slash_after(dir.push('/'), name);
    assert((dir.push('/') + name).skip(dir.len() + 1 as int) =~= name);
    assert(last_slash(dir.push('/')) == dir.len() as int);
    assert(name.skip(0) =~= name);
}

/// What follows the last slash of a path given as characters.
fn basename_chars(path: &[char]) -> (r: Vec<char>)
    ensures
        r@ == spec_basename(path@),
{
    let mut i: usize = path.len();
    assert(path@.take(path.len() as int) =~= path@);
    while i > 0 && path[i - 1] != '/'
        invariant
            0 <= i <= path.len(),
            last_slash(path@) == last_slash(path@.take(i as int)),
        decreases i,
    {
        assert(path@.take(i as int).drop_last() =~= path@.take(i - 1));
        i = i - 1;
    }
    proof {
        if i > 0 {
            assert(path@.take(i as int).last() == '/');
        } else {
            assert(path@.take(0) =~= Seq::<char>::empty());
        }
    }
    let r = sub_chars(path, i, path.len());
    assert(r@ =~= spec_basename(path@));
    r
}

/// An interpreter: its program name, the extension of its scripts and the
/// option that introduces a module, if it has one.
pub struct Interpreter {
    pub name: String,
    pub extension: &'static str,
    pub mod_option: Option<&'static str>,
}

/// What an interpreter is made of, as characters.
pub open spec fn interpreter_view(i: Interpreter) -> (Seq<char>, Seq<char>, Option<Seq<char>>) {
    (i.name@, i.extension@, match i.mod_option { Some(o) => Some(o@), None => None })
}

/// The interpreter recognized from the base name of a program, if any.
pub open spec fn spec_guess(path: Seq<char>) -> Option<(Seq<char>, Seq<char>, Option<Seq<char>>)> {
    let name = spec_basename(path);
    if name == "java"@ {
        Some((name, ".jar"@, Some("-jar"@)))
    } else if starts_with(name, "perl"@) {
        Some((name, ".pl"@, Some("-M"@)))
    } else if starts_with(name, "python"@) {
        Some((name, ".py"@, Some("-m"@)))
    } else if ends_with(name, "sh"@) {
        Some((name, ".sh"@, None))
    } else {
        None
    }
}

/// `prog(what)`.
pub open spec fn decorated(prog: Seq<char>, what: Seq<char>) -> Seq<char> {
    prog + seq!['('] + what + seq![')']
}

/// Friendly name found in the arguments from position `i` on.
///
/// The first argument with the script extension names the script; an
/// argument that follows the module option alone names the module; the
/// module option followed by text names the module too. Otherwise the
/// program name alone.
pub open spec fn spec_scan(
    prog: Seq<char>,
    ext: Seq<char>,
    opt: Option<Seq<char>>,
    args: Seq<Seq<char>>,
    i: int,
    next_arg: bool,
) -> Seq<char>
    decreases args.len() - i,
{
    if i < 0 || i >= args.len() {
        prog
    } else {
        let arg = args[i];
        if ends_with(arg, ext) {
            decorated(prog, spec_basename(arg.take(arg.len() - ext.len())))
        } else if next_arg {
            decorated(prog, arg)
        } else {
            match opt {
                Some(o) => {
                    if starts_with(arg, o) {
                        if arg.len() == o.len() {
                            spec_scan(prog, ext, opt, args, i + 1, true)
                        } else {
                            decorated(prog, arg.skip(o.len() as int))
                        }
                    } else {
                        spec_scan(prog, ext, opt, args, i + 1, next_arg)
                    }
                },
                None => spec_scan(prog, ext, opt, args, i + 1, next_arg),
            }
        }
    }
}

/// Friendly name of a command line: `None` when it is empty or its program
/// is no known interpreter.
pub open spec fn spec_friendly_name(cmdline: Seq<Seq<char>>) -> Option<Seq<char>> {
    if cmdline.len() == 0 {
        None
    } else {
        match spec_guess(cmdline[0]) {
            None => None,
            Some((prog, ext, opt)) => Some(spec_scan(prog, ext, opt, cmdline, 1, false)),
        }
    }
}

fn decorate(prog: &[char], what: &[char]) -> (s: String)
    ensures
        s@ == decorated(prog@, what@),
{
    let mut s = string_from_chars(prog);
    push_char(&mut s, '(');
    push_chars(&mut s, what);
    push_char(&mut s, ')');
    assert(s@ =~= decorated(prog@, what@));
    s
}

impl Interpreter {
    fn new(name: String, extension: &'static str, mod_option: Option<&'static str>) -> (i: Interpreter)
        ensures
            i.name == name,
            i.extension == extension,
            i.mod_option == mod_option,
    {
        Interpreter { name, mod_option, extension }
    }

    /// Recognize the interpreter from the base name of a program path.
    pub fn guess(path: &str) -> (r: Option<Interpreter>)
        ensures
            match r {
                Some(i) => spec_guess(path@) == Some(interpreter_view(i)),
                None => spec_guess(path@).is_none(),
            },
    {
        let chars = str_chars(path);
        let name_chars = basename_chars(&chars);
        let name = string_from_chars(&name_chars);
        if str_eq(name.as_str(), "java") {
            Some(Interpreter::new(name, ".jar", Some("-jar")))
        } else if slice_starts_with(&name_chars, &str_chars("perl")) {
            Some(Interpreter::new(name, ".pl", Some("-M")))
        } else if slice_starts_with(&name_chars, &str_chars("python")) {
            Some(Interpreter::new(name, ".py", Some("-m")))
        } else if slice_ends_with(&name_chars, &str_chars("sh")) {
            Some(Interpreter::new(name, ".sh", None))
        } else {
            None
        }
    }

    /// Friendly name of a command line run by this interpreter; the program
    /// name alone when no script or module is found.
    pub fn friendly_name(&self, cmdline: &[String]) -> (r: Option<String>)
        ensures
            r matches Some(s) && s@ == spec_scan(
                self.name@,
                self.extension@,
                match self.mod_option { Some(o) => Some(o@), None => None },
                string_views(cmdline@),
                1,
                false,
            ),
    {
        let ghost args = string_views(cmdline@);
        let ghost opt = match self.mod_option { Some(o) => Some(o@), None => None };
        let prog = str_chars(self.name.as_str());
        let ext = str_chars(self.extension);
        let option: Option<Vec<char>> = match self.mod_option {
            Some(o) => Some(str_chars(o)),
            None => None,
        };
        let mut next_arg = false;
        let mut i: usize = 1;
        while i < cmdline.len()
            invariant
                1 <= i,
                args == string_views(cmdline@),
                prog@ == self.name@,
                ext@ == self.extension@,
                opt == match option { Some(o) => Some(o@), None => None::<Seq<char>> },
                opt == match self.mod_option { Some(o) => Some(o@), None => None::<Seq<char>> },
                spec_scan(prog@, ext@, opt, args, 1, false) == spec_scan(prog@, ext@, opt, args, i as int, next_arg),
            decreases cmdline.len() - i,
        {
            let arg = str_chars(cmdline[i].as_str());
            assert(arg@ == args[i as int]);
            if slice_ends_with(&arg, &ext) {
                let stem = sub_chars(&arg, 0, arg.len() - ext.len());
                assert(stem@ =~= arg@.take(arg.len() - ext.len()));
                let name = basename_chars(&stem);
                assert(spec_scan(prog@, ext@, opt, args, i as int, next_arg) == decorated(prog@, name@));
                return Some(decorate(&prog, &name));
            }
            if next_arg {
                assert(spec_scan(prog@, ext@, opt, args, i as int, next_arg) == decorated(prog@, arg@));
                return Some(decorate(&prog, &arg));
            }
            match &option {
                Some(o) => {
                    if slice_starts_with(&arg, o) {
                        if arg.len() == o.len() {
                            next_arg = true;
                        } else {
                            let rest = sub_chars(&arg, o.len(), arg.len());
                            assert(rest@ =~= arg@.skip(o.len() as int));
                            return Some(decorate(&prog, &rest));
                        }
                    }
                },
                None => {},
            }
            i = i + 1;
        }
        Some(string_from_chars(&prog))
    }
}

/// Friendly name of a command line whose program is an interpreter: the
/// interpreter's name with the script or module it runs.
pub fn friendly_name(cmdline: &[String]) -> (r: Option<String>)
    ensures
        match spec_friendly_name(string_views(cmdline@)) {
            Some(n) => r matches Some(s) && s@ == n,
            None => r.is_none(),
        },
{
    if cmdline.len() == 0 {
        return None;
    }
    let ghost args = string_views(cmdline@);
    assert(args[0] == cmdline@[0]@);
    match Interpreter::guess(cmdline[0].as_str()) {
        Some(intr) => intr.friendly_name(cmdline),
        None => None,
    }
}

/// The friendly name of an interpreter's command line always holds the
/// interpreter's name first.
pub proof fn law_friendly_name_starts_with_program(
    prog: Seq<char>,
    ext: Seq<char>,
    opt: Option<Seq<char>>,
    args: Seq<Seq<char>>,
    i: int,
    next_arg: bool,
)
    ensures
        starts_with(spec_scan(prog, ext, opt, args, i, next_arg), prog),
    decreases args.len() - i,
{
    assert forall|w: Seq<char>| #[trigger] starts_with(decorated(prog, w), prog) by {
        assert(decorated(prog, w).take(prog.len() as int) =~= prog);
    }
    assert(prog.take(prog.len() as int) =~= prog);
    if !(i < 0 || i >= args.len()) {
        let arg = args[i];
        if !ends_with(arg, ext) && !next_arg {
            law_friendly_name_starts_with_program(prog, ext, opt, args, i + 1, true);
            law_friendly_name_starts_with_program(prog, ext, opt, args, i + 1, next_arg);
        }
    }
}

} // verus!
