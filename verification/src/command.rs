//! External command lines (program and arguments) that the library decides
//! on and the caller runs.
use vstd::prelude::*;
use vstd::string::*;

verus! {

/// A program to run and its arguments.
#[derive(Clone, Debug, PartialEq, Eq)]
pub struct CommandLine {
    pub program: String,
    pub args: Vec<String>,
}

/// The abstract value of a [`CommandLine`].
pub struct CommandView {
    pub program: Seq<char>,
    pub args: Seq<Seq<char>>,
}

/// The texts of `strings`.
pub open spec fn texts(strings: Seq<String>) -> Seq<Seq<char>> {
    strings.map_values(|s: String| s@)
}

impl View for CommandLine {
    type V = CommandView;

    open spec fn view(&self) -> CommandView {
        CommandView { program: self.program@, args: texts(self.args@) }
    }
}

/// The optional `-s SERIAL` selection of an adb device.
pub open spec fn serial_args(serial: Option<Seq<char>>) -> Seq<Seq<char>> {
    match serial {
        Some(s) => seq!["-s"@, s],
        None => Seq::empty(),
    }
}

/// `adb`, addressed to the device `serial` when one is given, with `args`.
pub open spec fn adb_invocation(adb: Seq<char>, serial: Option<Seq<char>>, args: Seq<Seq<char>>) -> CommandView {
    CommandView { program: adb, args: serial_args(serial) + args }
}

/// The view of an optional string slice.
pub open spec fn opt_view(s: Option<&str>) -> Option<Seq<char>> {
    match s {
        Some(s) => Some(s@),
        None => None,
    }
}

impl CommandLine {
    /// `program` with no arguments.
    pub fn new(program: &str) -> (c: Self)
        ensures
            c@.program == program@,
            c@.args == Seq::<Seq<char>>::empty(),
    {
        let c = CommandLine { program: String::from_str(program), args: Vec::new() };
        assert(c@.args =~= Seq::<Seq<char>>::empty());
        c
    }

    /// Appends the argument `arg`.
    pub fn arg(&mut self, arg: &str)
        ensures
            final(self)@.program == old(self)@.program,
            final(self)@.args == old(self)@.args.push(arg@),
    {
        self.args.push(String::from_str(arg));
        assert(texts(self.args@) =~= texts(old(self).args@).push(arg@));
    }

    /// Appends the argument `arg`.
    pub fn arg_string(&mut self, arg: String)
        ensures
            final(self)@.program == old(self)@.program,
            final(self)@.args == old(self)@.args.push(arg@),
    {
        let ghost text = arg@;
        self.args.push(arg);
        assert(texts(self.args@) =~= texts(old(self).args@).push(text));
    }
}

/// `adb`, addressed to the device `serial` when one is given.
pub fn adb_command(adb: &str, serial: Option<&str>) -> (c: CommandLine)
    ensures
        c@ == adb_invocation(adb@, opt_view(serial), Seq::empty()),
{
    let mut c = CommandLine::new(adb);
    match serial {
        Some(s) => {
            c.arg("-s");
            c.arg(s);
        },
        None => {},
    }
    assert(c@.args =~= serial_args(opt_view(serial)));
    c
}

} // verus!
