//! Start-up configuration: the one positional argument, either a file path
//! or the literal `help`.

use vstd::prelude::*;

use crate::help;

verus! {

pub struct App {
    /// Either a file path or the literal `help`.
    pub input: String,
}

impl App {
    /// Reads the configuration from the command-line arguments (the first
    /// entry is the program name).  Without an argument there is nothing to
    /// display, and the usage text comes back as the error.
    pub fn build(args: &Vec<String>) -> (r: Result<App, &'static str>)
        ensures
            args@.len() >= 2 ==> (r matches Ok(app) && app.input@ == args@[1]@),
            args@.len() < 2 ==> (r matches Err(usage) && usage@ == help::USAGE@),
    {
        if args.len() < 2 {
            return Err(help::USAGE);
        }
        Ok(App { input: args[1].clone() })
    }
}

} // verus!
