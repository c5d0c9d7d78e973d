//! Names and paths of the command-line front end.

use vstd::prelude::*;

verus! {

/// The subcommand that prints address information and runs a DNS leak test.
#[derive(Debug, Clone, Copy, PartialEq, Eq, Structural)]
pub struct CommandIpInfo;

impl CommandIpInfo {
    /// The name of the subcommand.
    pub fn get_subcommand(&self) -> (r: &'static str)
        ensures
            r@ == "ipinfo"@,
    {
        "ipinfo"
    }
}

/// The directory of the configuration, below the home directory `home`.
pub open spec fn config_dir_text(home: Seq<char>) -> Seq<char> {
    if home.len() == 0 || home.last() == '/' {
        home + ".config/linkage/"@
    } else {
        home + "/.config/linkage/"@
    }
}

/// The directory of the configuration, below the home directory `home`: the relative
/// path `.config/linkage/` joined to it, with a separator where it needs one.
pub fn get_config_dir(home: &str) -> (r: String)
    ensures
        r@ == config_dir_text(home@),
{
    let n = home.unicode_len();
    let mut dir = String::from_str(home);
    if n == 0 || home.get_char(n - 1) == '/' {
        dir.append(".config/linkage/");
    } else {
        dir.append("/.config/linkage/");
    }
    dir
}

} // verus!
