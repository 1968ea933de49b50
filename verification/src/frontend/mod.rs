//! Which front end runs the windows, and the rules of its event loop.

pub mod glutinloop;
pub mod xwin;

use vstd::prelude::*;
use vstd::string::StringExecFns;

verus! {

/// The front ends that there are.
#[derive(Clone, Copy, Debug, PartialEq, Eq, Structural)]
pub enum FrontEndSelection {
    Glutin,
    X11,
    MuxServer,
    Null,
}

/// What `str::to_lowercase` makes of a text.
pub uninterp spec fn lowercase(s: Seq<char>) -> Seq<char>;

/// `str::to_lowercase`: the text with each character replaced by its
/// lowercase form, as Unicode defines it.
#[verifier::external_body]
fn to_lowercase(s: &str) -> (r: String)
    ensures
        r@ == lowercase(s@),
{
    s.to_lowercase()
}

/// The front end whose name, in lowercase, is `name`.
pub open spec fn selection_named(name: Seq<char>) -> Option<FrontEndSelection> {
    if name == "glutin"@ {
        Some(FrontEndSelection::Glutin)
    } else if name == "x11"@ {
        Some(FrontEndSelection::X11)
    } else if name == "muxserver"@ {
        Some(FrontEndSelection::MuxServer)
    } else if name == "null"@ {
        Some(FrontEndSelection::Null)
    } else {
        None
    }
}

/// What follows the rejected name in the message of `UnknownFrontEnd`.
pub open spec fn unknown_suffix() -> Seq<char> {
    " is not a valid FrontEndSelection variant, possible values are [\"Glutin\", \"X11\", \"MuxServer\", \"Null\"]"@
}

/// A name that is no front end's.
#[derive(Debug, PartialEq, Eq)]
pub struct UnknownFrontEnd {
    pub name: String,
}

impl UnknownFrontEnd {
    /// Says what was wrong, and what would have been right.
    pub fn message(&self) -> (r: String)
        ensures
            r@ == self.name@ + unknown_suffix(),
    {
        let mut text = self.name.clone();
        text.append(
            " is not a valid FrontEndSelection variant, possible values are [\"Glutin\", \"X11\", \"MuxServer\", \"Null\"]",
        );
        text
    }
}

impl FrontEndSelection {
    /// The front end to run where nothing else was asked for: X11 on a
    /// Unix that is no macOS, unless Glutin is forced; Glutin elsewhere.
    pub fn default_for(unix_not_macos: bool, force_glutin: bool) -> (r: Self)
        ensures
            r == if !force_glutin && unix_not_macos {
                FrontEndSelection::X11
            } else {
                FrontEndSelection::Glutin
            },
    {
        if force_glutin {
            FrontEndSelection::Glutin
        } else if unix_not_macos {
            FrontEndSelection::X11
        } else {
            FrontEndSelection::Glutin
        }
    }

    /// The names of the front ends, as a command line offers them.
    pub fn variants() -> (r: Vec<&'static str>)
        ensures
            r@.len() == 4,
            r@[0]@ == "Glutin"@,
            r@[1]@ == "X11"@,
            r@[2]@ == "MuxServer"@,
            r@[3]@ == "Null"@,
    {
        let mut names: Vec<&'static str> = Vec::new();
        names.push("Glutin");
        names.push("X11");
        names.push("MuxServer");
        names.push("Null");
        names
    }

    /// The front end under a name that is already in lowercase.
    pub fn from_lowercase(name: &String) -> (r: Option<FrontEndSelection>)
        ensures
            r == selection_named(name@),
    {
        if *name == String::from_str("glutin") {
            Some(FrontEndSelection::Glutin)
        } else if *name == String::from_str("x11") {
            Some(FrontEndSelection::X11)
        } else if *name == String::from_str("muxserver") {
            Some(FrontEndSelection::MuxServer)
        } else if *name == String::from_str("null") {
            Some(FrontEndSelection::Null)
        } else {
            None
        }
    }

    /// The front end that `s` names. Case does not matter.
    pub fn from_str(s: &str) -> (r: Result<FrontEndSelection, UnknownFrontEnd>)
        ensures
            match selection_named(lowercase(s@)) {
                Some(selection) => r == Ok::<FrontEndSelection, UnknownFrontEnd>(selection),
                None => r matches Err(e) && e.name@ == s@,
            },
    {
        let lower = to_lowercase(s);
        match Self::from_lowercase(&lower) {
            Some(selection) => Ok(selection),
            None => Err(UnknownFrontEnd { name: s.to_owned() }),
        }
    }
}

} // verus!
