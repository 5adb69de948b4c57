//! The banners shown above the output.

use crate::style::green;
use crate::style::styled_as;
use crate::style::GREEN;
use vstd::prelude::*;

verus! {

pub const SMALL_BANNER: &'static str = "\nNotes 🚀\n\n";

pub const BANNER: &'static str = "
███╗   ██╗ ██████╗ ████████╗███████╗███████╗
████╗  ██║██╔═══██╗╚══██╔══╝██╔════╝██╔════╝
██╔██╗ ██║██║   ██║   ██║   █████╗  ███████╗
██║╚██╗██║██║   ██║   ██║   ██╔══╝  ╚════██║
██║ ╚████║╚██████╔╝   ██║   ███████╗███████║
╚═╝  ╚═══╝ ╚═════╝    ╚═╝   ╚══════╝╚══════╝

    Clean all the brains !
";

pub struct Banners;

impl Banners {
    /// The small banner, in green where the terminal takes colours.
    pub fn small() -> (banner: String)
        ensures
            styled_as(banner@, SMALL_BANNER@, GREEN@),
    {
        green(SMALL_BANNER)
    }

    /// The big banner, in green where the terminal takes colours.
    pub fn big() -> (banner: String)
        ensures
            styled_as(banner@, BANNER@, GREEN@),
    {
        green(BANNER)
    }
}

} // verus!
