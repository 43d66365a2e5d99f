//! The programs whose configuration a palette is applied to.

use vstd::prelude::*;
use crate::text::{chars_of, same_chars};

verus! {

/// A target: the program to configure, with the path of its configuration file.
#[derive(Debug, PartialEq, Eq)]
pub enum AxtcTarget {
    /// The terminal emulator Alacritty: the colour block of its file is patched.
    Alacritty(String),
    /// The status bar Polybar: its colour file is written anew.
    Polybar(String),
    /// The window manager herbstluftwm, for which no writer exists.
    Herbstluftwm(String),
    /// The editor Neovim, for which no writer exists.
    Neovim(String),
}

impl AxtcTarget {
    /// The path of the target's file.
    pub open spec fn file(self) -> Seq<char> {
        match self {
            AxtcTarget::Alacritty(path) => path@,
            AxtcTarget::Polybar(path) => path@,
            AxtcTarget::Herbstluftwm(path) => path@,
            AxtcTarget::Neovim(path) => path@,
        }
    }

    /// Whether the target's writer starts from what the file holds.
    pub open spec fn reads_first(self) -> bool {
        self is Alacritty
    }

    /// The path of the target's file.
    pub fn path(&self) -> (path: &str)
        ensures
            path@ == self.file(),
    {
        match self {
            AxtcTarget::Alacritty(path) => path.as_str(),
            AxtcTarget::Polybar(path) => path.as_str(),
            AxtcTarget::Herbstluftwm(path) => path.as_str(),
            AxtcTarget::Neovim(path) => path.as_str(),
        }
    }

    /// Whether the target's writer starts from what the file holds.
    pub fn needs_existing(&self) -> (b: bool)
        ensures
            b == self.reads_first(),
    {
        match self {
            AxtcTarget::Alacritty(_) => true,
            _ => false,
        }
    }
}

impl Clone for AxtcTarget {
    fn clone(&self) -> (copy: AxtcTarget)
        ensures
            copy == *self,
    {
        match self {
            AxtcTarget::Alacritty(path) => AxtcTarget::Alacritty(path.clone()),
            AxtcTarget::Polybar(path) => AxtcTarget::Polybar(path.clone()),
            AxtcTarget::Herbstluftwm(path) => AxtcTarget::Herbstluftwm(path.clone()),
            AxtcTarget::Neovim(path) => AxtcTarget::Neovim(path.clone()),
        }
    }
}

/// Whether no two targets share a file.
pub open spec fn distinct_files(targets: Seq<AxtcTarget>) -> bool {
    forall|i: int, j: int|
        0 <= i < j < targets.len() ==> (#[trigger] targets[i]).file() != (
        #[trigger] targets[j]).file()
}

/// Whether no two targets share a file. Targets that do must not be applied in
/// one run: the later one would overwrite what the earlier one wrote.
pub fn have_distinct_files(targets: &Vec<AxtcTarget>) -> (distinct: bool)
    ensures
        distinct == distinct_files(targets@),
{
    let mut j: usize = 0;
    while j < targets.len()
        invariant
            j <= targets.len(),
            forall|a: int, b: int|
                0 <= a < b < j ==> (#[trigger] targets@[a]).file() != (
                #[trigger] targets@[b]).file(),
        decreases targets.len() - j,
    {
        let later = chars_of(targets[j].path());
        let mut i: usize = 0;
        while i < j
            invariant
                i <= j < targets.len(),
                later@ == targets@[j as int].file(),
                forall|a: int|
                    0 <= a < i ==> (#[trigger] targets@[a]).file() != targets@[j as int].file(),
            decreases j - i,
        {
            let earlier = chars_of(targets[i].path());
            if same_chars(&earlier, &later) {
                return false;
            }
            i += 1;
        }
        j += 1;
    }
    true
}

} // verus!
