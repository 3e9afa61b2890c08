//! The helpers for packages of the Arch User Repository.
use vstd::prelude::*;

verus! {

/// A helper that may be installed, in order of preference.
#[derive(Clone, Copy, Debug, PartialEq, Eq, Structural)]
pub enum AurHelper {
    Paru,
    Yay,
    Pikaur,
    Trizen,
}

impl AurHelper {
    /// The name of the binary.
    pub open spec fn spec_name(self) -> Seq<char> {
        match self {
            AurHelper::Paru => "paru"@,
            AurHelper::Yay => "yay"@,
            AurHelper::Pikaur => "pikaur"@,
            AurHelper::Trizen => "trizen"@,
        }
    }

    /// The next helper in order of preference.
    pub open spec fn next(self) -> Option<AurHelper> {
        match self {
            AurHelper::Paru => Some(AurHelper::Yay),
            AurHelper::Yay => Some(AurHelper::Pikaur),
            AurHelper::Pikaur => Some(AurHelper::Trizen),
            AurHelper::Trizen => None,
        }
    }

    /// The place in order of preference.
    pub open spec fn rank(self) -> int {
        match self {
            AurHelper::Paru => 0,
            AurHelper::Yay => 1,
            AurHelper::Pikaur => 2,
            AurHelper::Trizen => 3,
        }
    }

    /// The name of the binary.
    pub fn name(self) -> (r: &'static str)
        ensures
            r@ == self.spec_name(),
    {
        match self {
            AurHelper::Paru => "paru",
            AurHelper::Yay => "yay",
            AurHelper::Pikaur => "pikaur",
            AurHelper::Trizen => "trizen",
        }
    }
}

/// How far the search for a helper has come.
#[derive(Clone, Copy, Debug, PartialEq, Eq, Structural)]
pub enum AurSearch {
    /// Find out whether this one is installed.
    Ask(AurHelper),
    /// This is the one to use.
    Found(AurHelper),
    /// None is installed.
    NoHelper,
}

impl AurSearch {
    /// Where the search begins.
    pub fn start() -> (r: AurSearch)
        ensures
            r == AurSearch::Ask(AurHelper::Paru),
    {
        AurSearch::Ask(AurHelper::Paru)
    }
}

/// What to do once it is known whether `asked` is installed.
pub open spec fn search_next(asked: AurHelper, installed: bool) -> AurSearch {
    if installed {
        AurSearch::Found(asked)
    } else {
        match asked.next() {
            Some(next) => AurSearch::Ask(next),
            None => AurSearch::NoHelper,
        }
    }
}

/// What the search comes to from `search` on, where `installed` tells which helpers there are.
pub open spec fn search_result(search: AurSearch, installed: spec_fn(AurHelper) -> bool) -> Option<
    AurHelper,
>
    decreases
            match search {
                AurSearch::Ask(h) => 4 - h.rank(),
                _ => 0,
            },
{
    match search {
        AurSearch::Ask(h) => search_result(search_next(h, installed(h)), installed),
        AurSearch::Found(h) => Some(h),
        AurSearch::NoHelper => None,
    }
}

/// Takes note of whether `asked` is installed: it is the one to use, or the next one is asked for.
pub fn detect_aur_helper(asked: AurHelper, installed: bool) -> (r: AurSearch)
    ensures
        r == search_next(asked, installed),
{
    if installed {
        AurSearch::Found(asked)
    } else {
        match asked {
            AurHelper::Paru => AurSearch::Ask(AurHelper::Yay),
            AurHelper::Yay => AurSearch::Ask(AurHelper::Pikaur),
            AurHelper::Pikaur => AurSearch::Ask(AurHelper::Trizen),
            AurHelper::Trizen => AurSearch::NoHelper,
        }
    }
}

/// The search finds the installed helper that comes first in order of preference, and none only
/// if none is installed.
pub proof fn search_finds_the_first_helper(installed: spec_fn(AurHelper) -> bool)
    ensures
        match search_result(AurSearch::Ask(AurHelper::Paru), installed) {
            Some(h) => installed(h) && forall|other: AurHelper|
                other.rank() < h.rank() ==> !#[trigger] installed(other),
            None => forall|other: AurHelper| !#[trigger] installed(other),
        },
{
    reveal_with_fuel(search_result, 6);
}

/// The helper that is used depends on what is installed alone: paru if there is one, else yay, else
/// pikaur, else trizen, else none.
pub proof fn helpers_are_preferred_in_order(installed: spec_fn(AurHelper) -> bool)
    ensures
        ({
            let found = search_result(AurSearch::Ask(AurHelper::Paru), installed);
            &&& installed(AurHelper::Paru) ==> found == Some(AurHelper::Paru)
            &&& !installed(AurHelper::Paru) && installed(AurHelper::Yay) ==> found == Some(
                AurHelper::Yay,
            )
            &&& !installed(AurHelper::Paru) && !installed(AurHelper::Yay) && installed(
                AurHelper::Pikaur,
            ) ==> found == Some(AurHelper::Pikaur)
            &&& !installed(AurHelper::Paru) && !installed(AurHelper::Yay) && !installed(
                AurHelper::Pikaur,
            ) && installed(AurHelper::Trizen) ==> found == Some(AurHelper::Trizen)
            &&& !installed(AurHelper::Paru) && !installed(AurHelper::Yay) && !installed(
                AurHelper::Pikaur,
            ) && !installed(AurHelper::Trizen) ==> found is None
        }),
{
    reveal_with_fuel(search_result, 6);
}

} // verus!
