//! What the consumer concludes from the state of the installation that it
//! found: whether the installed copy is settled, which branch and platform it
//! is, and which signed-in user it belongs to.

use vstd::prelude::*;
use vstd::string::*;
use crate::text::chars_of;

verus! {

/// The state flags of an application that is fully installed.
pub const FULLY_INSTALLED: u32 = 4;

/// The branch of an installation that is on no beta.
pub const DEFAULT_BRANCH: &'static str = "public";

/// The platform whose files a copy run through a compatibility layer needs.
pub const MASKED_PLATFORM: &'static str = "windows";

/// What marks a compatibility tool as such a layer, in lower case.
pub const COMPATIBILITY_LAYER: &'static str = "proton";

/// The launch option that switches the embedded browser off.
pub const NO_BROWSER_OPTION: &'static str = "-nochromium";

/// What the platform's client records of the installed copy.
#[derive(Clone, Copy, Debug, PartialEq, Eq, Structural)]
pub struct AppState {
    pub state_flags: u32,
    pub scheduled_auto_update: bool,
    pub full_validate_before_next_update: bool,
    pub bytes_downloaded: u64,
    pub bytes_to_download: u64,
    pub bytes_staged: u64,
    pub bytes_to_stage: u64,
}

impl AppState {
    /// Whether the copy is settled: fully installed, with no update or
    /// validation ahead and nothing left to download or to stage.
    pub open spec fn settled(self) -> bool {
        &&& self.state_flags == FULLY_INSTALLED
        &&& !self.scheduled_auto_update
        &&& !self.full_validate_before_next_update
        &&& self.bytes_downloaded == self.bytes_to_download
        &&& self.bytes_staged == self.bytes_to_stage
    }

    /// Whether the copy is settled. Only a settled copy is patched.
    pub fn is_ready(&self) -> (ready: bool)
        ensures
            ready == self.settled(),
    {
        self.state_flags == FULLY_INSTALLED && !self.scheduled_auto_update
            && !self.full_validate_before_next_update && self.bytes_downloaded
            == self.bytes_to_download && self.bytes_staged == self.bytes_to_stage
    }
}

/// The branch of an installation: the beta it is on, or the default branch.
pub fn branch_of(beta: Option<String>) -> (branch: String)
    ensures
        branch@ == match beta {
            Some(key) => key@,
            None => DEFAULT_BRANCH@,
        },
{
    match beta {
        Some(key) => key,
        None => String::from_str(DEFAULT_BRANCH),
    }
}

/// Whether `needle` occurs in `haystack` at the index `at`.
pub open spec fn occurs_at(haystack: Seq<char>, needle: Seq<char>, at: int) -> bool {
    0 <= at && at + needle.len() <= haystack.len() && haystack.subrange(at, at + needle.len())
        == needle
}

/// Whether `needle` occurs somewhere in `haystack`.
pub open spec fn occurs_in(haystack: Seq<char>, needle: Seq<char>) -> bool {
    exists|at: int| occurs_at(haystack, needle, at)
}

/// Whether `needle` occurs in `haystack` at the index `at`.
fn matches_at(haystack: &Vec<char>, needle: &Vec<char>, at: usize) -> (r: bool)
    requires
        at + needle.len() <= haystack.len(),
    ensures
        r == occurs_at(haystack@, needle@, at as int),
{
    let mut k: usize = 0;
    while k < needle.len()
        invariant
            k <= needle.len(),
            at + needle.len() <= haystack.len(),
            haystack@.subrange(at as int, at + k) == needle@.subrange(0, k as int),
        decreases needle.len() - k,
    {
        if haystack[at + k] != needle[k] {
            proof {
                let window = haystack@.subrange(at as int, at + needle.len());
                assert(window[k as int] != needle@[k as int]);
            }
            return false;
        }
        proof {
            assert(haystack@.subrange(at as int, at + k + 1) =~= haystack@.subrange(
                at as int,
                at + k,
            ).push(haystack@[at + k]));
            assert(needle@.subrange(0, k + 1) =~= needle@.subrange(0, k as int).push(
                needle@[k as int],
            ));
        }
        k = k + 1;
    }
    proof {
        assert(needle@.subrange(0, k as int) =~= needle@);
    }
    true
}

/// Whether `needle` occurs somewhere in `haystack`.
pub fn contains_text(haystack: &str, needle: &str) -> (r: bool)
    ensures
        r == occurs_in(haystack@, needle@),
{
    let hay = chars_of(haystack);
    let pin = chars_of(needle);
    if pin.len() == 0 {
        proof {
            assert(haystack@.subrange(0, 0) =~= needle@);
            assert(occurs_at(haystack@, needle@, 0));
        }
        return true;
    }
    if pin.len() > hay.len() {
        return false;
    }
    let last: usize = hay.len() - pin.len();
    let mut at: usize = 0;
    while at <= last
        invariant
            at <= last + 1,
            pin.len() > 0,
            last + pin.len() == hay.len(),
            hay@ == haystack@,
            pin@ == needle@,
            forall|j: int| 0 <= j < at ==> !occurs_at(haystack@, needle@, j),
        decreases last + 1 - at,
    {
        if matches_at(&hay, &pin, at) {
            return true;
        }
        at = at + 1;
    }
    false
}

/// The platform whose files an installation needs: its own, unless it runs
/// through a compatibility layer, which needs those of the masked platform.
/// The tool's name is taken in lower case.
pub fn target_platform(platform: &str, compatibility_tool: Option<&str>) -> (target: String)
    ensures
        target@ == match compatibility_tool {
            Some(tool) => if occurs_in(tool@, COMPATIBILITY_LAYER@) {
                MASKED_PLATFORM@
            } else {
                platform@
            },
            None => platform@,
        },
{
    match compatibility_tool {
        Some(tool) => {
            if contains_text(tool, COMPATIBILITY_LAYER) {
                String::from_str(MASKED_PLATFORM)
            } else {
                String::from_str(platform)
            }
        },
        None => String::from_str(platform),
    }
}

/// Whether the launch options switch the embedded browser off, in which case
/// patching it is of no use and the user is warned.
pub fn disables_browser(launch_options: &str) -> (r: bool)
    ensures
        r == occurs_in(launch_options@, NO_BROWSER_OPTION@),
{
    contains_text(launch_options, NO_BROWSER_OPTION)
}

/// What the client records of a user who has signed in.
#[derive(Clone, Copy, Debug, PartialEq, Eq, Structural)]
pub struct LoginUser {
    /// Whether the client marks the user as the most recent one.
    pub most_recent: bool,
    /// When the user last signed in.
    pub timestamp: u64,
}

/// The user that the installation belongs to, as an index into `users`:
/// going through the users in the order given, a user takes the place of the
/// one chosen so far if the client marks it as most recent or it signed in
/// later.
pub open spec fn chosen_user(users: Seq<LoginUser>) -> Option<int>
    decreases users.len(),
{
    if users.len() == 0 {
        None
    } else {
        match chosen_user(users.drop_last()) {
            None => Some(users.len() - 1),
            Some(held) => if users.last().most_recent || users.last().timestamp
                > users[held].timestamp {
                Some(users.len() - 1)
            } else {
                Some(held)
            },
        }
    }
}

/// What `chosen_user` gives is an index into the users.
pub proof fn lemma_chosen_user_in_range(users: Seq<LoginUser>)
    ensures
        match chosen_user(users) {
            Some(i) => 0 <= i < users.len(),
            None => users.len() == 0,
        },
    decreases users.len(),
{
    if users.len() > 0 {
        lemma_chosen_user_in_range(users.drop_last());
    }
}

/// Chooses the user that the installation belongs to.
pub fn pick_user(users: &Vec<LoginUser>) -> (picked: Option<usize>)
    ensures
        match picked {
            Some(i) => chosen_user(users@) == Some(i as int) && i < users.len(),
            None => chosen_user(users@) is None && users.len() == 0,
        },
{
    let mut picked: Option<usize> = None;
    let mut i: usize = 0;
    proof {
        assert(users@.subrange(0, 0) =~= Seq::<LoginUser>::empty());
    }
    while i < users.len()
        invariant
            i <= users.len(),
            match picked {
                Some(held) => chosen_user(users@.subrange(0, i as int)) == Some(held as int) && held
                    < i,
                None => chosen_user(users@.subrange(0, i as int)) is None && i == 0,
            },
        decreases users.len() - i,
    {
        proof {
            assert(users@.subrange(0, i + 1).drop_last() =~= users@.subrange(0, i as int));
            assert(users@.subrange(0, i + 1).last() == users@[i as int]);
        }
        let user = users[i];
        picked = match picked {
            None => Some(i),
            Some(held) => {
                assert(users@.subrange(0, i + 1)[held as int] == users@[held as int]);
                if user.most_recent || user.timestamp > users[held].timestamp {
                    Some(i)
                } else {
                    Some(held)
                }
            },
        };
        i = i + 1;
    }
    proof {
        assert(users@.subrange(0, i as int) =~= users@);
    }
    picked
}

} // verus!
