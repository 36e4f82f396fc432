use vstd::prelude::*;

use crate::plan::{relocated, GroomingPlan, PlanError, plan_error_text};
use crate::text::{append, owned, text_eq, trim_by, ws_sep, chars_of};

verus! {

/// A destination root that was found to be an existing directory, by its resolved path.
#[derive(Clone, Debug, PartialEq, Eq)]
pub struct DestinationRoot {
    path: String,
}

/// Why a destination cannot be used.
#[derive(Debug)]
pub enum DestinationError {
    Empty,
    HomeUnavailable,
    CurrentDirectory(String),
    Unavailable { path: String, message: String },
    NotDirectory(String),
    Collision(String),
    CollisionCheck { path: String, message: String },
    InvalidPlan(PlanError),
}

pub open spec fn destination_error_text(e: DestinationError) -> Seq<char> {
    match e {
        DestinationError::Empty => "enter an existing destination directory"@,
        DestinationError::HomeUnavailable => "cannot expand ~ because the home directory is unavailable"@,
        DestinationError::CurrentDirectory(m) => "cannot resolve a relative destination: "@ + m@,
        DestinationError::Unavailable { path, message } => path@ + " is not available: "@ + message@,
        DestinationError::NotDirectory(path) => path@ + " is not a directory"@,
        DestinationError::Collision(path) => "the final release path already exists: "@ + path@
            + ". v0.1 cannot yet complete or rebuild an existing release piece by piece"@,
        DestinationError::CollisionCheck { path, message } => "cannot check the final release path "@ + path@ + ": "@
            + message@,
        DestinationError::InvalidPlan(error) => "cannot relocate this plan: "@ + plan_error_text(error),
    }
}

impl DestinationError {
    /// The message shown for this error.
    pub fn describe(&self) -> (r: String)
        ensures
            r@ == destination_error_text(*self),
    {
        match self {
            DestinationError::Empty => owned("enter an existing destination directory"),
            DestinationError::HomeUnavailable => owned("cannot expand ~ because the home directory is unavailable"),
            DestinationError::CurrentDirectory(m) => {
                let mut out = owned("cannot resolve a relative destination: ");
                append(&mut out, m.as_str());
                out
            },
            DestinationError::Unavailable { path, message } => {
                let mut out = path.clone();
                append(&mut out, " is not available: ");
                append(&mut out, message.as_str());
                out
            },
            DestinationError::NotDirectory(path) => {
                let mut out = path.clone();
                append(&mut out, " is not a directory");
                out
            },
            DestinationError::Collision(path) => {
                let mut out = owned("the final release path already exists: ");
                append(&mut out, path.as_str());
                append(&mut out, ". v0.1 cannot yet complete or rebuild an existing release piece by piece");
                out
            },
            DestinationError::CollisionCheck { path, message } => {
                let mut out = owned("cannot check the final release path ");
                append(&mut out, path.as_str());
                append(&mut out, ": ");
                append(&mut out, message.as_str());
                out
            },
            DestinationError::InvalidPlan(error) => {
                let mut out = owned("cannot relocate this plan: ");
                let inner = error.describe();
                append(&mut out, inner.as_str());
                out
            },
        }
    }
}

/// `PathBuf::push`: an absolute `rest` replaces `base`; otherwise `rest` follows
/// `base`, with a `/` between them unless `base` is empty or already ends in one.
pub open spec fn path_push(base: Seq<char>, rest: Seq<char>) -> Seq<char> {
    crate::paths::pushed(base, rest)
}

/// The home directory: the `HOME` value unless it is empty, else the platform's.
pub open spec fn home_directory(home_environment: Option<Seq<char>>, platform_home: Option<Seq<char>>) -> Option<Seq<char>> {
    match home_environment {
        Some(h) => if h.len() > 0 { Some(h) } else { platform_home },
        None => platform_home,
    }
}

/// `~` and `~/...` name the home directory; any other text is a path as it stands.
pub open spec fn expanded_home(input: Seq<char>, home_environment: Option<Seq<char>>, platform_home: Option<Seq<char>>) -> Option<Seq<char>> {
    let home = home_directory(home_environment, platform_home);
    if input == "~"@ {
        home
    } else if input.len() >= 2 && input[0] == '~' && input[1] == '/' {
        match home {
            Some(h) => Some(path_push(h, input.skip(2))),
            None => None,
        }
    } else {
        Some(input)
    }
}

/// Places `rest` after `base` as `PathBuf::push` does.
pub fn push_path(base: &str, rest: &str) -> (r: String)
    ensures
        r@ == path_push(base@, rest@),
{
    crate::paths::pushed_path(base, rest)
}

/// Expands a leading `~` of `input` to the home directory.
pub fn expand_home_with(input: &str, home_environment: Option<String>, platform_home: Option<String>) -> (r: Result<String, DestinationError>)
    ensures
        match expanded_home(input@, home_environment.deep_view(), platform_home.deep_view()) {
            Some(p) => r matches Ok(q) && q@ == p,
            None => r matches Err(DestinationError::HomeUnavailable),
        },
{
    let home = match home_environment {
        Some(h) => if h.unicode_len() > 0 { Some(h) } else { platform_home },
        None => platform_home,
    };
    proof {
        reveal_strlit("~");
    }
    if text_eq(input, "~") {
        return match home {
            Some(h) => Ok(h),
            None => Err(DestinationError::HomeUnavailable),
        };
    }
    let chars = chars_of(input);
    if chars.len() >= 2 && chars[0] == '~' && chars[1] == '/' {
        let mut rest: Vec<char> = Vec::new();
        let mut i: usize = 2;
        while i < chars.len()
            invariant
                2 <= i <= chars@.len(),
                chars@ == input@,
                rest@ == input@.subrange(2, i as int),
            decreases chars@.len() - i,
        {
            rest.push(chars[i]);
            i = i + 1;
            assert(rest@ =~= input@.subrange(2, i as int));
        }
        assert(rest@ =~= input@.skip(2));
        let rest = crate::text::from_chars(&rest);
        return match home {
            Some(h) => Ok(push_path(h.as_str(), rest.as_str())),
            None => Err(DestinationError::HomeUnavailable),
        };
    }
    Ok(owned(input))
}

/// What the user typed for a destination, trimmed and with `~` expanded; empty input
/// is refused.  The result still has to be resolved against the file system.
pub fn destination_input(input: &str, home_environment: Option<String>, platform_home: Option<String>) -> (r: Result<String, DestinationError>)
    ensures
        trim_by(input@, ws_sep()).len() == 0 ==> r matches Err(DestinationError::Empty),
        trim_by(input@, ws_sep()).len() > 0 ==> match expanded_home(trim_by(input@, ws_sep()), home_environment.deep_view(), platform_home.deep_view()) {
            Some(p) => r matches Ok(q) && q@ == p,
            None => r matches Err(DestinationError::HomeUnavailable),
        },
{
    let trimmed = crate::text::trim_whitespace(input);
    if trimmed.unicode_len() == 0 {
        return Err(DestinationError::Empty);
    }
    expand_home_with(trimmed.as_str(), home_environment, platform_home)
}

impl DestinationRoot {
    /// A destination root at a path already resolved to an existing directory.
    pub fn resolved(path: String) -> (r: Self)
        ensures
            r.path_view() == path@,
    {
        DestinationRoot { path }
    }

    pub closed spec fn path_view(&self) -> Seq<char> {
        self.path@
    }

    /// The resolved directory.
    pub fn path(&self) -> (r: &str)
        ensures
            r@ == self.path_view(),
    {
        self.path.as_str()
    }

    /// The plan moved under this root, keeping its relative layout; whether the
    /// moved release directory already exists is for the caller to check.
    pub fn relocate_plan(&self, plan: GroomingPlan) -> (r: Result<GroomingPlan, DestinationError>)
        ensures
            match r {
                Ok(p) => relocated(plan, self.path_view(), Ok(p)),
                Err(DestinationError::InvalidPlan(e)) => relocated(plan, self.path_view(), Err(e)),
                Err(_) => false,
            },
    {
        match plan.with_destination_root(self.path.clone()) {
            Ok(p) => Ok(p),
            Err(e) => Err(DestinationError::InvalidPlan(e)),
        }
    }
}

/// The outcome of relocating once the file system says whether the release
/// directory exists: an existing one is a collision, a failed check an error.
pub fn collision_outcome(relocated_plan: GroomingPlan, found: Result<bool, String>) -> (r: Result<GroomingPlan, DestinationError>)
    ensures
        match found {
            Ok(false) => r == Ok::<GroomingPlan, DestinationError>(relocated_plan),
            Ok(true) => r matches Err(DestinationError::Collision(p)) && p@ == relocated_plan.destination@,
            Err(m) => r matches Err(DestinationError::CollisionCheck { path, message }) && path@ == relocated_plan.destination@
                && message@ == m@,
        },
{
    match found {
        Ok(false) => Ok(relocated_plan),
        Ok(true) => Err(DestinationError::Collision(relocated_plan.destination)),
        Err(message) => Err(DestinationError::CollisionCheck { path: relocated_plan.destination, message }),
    }
}

} // verus!
