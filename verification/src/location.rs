//! Where the databases of exceptions stand.

use crate::error::{labelled, BufferError, BufferErrorView, BufferResult};
use crate::text::texts;
use vstd::prelude::*;
use vstd::string::*;

verus! {

/// The kinds of systems that keep their data in different places.
#[derive(Debug, Clone, Copy, PartialEq, Eq, Structural)]
pub enum Platform {
    /// Windows, where data stands below the directory of application data.
    Windows,
    /// Any other, where data stands below the home directory.
    Unix,
}

/// Where the directory of the databases stands.
#[derive(Debug)]
pub enum DirPlan {
    /// Where the environment says.
    AsConfigured,
    /// Below the base directory of the platform, by these names.
    BelowBase(Vec<String>),
}

/// The names that lead from the base directory to that of the databases.
pub open spec fn dir_names(platform: Platform) -> Seq<Seq<char>> {
    match platform {
        Platform::Windows => seq!["tokenfleet-ai"@, "exceptions"@],
        Platform::Unix => seq![".tokenfleet-ai"@, "exceptions"@],
    }
}

/// Why there is no directory where there is no base directory.
pub open spec fn no_base_text(platform: Platform) -> Seq<char> {
    match platform {
        Platform::Windows => "cannot determine APPDATA directory"@,
        Platform::Unix => "cannot determine home directory"@,
    }
}

/// Where the directory of the databases stands: where the environment says, if
/// it does, or below the base directory of the platform, if there is one.
pub fn exceptions_dir(configured: bool, platform: Platform, has_base: bool) -> (res: BufferResult<
    DirPlan,
>)
    ensures
        if configured {
            res == Ok::<DirPlan, BufferError>(DirPlan::AsConfigured)
        } else if has_base {
            res matches Ok(DirPlan::BelowBase(names)) && texts(names@) == dir_names(platform)
        } else {
            res matches Err(e) && e@ == BufferErrorView::Poisoned(no_base_text(platform))
        },
{
    if configured {
        return Ok(DirPlan::AsConfigured);
    }
    if !has_base {
        let reason = match platform {
            Platform::Windows => String::from_str("cannot determine APPDATA directory"),
            Platform::Unix => String::from_str("cannot determine home directory"),
        };
        return Err(BufferError::Poisoned(reason));
    }
    let mut names: Vec<String> = Vec::new();
    match platform {
        Platform::Windows => names.push(String::from_str("tokenfleet-ai")),
        Platform::Unix => names.push(String::from_str(".tokenfleet-ai")),
    }
    names.push(String::from_str("exceptions"));
    assert(texts(names@) == dir_names(platform));
    Ok(DirPlan::BelowBase(names))
}

/// Why a directory could not be made.
pub open spec fn not_made_text(plan: DirPlan, dir: Seq<char>, message: Seq<char>) -> Seq<char> {
    match plan {
        DirPlan::AsConfigured => "cannot create exceptions dir "@ + dir + ": "@ + message,
        DirPlan::BelowBase(_) => "cannot create exception buffer directory "@ + dir + ": "@ + message,
    }
}

/// The error of a directory that could not be made.
pub fn not_made(plan: &DirPlan, dir: &str, message: &str) -> (res: BufferError)
    ensures
        res@ == BufferErrorView::Poisoned(not_made_text(*plan, dir@, message@)),
{
    let mut reason = match plan {
        DirPlan::AsConfigured => labelled("cannot create exceptions dir ", dir),
        DirPlan::BelowBase(_) => labelled("cannot create exception buffer directory ", dir),
    };
    reason.append(": ");
    reason.append(message);
    BufferError::Poisoned(reason)
}

/// The name of the database of a component.
pub fn database_name(component: &str) -> (res: String)
    ensures
        res@ == component@ + ".db"@,
{
    labelled(component, ".db")
}

/// The databases stand in a directory of their own below that of the product,
/// which is hidden only where names that start with a point are.
pub proof fn law_databases_stand_in_a_directory_of_their_own(platform: Platform)
    ensures
        dir_names(platform).len() == 2,
        dir_names(platform).last() == "exceptions"@,
        dir_names(platform)[0] == if platform == Platform::Windows {
            "tokenfleet-ai"@
        } else {
            "."@ + "tokenfleet-ai"@
        },
{
    reveal_strlit("tokenfleet-ai");
    reveal_strlit(".tokenfleet-ai");
    reveal_strlit(".");
    assert(".tokenfleet-ai"@ == "."@ + "tokenfleet-ai"@);
}

/// The error of a directory that could not be made names the directory and ends
/// in what the system said.
pub proof fn law_the_error_names_the_directory(
    plan: DirPlan,
    dir: Seq<char>,
    message: Seq<char>,
    other_dir: Seq<char>,
    other_message: Seq<char>,
)
    ensures
        exists|label: Seq<char>|
            not_made_text(plan, dir, message) == #[trigger] (label + dir) + ": "@ + message
                && not_made_text(plan, other_dir, other_message) == label + other_dir + ": "@
                + other_message,
{
    let label = match plan {
        DirPlan::AsConfigured => "cannot create exceptions dir "@,
        DirPlan::BelowBase(_) => "cannot create exception buffer directory "@,
    };
    assert(not_made_text(plan, dir, message) == (label + dir) + ": "@ + message);
}

} // verus!
