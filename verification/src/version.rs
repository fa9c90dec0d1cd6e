//! The version line.

use vstd::prelude::*;

use crate::text::{cat4, cat5};

verus! {

/// The version line for a release, the revision it was built from with a
/// mark for a changed tree, and the date of that revision. Without a
/// revision it is the release alone.
pub open spec fn version_line(
    semver: Seq<char>,
    sha: Seq<char>,
    dirty: Seq<char>,
    date: Seq<char>,
) -> Seq<char> {
    if sha.len() == 0 {
        semver
    } else if date.len() == 0 {
        semver + " ("@ + sha + dirty + ")"@
    } else {
        semver + " ("@ + sha + dirty + ", "@ + date + ")"@
    }
}

pub fn compose_long_version(semver: &str, sha: &str, dirty: &str, date: &str) -> (r: String)
    ensures
        r@ == version_line(semver@, sha@, dirty@, date@),
{
    if sha.is_empty() {
        return String::from_str(semver);
    }
    if date.is_empty() {
        cat5(semver, " (", sha, dirty, ")")
    } else {
        let mut out = cat4(semver, " (", sha, dirty);
        out.append(", ");
        out.append(date);
        out.append(")");
        out
    }
}

pub open spec fn text_or_nothing(o: Option<&str>) -> Seq<char> {
    match o {
        Some(s) => s@,
        None => Seq::empty(),
    }
}

/// The version line from what is known of the build.
pub fn long_version(
    semver: &str,
    sha: Option<&str>,
    dirty: Option<&str>,
    date: Option<&str>,
) -> (r: String)
    ensures
        r@ == version_line(
            semver@,
            text_or_nothing(sha),
            text_or_nothing(dirty),
            text_or_nothing(date),
        ),
{
    proof {
        reveal_strlit("");
        assert(""@ =~= Seq::<char>::empty());
    }
    let sha = match sha {
        Some(s) => s,
        None => "",
    };
    let dirty = match dirty {
        Some(s) => s,
        None => "",
    };
    let date = match date {
        Some(s) => s,
        None => "",
    };
    compose_long_version(semver, sha, dirty, date)
}

/// The version line begins with the release; behind it, in brackets, stand
/// the revision with its mark and the date, as far as they are known.
pub proof fn law_versions_name_their_revision(
    semver: Seq<char>,
    sha: Seq<char>,
    dirty: Seq<char>,
    date: Seq<char>,
)
    ensures
        sha.len() == 0 ==> version_line(semver, sha, dirty, date) == semver,
        sha.len() > 0 && date.len() == 0 ==> version_line(semver, sha, dirty, date) == semver
            + " ("@ + sha + dirty + ")"@,
        sha.len() > 0 && date.len() > 0 ==> version_line(semver, sha, dirty, date) == semver
            + " ("@ + sha + dirty + ", "@ + date + ")"@,
{
}

} // verus!
