use vstd::prelude::*;

verus! {

/// One entry of the team roster. Identity is the `short` code; `name` and
/// `email` are what the attribution line is rendered from.
#[derive(Debug, PartialEq, Clone)]
pub struct TeamMember {
    pub short: String,
    pub name: String,
    pub email: String,
}

/// The attribution line for a member with the given name and email.
pub open spec fn co_authored_by_line(name: Seq<char>, email: Seq<char>) -> Seq<char> {
    "Co-authored-by: "@ + name + " <"@ + email + ">"@
}

impl TeamMember {
    /// Renders the trailer line `Co-authored-by: {name} <{email}>`.
    pub fn co_authored_by(p: &TeamMember) -> (r: String)
        ensures
            r@ == co_authored_by_line(p.name@, p.email@),
    {
        let mut line = "Co-authored-by: ".to_owned();
        line.append(p.name.as_str());
        line.append(" <");
        line.append(p.email.as_str());
        line.append(">");
        line
    }
}

/// The configuration a single run works from, loaded once and read-only
/// thereafter. `me` is the committer's own short code; a `me` without a
/// roster entry simply means nobody is excluded from the trailers.
/// `drop_shorts` deliberately never changes the output: removing the matched
/// codes from the visible message is left unimplemented on purpose, and the
/// flag exists only so configurations naming it keep loading.
#[derive(Debug, PartialEq)]
pub struct Config {
    pub regex: String,
    pub separator: String,
    pub drop_shorts: bool,
    pub me: String,
    pub team: Vec<TeamMember>,
}

} // verus!
