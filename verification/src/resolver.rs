use vstd::prelude::*;

use crate::config::TeamMember;
use crate::errors::Error;
use crate::errors::unknown_member_message;
use crate::splitter::string_views;

verus! {

/// The first roster entry whose short code equals `short`: with duplicate
/// short codes in the roster, the first listed entry wins.
pub open spec fn find_member(team: Seq<TeamMember>, short: Seq<char>) -> Option<TeamMember>
    decreases team.len(),
{
    if team.len() == 0 {
        None
    } else if team[0].short@ == short {
        Some(team[0])
    } else {
        find_member(team.drop_first(), short)
    }
}

/// Resolves the short codes in order against the roster: the members for all
/// of them, one-to-one and duplicates allowed, or the first code that has no
/// roster entry. Resolution fails fast: nothing after the first unknown code
/// is looked at.
pub open spec fn resolve_spec(shorts: Seq<Seq<char>>, team: Seq<TeamMember>) -> Result<
    Seq<TeamMember>,
    Seq<char>,
>
    decreases shorts.len(),
{
    if shorts.len() == 0 {
        Ok(Seq::empty())
    } else {
        match find_member(team, shorts[0]) {
            None => Err(shorts[0]),
            Some(m) => match resolve_spec(shorts.drop_first(), team) {
                Ok(rest) => Ok(seq![m] + rest),
                Err(e) => Err(e),
            },
        }
    }
}

/// A found member carries the short code it was found for.
pub proof fn lemma_find_member_short(team: Seq<TeamMember>, short: Seq<char>)
    requires
        find_member(team, short) is Some,
    ensures
        find_member(team, short)->0.short@ == short,
    decreases team.len(),
{
    if team.len() > 0 && team[0].short@ != short {
        lemma_find_member_short(team.drop_first(), short);
    }
}

/// Appending one more short code resolves the prefix first, then the new
/// code: an earlier failure stands, a new unknown code fails with that code,
/// and otherwise its member is appended.
proof fn lemma_resolve_push(shorts: Seq<Seq<char>>, team: Seq<TeamMember>, x: Seq<char>)
    ensures
        resolve_spec(shorts, team) is Err ==> resolve_spec(shorts.push(x), team) == resolve_spec(
            shorts,
            team,
        ),
        resolve_spec(shorts, team) is Ok && find_member(team, x) is None ==> resolve_spec(
            shorts.push(x),
            team,
        ) == Err::<Seq<TeamMember>, Seq<char>>(x),
        resolve_spec(shorts, team) is Ok && find_member(team, x) is Some ==> resolve_spec(
            shorts.push(x),
            team,
        ) == Ok::<Seq<TeamMember>, Seq<char>>(
            resolve_spec(shorts, team)->Ok_0.push(find_member(team, x)->0),
        ),
    decreases shorts.len(),
{
    if shorts.len() == 0 {
        let pushed = shorts.push(x);
        assert(pushed[0] == x);
        assert(pushed.drop_first() =~= Seq::<Seq<char>>::empty());
        assert(resolve_spec(pushed.drop_first(), team) == Ok::<Seq<TeamMember>, Seq<char>>(
            Seq::<TeamMember>::empty(),
        ));
        if find_member(team, x) is Some {
            let m = find_member(team, x)->0;
            assert(seq![m] + Seq::<TeamMember>::empty() =~= Seq::<TeamMember>::empty().push(m));
            assert(resolve_spec(pushed, team) == Ok::<Seq<TeamMember>, Seq<char>>(
                Seq::<TeamMember>::empty().push(m),
            ));
        }
    } else {
        lemma_resolve_push(shorts.drop_first(), team, x);
        assert(shorts.push(x)[0] == shorts[0]);
        assert(shorts.push(x).drop_first() =~= shorts.drop_first().push(x));
        match find_member(team, shorts[0]) {
            None => {},
            Some(m) => {
                if resolve_spec(shorts, team) is Ok && find_member(team, x) is Some {
                    let rest = resolve_spec(shorts.drop_first(), team)->Ok_0;
                    let fx = find_member(team, x)->0;
                    assert(seq![m] + rest.push(fx) =~= (seq![m] + rest).push(fx));
                }
            },
        }
    }
}

/// A failure on a prefix of the codes is the failure on the whole list.
proof fn lemma_resolve_err_prefix(shorts: Seq<Seq<char>>, team: Seq<TeamMember>, j: int)
    requires
        0 <= j <= shorts.len(),
        resolve_spec(shorts.take(j), team) is Err,
    ensures
        resolve_spec(shorts, team) == resolve_spec(shorts.take(j), team),
    decreases shorts.len(),
{
    if j == 0 {
        assert(shorts.take(0) =~= Seq::<Seq<char>>::empty());
    } else {
        assert(shorts.take(j)[0] == shorts[0]);
        match find_member(team, shorts[0]) {
            None => {},
            Some(m) => {
                assert(shorts.take(j).drop_first() =~= shorts.drop_first().take(j - 1));
                lemma_resolve_err_prefix(shorts.drop_first(), team, j - 1);
            },
        }
    }
}

/// An unresolvable short code anywhere in the list aborts resolution with
/// exactly that code, even when every later code would have resolved.
pub proof fn lemma_unknown_member_aborts(shorts: Seq<Seq<char>>, team: Seq<TeamMember>, k: int)
    requires
        0 <= k < shorts.len(),
        find_member(team, shorts[k]) is None,
        forall|j: int| 0 <= j < k ==> find_member(team, shorts[j]) is Some,
    ensures
        resolve_spec(shorts, team) == Err::<Seq<TeamMember>, Seq<char>>(shorts[k]),
    decreases k,
{
    if k == 0 {
    } else {
        assert(find_member(team, shorts[0]) is Some);
        assert(forall|j: int|
            0 <= j < k - 1 ==> find_member(team, shorts.drop_first()[j]) is Some);
        lemma_unknown_member_aborts(shorts.drop_first(), team, k - 1);
    }
}

/// Resolution preserves the codes: on success there is one member per code,
/// in order, each carrying the code it resolved.
pub proof fn lemma_resolve_preserves_shorts(shorts: Seq<Seq<char>>, team: Seq<TeamMember>)
    requires
        resolve_spec(shorts, team) is Ok,
    ensures
        resolve_spec(shorts, team)->Ok_0.len() == shorts.len(),
        forall|i: int|
            0 <= i < shorts.len() ==> #[trigger] resolve_spec(shorts, team)->Ok_0[i].short@
                == shorts[i],
    decreases shorts.len(),
{
    if shorts.len() > 0 {
        lemma_find_member_short(team, shorts[0]);
        lemma_resolve_preserves_shorts(shorts.drop_first(), team);
    }
}

/// The first roster entry for `short`, as an owned copy.
fn find_member_exec(members: &Vec<TeamMember>, short: &String) -> (r: Option<TeamMember>)
    ensures
        match find_member(members@, short@) {
            Some(m) => r is Some && r->0 == m,
            None => r is None,
        },
{
    let n = members.len();
    proof {
        assert(members@.skip(0) =~= members@);
    }
    let mut j: usize = 0;
    while j < n
        invariant
            j <= n,
            n == members@.len(),
            find_member(members@, short@) == find_member(members@.skip(j as int), short@),
        decreases n - j,
    {
        if members[j].short == *short {
            let found = TeamMember {
                short: members[j].short.clone(),
                name: members[j].name.clone(),
                email: members[j].email.clone(),
            };
            proof {
                assert(members@.skip(j as int)[0] == members@[j as int]);
            }
            return Some(found);
        }
        proof {
            assert(members@.skip(j as int)[0] == members@[j as int]);
            assert(members@.skip(j as int).drop_first() =~= members@.skip(j as int + 1));
        }
        j += 1;
    }
    proof {
        assert(members@.skip(n as int) =~= Seq::<TeamMember>::empty());
    }
    None
}

/// Maps each short code, in order, to an owned copy of its roster entry,
/// failing on the first code with no entry and naming it.
pub fn shorts_to_members(shorts: Vec<String>, members: &Vec<TeamMember>) -> (r: Result<
    Vec<TeamMember>,
    Error,
>)
    ensures
        match resolve_spec(string_views(shorts@), members@) {
            Ok(ms) => r is Ok && r->Ok_0@ == ms,
            Err(short) => r is Err && r->Err_0.message@ == unknown_member_message(short),
        },
{
    let ghost svs = string_views(shorts@);
    let mut tm: Vec<TeamMember> = Vec::new();
    let end = shorts.len();
    let mut i: usize = 0;
    while i < end
        invariant
            i <= end,
            end == shorts@.len(),
            svs == string_views(shorts@),
            svs.len() == shorts@.len(),
            resolve_spec(svs.take(i as int), members@) is Ok,
            tm@ == resolve_spec(svs.take(i as int), members@)->Ok_0,
        decreases end - i,
    {
        proof {
            lemma_resolve_push(svs.take(i as int), members@, svs[i as int]);
            assert(svs.take(i as int).push(svs[i as int]) =~= svs.take(i as int + 1));
        }
        match find_member_exec(members, &shorts[i]) {
            Some(m) => {
                tm.push(m);
            },
            None => {
                proof {
                    lemma_resolve_err_prefix(svs, members@, i as int + 1);
                }
                return Err(Error::unknown_member(&shorts[i]));
            },
        }
        i += 1;
    }
    proof {
        assert(svs.take(end as int) =~= svs);
    }
    Ok(tm)
}

} // verus!
