use vstd::prelude::*;

use vstd::seq_lib::lemma_flatten_concat;

use crate::config::Config;
use crate::config::TeamMember;
use crate::config::co_authored_by_line;

verus! {

/// What one resolved member adds to the message: nothing for the committer,
/// a newline and the attribution line for anybody else.
pub open spec fn trailer_of(m: TeamMember, me: Seq<char>) -> Seq<char> {
    if m.short@ == me {
        Seq::empty()
    } else {
        "\n"@ + co_authored_by_line(m.name@, m.email@)
    }
}

/// The trailer block for the resolved members, in resolution order.
pub open spec fn trailer_block(ps: Seq<TeamMember>, me: Seq<char>) -> Seq<char>
    decreases ps.len(),
{
    if ps.len() == 0 {
        Seq::empty()
    } else {
        trailer_of(ps[0], me) + trailer_block(ps.drop_first(), me)
    }
}

/// The rebuilt commit message: the original, one newline, then the trailer
/// block. The original message itself is never altered.
pub open spec fn build_msg_spec(old_msg: Seq<char>, ps: Seq<TeamMember>, me: Seq<char>) -> Seq<
    char,
> {
    old_msg + "\n"@ + trailer_block(ps, me)
}

/// One more member extends the trailer block at its end.
proof fn lemma_trailer_block_push(ps: Seq<TeamMember>, me: Seq<char>, m: TeamMember)
    ensures
        trailer_block(ps.push(m), me) == trailer_block(ps, me) + trailer_of(m, me),
    decreases ps.len(),
{
    if ps.len() == 0 {
        assert(ps.push(m)[0] == m);
        assert(ps.push(m).drop_first() =~= Seq::<TeamMember>::empty());
        assert(trailer_block(ps.push(m).drop_first(), me) == Seq::<char>::empty());
        assert(trailer_block(ps.push(m), me) == trailer_of(m, me) + Seq::<char>::empty());
        assert(trailer_block(ps, me) == Seq::<char>::empty());
        assert(trailer_of(m, me) + Seq::<char>::empty() =~= trailer_of(m, me));
        assert(trailer_block(ps, me) + trailer_of(m, me) =~= trailer_of(m, me));
    } else {
        lemma_trailer_block_push(ps.drop_first(), me, m);
        assert(ps.push(m)[0] == ps[0]);
        assert(ps.push(m).drop_first() =~= ps.drop_first().push(m));
        assert(trailer_block(ps.push(m), me) == trailer_of(ps[0], me) + trailer_block(
            ps.drop_first().push(m),
            me,
        ));
        assert(trailer_block(ps, me) == trailer_of(ps[0], me) + trailer_block(
            ps.drop_first(),
            me,
        ));
        assert(trailer_of(ps[0], me) + (trailer_block(ps.drop_first(), me) + trailer_of(m, me))
            =~= (trailer_of(ps[0], me) + trailer_block(ps.drop_first(), me)) + trailer_of(m, me));
    }
}

/// The trailer block is exactly the attribution lines of the non-committer
/// members, kept in their resolution order: an entry with the committer's
/// short code contributes nothing, wherever in the list it stands, and no
/// other entry is dropped or reordered.
pub proof fn lemma_trailer_block_filter(ps: Seq<TeamMember>, me: Seq<char>)
    ensures
        trailer_block(ps, me) == ps.filter(|m: TeamMember| m.short@ != me).map_values(
            (|m: TeamMember| "\n"@ + co_authored_by_line(m.name@, m.email@)),
        ).flatten(),
    decreases ps.len(),
{
    reveal(Seq::filter);
    let pred = |m: TeamMember| m.short@ != me;
    let line = |m: TeamMember| "\n"@ + co_authored_by_line(m.name@, m.email@);
    if ps.len() == 0 {
        assert(ps.filter(pred) =~= Seq::<TeamMember>::empty());
        assert(ps.filter(pred).map_values(line) =~= Seq::<Seq<char>>::empty());
    } else {
        let rest = ps.drop_first();
        lemma_trailer_block_filter(rest, me);
        assert(ps =~= seq![ps[0]] + rest);
        rest.lemma_filter_prepend(ps[0], pred);
        if pred(ps[0]) {
            assert(ps.filter(pred) == seq![ps[0]] + rest.filter(pred));
            assert(ps.filter(pred).map_values(line) =~= seq![line(ps[0])] + rest.filter(
                pred,
            ).map_values(line));
            lemma_flatten_concat(seq![line(ps[0])], rest.filter(pred).map_values(line));
            seq![line(ps[0])].lemma_flatten_one_element();
            assert(ps.filter(pred).map_values(line).flatten() == line(ps[0]) + rest.filter(
                pred,
            ).map_values(line).flatten());
        } else {
            assert(ps.filter(pred) == Seq::<TeamMember>::empty() + rest.filter(pred));
            assert(ps.filter(pred) =~= rest.filter(pred));
            assert(trailer_block(ps, me) =~= trailer_block(rest, me));
        }
    }
}

/// A trailer block over members who are all the committer is empty.
proof fn lemma_trailer_block_all_me(ps: Seq<TeamMember>, me: Seq<char>)
    requires
        forall|i: int| 0 <= i < ps.len() ==> ps[i].short@ == me,
    ensures
        trailer_block(ps, me) == Seq::<char>::empty(),
    decreases ps.len(),
{
    if ps.len() > 0 {
        lemma_trailer_block_all_me(ps.drop_first(), me);
        assert(Seq::<char>::empty() + Seq::<char>::empty() =~= Seq::<char>::empty());
    }
}

/// When every resolved member is the committer, nothing is appended: the
/// output is exactly the original message and a single newline.
pub proof fn lemma_only_committer_round_trip(old_msg: Seq<char>, ps: Seq<TeamMember>, me: Seq<char>)
    requires
        forall|i: int| 0 <= i < ps.len() ==> ps[i].short@ == me,
    ensures
        build_msg_spec(old_msg, ps, me) == old_msg + "\n"@,
{
    lemma_trailer_block_all_me(ps, me);
    assert(old_msg + "\n"@ + Seq::<char>::empty() =~= old_msg + "\n"@);
}

/// Composes the final commit message: the original message, a newline, then
/// one `Co-authored-by` line per resolved member other than the committer, in
/// resolution order, each preceded by a newline. The message body is never
/// altered, whatever `config.drop_shorts` says: removing the matched text is
/// left unimplemented on purpose, so both settings produce the same output.
#[allow(unused_variables)]
pub fn build_msg(old_msg: &str, extracted: &str, ps: Vec<TeamMember>, config: &Config) -> (r:
    String)
    ensures
        r@ == build_msg_spec(old_msg@, ps@, config.me@),
{
    let mut message = old_msg.to_owned();
    message.append("\n");
    proof {
        assert(ps@.take(0) =~= Seq::<TeamMember>::empty());
        assert(message@ =~= build_msg_spec(old_msg@, ps@.take(0), config.me@));
    }
    let end = ps.len();
    let mut i: usize = 0;
    while i < end
        invariant
            i <= end,
            end == ps@.len(),
            message@ == build_msg_spec(old_msg@, ps@.take(i as int), config.me@),
        decreases end - i,
    {
        proof {
            lemma_trailer_block_push(ps@.take(i as int), config.me@, ps@[i as int]);
            assert(ps@.take(i as int).push(ps@[i as int]) =~= ps@.take(i as int + 1));
        }
        if ps[i].short != config.me {
            message.append("\n");
            let trailer = TeamMember::co_authored_by(&ps[i]);
            message.append(trailer.as_str());
        }
        proof {
            assert(message@ =~= build_msg_spec(old_msg@, ps@.take(i as int + 1), config.me@));
        }
        i += 1;
    }
    proof {
        assert(ps@.take(end as int) =~= ps@);
    }
    message
}

} // verus!
