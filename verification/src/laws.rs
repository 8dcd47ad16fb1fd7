//! The registry's standing guarantees, stated on their own so a reader
//! sees them without unfolding the invariant.

use vstd::prelude::*;

use crate::channels_models::IrcChannelOperationStatus;
use crate::server_state::{join_decision, key_matches, ServerState};
use crate::ClientId;

verus! {

/// A connection is a member of a channel exactly when that channel's name
/// stands in the session's channel list.
pub proof fn lemma_membership_mirrored(s: ServerState, nm: Seq<char>, id: ClientId)
    requires
        s.wf(),
        s.has_channel(nm),
        s.has_user(id),
    ensures
        s.spec_channel(nm).has_member(id) <==> s.spec_user(id).lists_channel(nm),
{
    let ci = s.channel_index(nm);
    let ui = s.user_index(id);
    if s.spec_channel(nm).has_member(id) {
        let mi = choose|mi: int|
            0 <= mi < s.channels@[ci].members@.len() && s.channels@[ci].members@[mi] == id;
        assert(s.spec_user(id).lists_channel(s.channels@[ci].name@));
    }
    if s.spec_user(id).lists_channel(nm) {
        let ni = choose|ni: int|
            0 <= ni < s.users@[ui].user.member_of@.len() && (
            #[trigger] s.users@[ui].user.member_of@[ni])@ == nm;
        assert(s.has_channel(nm) && s.spec_channel(nm).members@.contains(
            s.users@[ui].user.user_id,
        ));
    }
}

/// Every entry of the nickname index points at a registered session that
/// carries exactly that nickname.
pub proof fn lemma_nick_index_consistent(s: ServerState, k: int)
    requires
        s.wf(),
        0 <= k < s.nick@.len(),
    ensures
        s.has_user(s.nick@[k].1),
        s.spec_user(s.nick@[k].1).registered,
        (s.spec_user(s.nick@[k].1).nick matches Some(n) && n@ == s.nick@[k].0@),
{
    assert({
        let e = s.nick@[k];
        s.has_user(e.1) && s.spec_user(e.1).registered && (s.spec_user(e.1).nick matches Some(n)
            && n@ == e.0@)
    });
}

/// No channel stands empty: a channel whose last member leaves is
/// destroyed in the same step.
pub proof fn lemma_no_empty_channels(s: ServerState, nm: Seq<char>)
    requires
        s.wf(),
        s.has_channel(nm),
    ensures
        s.spec_channel(nm).members@.len() > 0,
{
    let ci = s.channel_index(nm);
    assert(s.channels@[ci].members@.len() > 0);
}

/// A second JOIN by a session that is already a member comes to
/// `AlreadyMember`, so the registry stands unchanged and no relay is
/// emitted; the admission checks must still pass, since a full channel
/// answers `ChannelIsFull` even to its own member.
pub proof fn lemma_second_join_is_noop(
    s: ServerState,
    nm: Seq<char>,
    id: ClientId,
    key: Option<String>,
    is_invited: bool,
)
    requires
        s.wf(),
        s.has_channel(nm),
        s.spec_channel(nm).has_member(id),
        !(s.spec_channel(nm).modes.user_limit matches Some(l) && s.spec_channel(
            nm,
        ).members@.len() >= l),
        !(s.spec_channel(nm).modes.ban_list@.contains(id) && !s.spec_channel(
            nm,
        ).modes.except_list@.contains(id)),
        !(s.spec_channel(nm).modes.invite_only && !is_invited && !s.spec_channel(
            nm,
        ).modes.invite_exceptions@.contains(id)),
        key_matches(s.spec_channel(nm).modes.key, key),
    ensures
        join_decision(s, nm, id, key, is_invited) == IrcChannelOperationStatus::AlreadyMember,
{
}

/// After a PART and a fresh JOIN, the rejoining member holds operator
/// privilege exactly when the channel had been destroyed in between and
/// the member recreated it; rejoining a surviving channel grants nothing.
/// `pre` is the registry before the join and `post` after it, relating as
/// a join that admitted the member relates them.
pub proof fn lemma_rejoin_operator(
    pre: ServerState,
    post: ServerState,
    nm: Seq<char>,
    id: ClientId,
)
    requires
        pre.wf(),
        post.wf(),
        post.has_channel(nm),
        !(pre.has_channel(nm) && pre.spec_channel(nm).members@.contains(id)),
        pre.has_channel(nm) ==> {
            &&& post.spec_channel(nm).members@ == pre.spec_channel(nm).members@.push(id)
            &&& post.spec_channel(nm).operators@ == pre.spec_channel(nm).operators@
        },
        !pre.has_channel(nm) ==> post.spec_channel(nm).operators@ == seq![id],
    ensures
        post.spec_channel(nm).has_operator(id) <==> !pre.has_channel(nm),
{
    if !pre.has_channel(nm) {
        assert(post.spec_channel(nm).operators@[0] == id);
        assert(post.spec_channel(nm).operators@.contains(id));
    } else {
        if post.spec_channel(nm).has_operator(id) {
            assert(pre.spec_channel(nm).operators@.contains(id));
            let ci = pre.channel_index(nm);
            let oi = choose|oi: int|
                0 <= oi < pre.channels@[ci].operators@.len() && pre.channels@[ci].operators@[oi]
                    == id;
            assert(pre.channels@[ci].members@.contains(id));
        }
    }
}

} // verus!
