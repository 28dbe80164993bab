//! Stored posts and users, and how a post is replayed to a new client.
use vstd::prelude::*;
use crate::format::{check_size, format_message, format_spec, size_spec, FormatError};
use crate::messages::{Msg, OrlyMessage, UserId};

verus! {

/// How many of the most recent posts a new client is sent.
pub const BACKLOG_LIMIT: usize = 100;

/// A person known to the store.
#[derive(Clone, Debug)]
pub struct User {
    pub id: UserId,
    pub name: String,
}

/// A stored message. `time` is in seconds since the Unix epoch.
#[derive(Clone, Debug)]
pub struct Post {
    pub id: u64,
    pub time: i64,
    pub view: String,
    pub user_id: u64,
    pub user_uuid: UserId,
    pub content: String,
}

/// What a post is replayed as: the formatted broadcast of its content, from
/// its author and on its view, with no live connection behind it.
pub open spec fn post_message_spec(p: Post) -> Result<Msg, FormatError> {
    match format_spec(p.content@) {
        Ok(h) => Ok(
            Msg::ChannelBroadcastFormatted {
                message: h,
                view: p.view@,
                client: None,
                user: Some(p.user_uuid),
            },
        ),
        Err(e) => Err(e),
    }
}

/// The messages that replay `ps` in order; a post whose content the size
/// policy refuses is left out.
pub open spec fn replay_spec(ps: Seq<Post>) -> Seq<Msg>
    decreases ps.len(),
{
    if ps.len() == 0 {
        seq![]
    } else {
        let rest = replay_spec(ps.drop_last());
        match post_message_spec(ps.last()) {
            Ok(m) => rest.push(m),
            Err(_) => rest,
        }
    }
}

impl OrlyMessage {
    /// The broadcast form of a stored post, whose content the size policy
    /// accepts.
    pub fn from_post(post: &Post) -> (r: OrlyMessage)
        requires
            size_spec(post.content@) is Ok,
        ensures
            post_message_spec(*post) == Ok::<Msg, FormatError>(r@),
    {
        match format_message(post.content.as_str()) {
            Ok(html) => OrlyMessage::ChannelBroadcastFormatted {
                message: html,
                view: post.view.clone(),
                client: None,
                user: Some(post.user_uuid),
            },
            Err(_) => unreached(),
        }
    }
}

impl Post {
    /// The backlog from rows read newest first: the first `BACKLOG_LIMIT`
    /// of them, put oldest first.
    pub fn backlog(newest_first: Vec<Post>) -> (r: Vec<Post>)
        ensures
            r@.len() == if newest_first@.len() < BACKLOG_LIMIT {
                newest_first@.len()
            } else {
                BACKLOG_LIMIT as nat
            },
            forall|i: int| 0 <= i < r@.len() ==> r@[i] == newest_first@[r@.len() - 1 - i],
    {
        let mut rows = newest_first;
        rows.truncate(BACKLOG_LIMIT);
        let ghost kept = rows@;
        let mut out: Vec<Post> = Vec::new();
        while rows.len() > 0
            invariant
                rows@.len() + out@.len() == kept.len(),
                rows@ == kept.take(rows@.len() as int),
                forall|i: int| 0 <= i < out@.len() ==> out@[i] == kept[kept.len() - 1 - i],
            decreases rows@.len(),
        {
            let p = rows.pop().unwrap();
            out.push(p);
            assert(rows@ =~= kept.take(rows@.len() as int));
        }
        out
    }

    /// Replays posts in order, each as `from_post` gives it; those whose
    /// content the size policy refuses are left out.
    pub fn replay(posts: &Vec<Post>) -> (r: Vec<OrlyMessage>)
        ensures
            r@.map_values(|m: OrlyMessage| m@) == replay_spec(posts@),
    {
        let mut out: Vec<OrlyMessage> = Vec::new();
        let mut i: usize = 0;
        while i < posts.len()
            invariant
                i <= posts@.len(),
                out@.map_values(|m: OrlyMessage| m@) == replay_spec(posts@.take(i as int)),
            decreases posts@.len() - i,
        {
            let ghost before = out@;
            assert(posts@.take(i as int + 1).drop_last() =~= posts@.take(i as int));
            if check_size(posts[i].content.as_str()).is_ok() {
                let m = OrlyMessage::from_post(&posts[i]);
                out.push(m);
                assert(out@.map_values(|m: OrlyMessage| m@) =~= before.map_values(
                    |m: OrlyMessage| m@,
                ).push(out@[out@.len() - 1]@));
            }
            i = i + 1;
        }
        assert(posts@.take(posts@.len() as int) =~= posts@);
        out
    }
}

/// Where the size policy accepts every post, each one is replayed, in
/// order, as its broadcast form.
pub proof fn lemma_replay_all(ps: Seq<Post>)
    requires
        forall|i: int| 0 <= i < ps.len() ==> size_spec((#[trigger] ps[i]).content@) is Ok,
    ensures
        replay_spec(ps).len() == ps.len(),
        forall|i: int|
            0 <= i < ps.len() ==> post_message_spec(#[trigger] ps[i]) == Ok::<Msg, FormatError>(
                replay_spec(ps)[i],
            ),
    decreases ps.len(),
{
    if ps.len() > 0 {
        let rest = ps.drop_last();
        assert forall|i: int| 0 <= i < rest.len() implies size_spec((#[trigger] rest[i]).content@) is Ok by {
            assert(rest[i] == ps[i]);
        }
        lemma_replay_all(rest);
        assert(size_spec(ps[ps.len() - 1].content@) is Ok);
        assert forall|i: int| 0 <= i < ps.len() implies post_message_spec(#[trigger] ps[i]) == Ok::<
            Msg,
            FormatError,
        >(replay_spec(ps)[i]) by {
            if i < ps.len() - 1 {
                assert(rest[i] == ps[i]);
            }
        }
    }
}

} // verus!
