//! The replies and actions of the Discord bot's commands.

use vstd::prelude::*;

use crate::decimal::{chars_value, decimal_chars, lemma_decimal_chars_meaning, push_decimal};

verus! {

/// The Discord mention of a channel: `<#id>`.
pub open spec fn mention(id: u64) -> Seq<char> {
    "<#"@ + decimal_chars(id as nat) + ">"@
}

/// The mentions of `ids`, one after the other, in order.
pub open spec fn mentions(ids: Seq<u64>) -> Seq<char>
    decreases ids.len(),
{
    if ids.len() == 0 {
        Seq::empty()
    } else {
        mentions(ids.drop_last()) + mention(ids.last())
    }
}

/// A channel's mention is `<#`, then all the decimal digits of its id, read
/// back as that id, then `>`; so distinct channels have distinct mentions.
pub proof fn lemma_mention_shape(id: u64)
    ensures
        mention(id).len() == decimal_chars(id as nat).len() + 3,
        mention(id)[0] == '<',
        mention(id)[1] == '#',
        mention(id).last() == '>',
        chars_value(mention(id).subrange(2, mention(id).len() - 1)) == id,
{
    reveal_strlit("<#");
    reveal_strlit(">");
    lemma_decimal_chars_meaning(id as nat);
    let m = mention(id);
    assert(m.subrange(2, m.len() - 1) =~= decimal_chars(id as nat));
}

/// The mentions of a list are the mentions of its parts, joined in order:
/// every channel of the list is mentioned, in its place.
pub proof fn lemma_mentions_concat(s: Seq<u64>, t: Seq<u64>)
    ensures
        mentions(s + t) == mentions(s) + mentions(t),
    decreases t.len(),
{
    if t.len() == 0 {
        assert(s + t =~= s);
        assert(mentions(s) + mentions(t) =~= mentions(s));
    } else {
        lemma_mentions_concat(s, t.drop_last());
        assert((s + t).drop_last() =~= s + t.drop_last());
        assert((s + t).last() == t.last());
        assert(mentions(s + t) =~= mentions(s) + mentions(t.drop_last()) + mention(t.last()));
    }
}

/// The mentions of one channel are its mention.
pub proof fn lemma_mentions_single(id: u64)
    ensures
        mentions(seq![id]) == mention(id),
{
    assert(seq![id].drop_last() =~= Seq::<u64>::empty());
    assert(mentions(Seq::<u64>::empty()) + mention(id) =~= mention(id));
}

/// The mentions of a list are each channel's mention in turn: the text is as
/// long as all the mentions together, and the part written for the `i`-th
/// channel, after those written for the channels before it, is its mention.
pub proof fn lemma_mentions_each(ids: Seq<u64>, i: int)
    requires
        0 <= i < ids.len(),
    ensures
        mentions(ids) == mentions(ids.take(i)) + mention(ids[i]) + mentions(ids.skip(i + 1)),
{
    lemma_mentions_concat(ids.take(i), seq![ids[i]]);
    lemma_mentions_concat(ids.take(i) + seq![ids[i]], ids.skip(i + 1));
    lemma_mentions_single(ids[i]);
    assert(ids.take(i) + seq![ids[i]] + ids.skip(i + 1) =~= ids);
}

/// The mentions of all `ids`, written one after the other.
pub fn channel_mentions(ids: &Vec<u64>) -> (text: String)
    ensures
        text@ == mentions(ids@),
{
    let mut text = String::new();
    let mut i: usize = 0;
    while i < ids.len()
        invariant
            i <= ids.len(),
            text@ == mentions(ids@.take(i as int)),
        decreases ids.len() - i,
    {
        proof {
            assert(ids@.take(i + 1).drop_last() =~= ids@.take(i as int));
            assert(ids@.take(i + 1).last() == ids@[i as int]);
        }
        text.append("<#");
        push_decimal(&mut text, ids[i]);
        text.append(">");
        proof {
            assert(text@ =~= mentions(ids@.take(i as int)) + mention(ids@[i as int]));
        }
        i = i + 1;
    }
    proof {
        assert(ids@.take(ids.len() as int) =~= ids@);
    }
    text
}

/// The reply to `/subscribed_channels`: the mentions of the subscribed
/// channels, or `none` when there are none.
pub fn subscribed_channels_reply(ids: &Vec<u64>) -> (reply: String)
    ensures
        reply@ == if ids.len() == 0 {
            "none"@
        } else {
            mentions(ids@)
        },
{
    let text = channel_mentions(ids);
    proof {
        reveal_strlit("<#");
        if ids.len() > 0 {
            assert(mentions(ids@).len() >= mention(ids@.last()).len());
        }
    }
    if text.as_str().is_empty() {
        "none".to_owned()
    } else {
        text
    }
}

/// The guilds that the bot leaves when it starts: all but the allowed one, in order.
pub fn guilds_to_leave(guilds: &Vec<u64>, allowed: u64) -> (leave: Vec<u64>)
    ensures
        leave@ == guilds@.filter(|g: u64| g != allowed),
{
    let mut leave: Vec<u64> = Vec::new();
    let mut i: usize = 0;
    while i < guilds.len()
        invariant
            i <= guilds.len(),
            leave@ == guilds@.take(i as int).filter(|g: u64| g != allowed),
        decreases guilds.len() - i,
    {
        proof {
            assert(guilds@.take(i + 1).drop_last() =~= guilds@.take(i as int));
            reveal_with_fuel(Seq::<_>::filter, 1);
        }
        if guilds[i] != allowed {
            leave.push(guilds[i]);
        }
        i = i + 1;
    }
    proof {
        assert(guilds@.take(guilds.len() as int) =~= guilds@);
    }
    leave
}

/// The bot stays only in the allowed guild: it leaves every other guild it
/// is in, and never the allowed one.
pub proof fn lemma_only_allowed_guild_kept(guilds: Seq<u64>, allowed: u64, g: u64)
    ensures
        guilds.filter(|x: u64| x != allowed).contains(g) <==> (guilds.contains(g) && g != allowed),
{
    let p = |x: u64| x != allowed;
    let f = guilds.filter(p);
    if f.contains(g) {
        guilds.lemma_filter_contains_rev(p, g);
        let i = choose|i: int| 0 <= i < f.len() && f[i] == g;
        guilds.lemma_filter_pred(p, i);
    }
    if guilds.contains(g) && g != allowed {
        let i = choose|i: int| 0 <= i < guilds.len() && guilds[i] == g;
        guilds.lemma_filter_contains(p, i);
    }
}

/// The channels that the periodic status report goes to: the subscribed
/// channels, or none when they could not be listed.
pub fn report_channels<E>(listed: Result<Vec<u64>, E>) -> (channels: Vec<u64>)
    ensures
        match listed {
            Ok(ids) => channels == ids,
            Err(_) => channels.len() == 0,
        },
{
    match listed {
        Ok(ids) => ids,
        Err(_) => Vec::new(),
    }
}

/// Minutes between two status reports to the subscribed channels.
pub const REPORT_INTERVAL_MINUTES: u32 = 5;

/// Milliseconds between two checks of the report schedule.
pub const SCHEDULER_POLL_MILLIS: u64 = 1000;

} // verus!
