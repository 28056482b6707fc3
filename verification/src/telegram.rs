//! The messaging-API side of the bot: the inbound event shapes, the
//! request URLs, and the update poller's monotonic watermark.  The
//! network itself stays outside; this module fixes what is asked for and
//! how a batch of events advances the watermark.

use vstd::prelude::*;

use crate::decimal::dec_rep_i64;
use crate::decimal::i64_to_string;

verus! {

/// A sticker payload attached to an inbound message.
pub struct TelegramMessageSticker {
    pub file_id: String,
}

/// The sender of an inbound message.
pub struct TelegramMessageFrom {
    pub id: i64,
    pub is_bot: bool,
    pub first_name: String,
    pub username: String,
    pub language_code: String,
}

/// The conversation an inbound message belongs to; its id is the
/// subscriber id.
pub struct TelegramMessageChat {
    pub id: i64,
    pub first_name: String,
    pub username: String,
}

/// One inbound message: a text payload, a sticker payload, or neither.
pub struct TelegramMessage {
    pub message_id: i64,
    pub from: TelegramMessageFrom,
    pub chat: TelegramMessageChat,
    pub date: i64,
    pub text: Option<String>,
    pub sticker: Option<TelegramMessageSticker>,
}

/// One inbound event, carrying the id the watermark advances over.
pub struct TelegramUpdate {
    pub update_id: i64,
    pub message: TelegramMessage,
}

/// One long-poll answer: a batch of events.
pub struct TelegramUpdatesResponse {
    pub ok: bool,
    pub result: Vec<TelegramUpdate>,
}

/// The API base for a bot token.
pub open spec fn base_url_spec(token: Seq<char>) -> Seq<char> {
    "https://api.telegram.org/bot"@ + token + "/"@
}

/// The long-poll request for events after a watermark: a server-side
/// wait bounds idle round-trips, and only events with ids strictly above
/// the watermark are asked for.
pub open spec fn poll_url_spec(base_url: Seq<char>, last_seen: int) -> Seq<char> {
    base_url + "getUpdates?timeout=20&offset="@ + dec_rep_i64(last_seen + 1)
}

/// The larger of two ids.
pub open spec fn max_i64(a: i64, b: i64) -> i64 {
    if a >= b {
        a
    } else {
        b
    }
}

/// The watermark after a batch: the running maximum of the old watermark
/// and every event id, whatever order the batch came in.
pub open spec fn batch_max(w: i64, updates: Seq<TelegramUpdate>) -> i64
    decreases updates.len(),
{
    if updates.len() == 0 {
        w
    } else {
        max_i64(batch_max(w, updates.drop_last()), updates.last().update_id)
    }
}

/// The watermark after a batch never falls below the old watermark nor
/// below any event id of the batch.
pub proof fn lemma_batch_max_bounds(w: i64, updates: Seq<TelegramUpdate>)
    ensures
        batch_max(w, updates) >= w,
        forall|i: int|
            0 <= i < updates.len() ==> batch_max(w, updates) >= #[trigger] updates[i].update_id,
    decreases updates.len(),
{
    if updates.len() > 0 {
        lemma_batch_max_bounds(w, updates.drop_last());
        assert forall|i: int|
            0 <= i < updates.len() implies batch_max(w, updates) >= #[trigger] updates[i].update_id by {
            if i < updates.len() - 1 {
                assert(updates.drop_last()[i] == updates[i]);
                assert(batch_max(w, updates.drop_last()) >= updates.drop_last()[i].update_id);
            }
        }
    }
}

/// A handle on the bot's API identity.  A fresh bot has seen nothing, so
/// its pollers start from watermark zero; a persisted watermark is
/// resumed on the poller itself.
pub struct SimpleTelegramBot {
    bot_token: String,
}

impl SimpleTelegramBot {
    /// The token the bot talks to the API with.
    pub closed spec fn token(&self) -> Seq<char> {
        self.bot_token@
    }

    /// A bot for the given token.
    pub fn new(bot_token: String) -> (r: SimpleTelegramBot)
        ensures
            r.token() == bot_token@,
    {
        SimpleTelegramBot { bot_token }
    }

    /// The API base every request of this bot starts from.
    pub fn get_base_url(&self) -> (r: String)
        ensures
            r@ == base_url_spec(self.token()),
    {
        let mut r = String::from_str("https://api.telegram.org/bot");
        r.append(self.bot_token.as_str());
        r.append("/");
        r
    }

    /// A poller for this bot, starting from watermark zero.
    pub fn updater(&self) -> (r: SimpleTelegramBotUpdater)
        ensures
            r.base_url() == base_url_spec(self.token()),
            r.last_seen() == 0,
    {
        SimpleTelegramBotUpdater::new(self.get_base_url())
    }
}

/// The update poller's state: where to ask and what has been seen.  The
/// watermark only ever grows, so an event is never processed twice within
/// one process lifetime, and persisting it makes that hold across
/// restarts.
pub struct SimpleTelegramBotUpdater {
    base_url: String,
    last_update_id: i64,
}

impl SimpleTelegramBotUpdater {
    /// The API base requests start from.
    pub closed spec fn base_url(&self) -> Seq<char> {
        self.base_url@
    }

    /// The monotonic watermark: the largest event id seen so far.
    pub closed spec fn last_seen(&self) -> i64 {
        self.last_update_id
    }

    /// A poller for the given API base with nothing seen yet.
    pub fn new(base_url: String) -> (r: SimpleTelegramBotUpdater)
        ensures
            r.base_url() == base_url@,
            r.last_seen() == 0,
    {
        SimpleTelegramBotUpdater { base_url, last_update_id: 0 }
    }

    /// The long-poll request for the next batch of events.
    pub fn poll_url(&self) -> (r: String)
        requires
            self.last_seen() < i64::MAX,
        ensures
            r@ == poll_url_spec(self.base_url(), self.last_seen() as int),
    {
        let mut r = self.base_url.clone();
        r.append("getUpdates?timeout=20&offset=");
        let offset = i64_to_string(self.last_update_id + 1);
        r.append(offset.as_str());
        r
    }

    /// Raises the watermark to the given id when that is higher; never
    /// lowers it.
    pub fn observe(&mut self, update_id: i64)
        ensures
            final(self).base_url() == old(self).base_url(),
            final(self).last_seen() == max_i64(old(self).last_seen(), update_id),
    {
        if update_id > self.last_update_id {
            self.last_update_id = update_id;
        }
    }

    /// Advances the watermark over a whole batch: afterwards it is the
    /// maximum of its old value and every event id, however the batch was
    /// ordered.  Returns true when the watermark advanced, which is when
    /// the new watermark is worth persisting.
    pub fn observe_batch(&mut self, updates: &Vec<TelegramUpdate>) -> (advanced: bool)
        ensures
            final(self).base_url() == old(self).base_url(),
            final(self).last_seen() == batch_max(old(self).last_seen(), updates@),
            final(self).last_seen() >= old(self).last_seen(),
            advanced == (final(self).last_seen() != old(self).last_seen()),
    {
        let before = self.last_update_id;
        let mut i: usize = 0;
        while i < updates.len()
            invariant
                i <= updates@.len(),
                self.base_url@ == old(self).base_url(),
                self.last_update_id == batch_max(old(self).last_seen(), updates@.subrange(0, i as int)),
            decreases updates@.len() - i,
        {
            let ghost pre = updates@.subrange(0, i as int);
            let id = updates[i].update_id;
            if id > self.last_update_id {
                self.last_update_id = id;
            }
            proof {
                let post = updates@.subrange(0, i + 1 as int);
                assert(post.drop_last() =~= pre);
                assert(post.last() == updates@[i as int]);
            }
            i = i + 1;
        }
        proof {
            assert(updates@.subrange(0, updates@.len() as int) =~= updates@);
            lemma_batch_max_bounds(old(self).last_seen(), updates@);
        }
        self.last_update_id != before
    }

    /// The current watermark, for persisting after a batch.
    pub fn last_update_id(&self) -> (r: i64)
        ensures
            r == self.last_seen(),
    {
        self.last_update_id
    }
}

/// Whether a response status code reports a failure: the client-error
/// and server-error classes.
pub fn status_indicates_failure(status: u16) -> (r: bool)
    ensures
        r == (400 <= status < 600),
{
    400 <= status && status < 600
}

} // verus!
