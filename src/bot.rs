//! Replies to the `/quote` and `/season` commands.
use vstd::prelude::*;
use crate::pattern::{group_text, regex_group};
use crate::quote::formatted_text;
use crate::store::{
    opt_chars, season_reply, PickError, QuoteStore, DIGITS_PATTERN,
};
use crate::text::{chars_of, contains_run, occurs_in, parse_u8, u8_of};

verus! {

/// The text that, anywhere in a `/quote` command, asks for the easter egg.
pub const EASTER_EGG_TRIGGER: &'static str = "plz";

/// The reply to a `/quote` command that holds `EASTER_EGG_TRIGGER`.
pub const EASTER_EGG_REPLY: &'static str = "plz kill me ;____________;";

/// The reply to a `/season` command whose season cannot be read.
pub const NOT_UNDERSTOOD_REPLY: &'static str =
    "I didn't unserstand the season you selected. But then again, I usually don't understand much of anything.";

/// The reply to `/quote` when the store holds no quote.
pub const NO_QUOTES_REPLY: &'static str = "No quotes are loaded. Life sucks, I know.";

/// The season that the first digit run of a command gives, once that run is
/// known (`None` where the command holds no digits).
pub open spec fn season_of_digits(digits: Option<Seq<char>>) -> Option<u8> {
    match digits {
        Some(d) => u8_of(d),
        None => None,
    }
}

/// Reads a season number from the first digit run of a command; `None` where
/// there is no run or it does not fit in `u8`.
pub fn season_from_digits(digits: Option<String>) -> (r: Option<u8>)
    ensures
        r == season_of_digits(opt_chars(digits)),
{
    match digits {
        Some(d) => parse_u8(d.as_str()),
        None => None,
    }
}

impl QuoteStore {
    /// The reply to a `/quote` command with message text `text`.
    pub fn reply_to_quote(&self, text: &str) -> (r: String)
        ensures
            occurs_in(EASTER_EGG_TRIGGER@, text@) ==> r@ == EASTER_EGG_REPLY@,
            !occurs_in(EASTER_EGG_TRIGGER@, text@) && self@.len() == 0 ==> r@ == NO_QUOTES_REPLY@,
            !occurs_in(EASTER_EGG_TRIGGER@, text@) && self@.len() > 0 ==> exists|i: int|
                0 <= i < self@.len() && r@ == formatted_text(self@[i]),
    {
        let cs = chars_of(text);
        let trigger = chars_of(EASTER_EGG_TRIGGER);
        if contains_run(&cs, &trigger) {
            return EASTER_EGG_REPLY.to_string();
        }
        match self.pick_random() {
            Ok(t) => t,
            Err(PickError::EmptyStore) => NO_QUOTES_REPLY.to_string(),
        }
    }

    /// The reply to a request for season `season`, `None` where the command
    /// named none that could be read.
    pub fn reply_for_season(&self, season: Option<u8>) -> (r: String)
        ensures
            season is None ==> r@ == NOT_UNDERSTOOD_REPLY@,
            season matches Some(s) ==> season_reply(self@, s, r@),
    {
        match season {
            Some(s) => self.pick_random_for_season(s),
            None => NOT_UNDERSTOOD_REPLY.to_string(),
        }
    }

    /// The reply to a `/season` command with message text `text`: a quote of
    /// the season that the first digit run of `text` names.
    pub fn reply_to_season(&self, text: &str) -> (r: String)
        requires
            self.wf(),
        ensures
            ({
                let season = season_of_digits(regex_group(DIGITS_PATTERN@, text@, 1));
                &&& season is None ==> r@ == NOT_UNDERSTOOD_REPLY@
                &&& season matches Some(s) ==> season_reply(self@, s, r@)
            }),
    {
        let digits = group_text(self.digits(), text, 1);
        let season = season_from_digits(digits);
        self.reply_for_season(season)
    }
}

} // verus!
