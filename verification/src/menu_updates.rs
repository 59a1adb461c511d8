//! Deciding, for each menu fetched from the service, whether the channel is to get a new
//! message, and how long the channel bot waits between fetches.
use vstd::prelude::*;

use crate::formatting::{day_text, days_text, format_week_menu, menu_page_link, week_text};
use crate::unicamp_menu::structs::{DayMenuView, StructuredWeekMenus};

verus! {

/// The message that a fetched week gives, where the channel last got `shown`: none if the
/// fetched days are what was shown, else the text of those days.
pub open spec fn update_message(shown: Seq<DayMenuView>, fetched: Seq<DayMenuView>) -> Option<
    Seq<char>,
> {
    if fetched == shown {
        None
    } else {
        Some(week_text(fetched))
    }
}

/// Takes a freshly fetched week, its days in the order they were built (earliest first). If it
/// is what was last shown, nothing changes and there is no message; else it becomes what was
/// last shown and its text is returned, to be posted.
pub fn apply_new_menu(old_menu: &mut StructuredWeekMenus, new_menu: StructuredWeekMenus) -> (r:
    Option<String>)
    ensures
        final(old_menu)@ == new_menu@,
        new_menu@ == old(old_menu)@ ==> *final(old_menu) == *old(old_menu),
        match r {
            Some(t) => update_message(old(old_menu)@, new_menu@) == Some(t@),
            None => update_message(old(old_menu)@, new_menu@) is None,
        },
{
    if new_menu.same_as(old_menu) {
        return None;
    }
    let formatted_menu = format_week_menu(&new_menu);
    *old_menu = new_menu;
    Some(formatted_menu)
}

/// Once a fetched week has been taken, fetching the same week again gives no message and
/// leaves what was shown as it is: each menu is posted once.
pub proof fn law_same_menu_is_posted_once(shown: Seq<DayMenuView>, fetched: Seq<DayMenuView>)
    ensures
        update_message(fetched, fetched) is None,
        update_message(shown, fetched) is Some <==> fetched != shown,
{
}

/// A week that differs from what was shown is posted whole: the message is the page link
/// followed by the text of every fetched day, in order, each followed by an empty line,
/// whatever was shown before.
pub proof fn law_changed_week_is_posted_whole(
    shown: Seq<DayMenuView>,
    fetched: Seq<DayMenuView>,
    i: int,
)
    requires
        fetched != shown,
        0 <= i < fetched.len(),
    ensures
        update_message(shown, fetched) == Some(week_text(fetched)),
        week_text(fetched) == menu_page_link() + days_text(fetched.take(i)) + day_text(fetched[i])
            + "\n"@ + days_text(fetched.skip(i + 1)),
{
    crate::formatting::lemma_days_text_split(fetched, i);
}

/// How long, in seconds, the channel bot waits between checks.
pub const CHECK_INTERVAL_SECS: u64 = 3600;

/// How long, in seconds, the channel bot waits more after a check that failed.
pub const RETRY_PAUSE_SECS: u64 = 60;

/// The wait after a fetch: before the first menu was had, a failed fetch waits one interval and
/// a good one none; afterwards, each check waits one interval, and a failed one a pause more.
pub open spec fn wait_secs(initialised: bool, check_failed: bool) -> u64 {
    if !initialised {
        if check_failed {
            CHECK_INTERVAL_SECS
        } else {
            0
        }
    } else if check_failed {
        (RETRY_PAUSE_SECS + CHECK_INTERVAL_SECS) as u64
    } else {
        CHECK_INTERVAL_SECS
    }
}

/// How long the channel bot waits after a fetch, given whether it already had a first menu when
/// it fetched and whether the fetch, or the posting, failed.
pub fn next_wait_secs(initialised: bool, check_failed: bool) -> (s: u64)
    ensures
        s == wait_secs(initialised, check_failed),
{
    if !initialised {
        if check_failed {
            CHECK_INTERVAL_SECS
        } else {
            0
        }
    } else if check_failed {
        RETRY_PAUSE_SECS + CHECK_INTERVAL_SECS
    } else {
        CHECK_INTERVAL_SECS
    }
}

} // verus!
