//! The parts of USP's menu page that are read for a day, the text made of them, and the
//! repliers that keep the last text read for each restaurant.
use vstd::prelude::*;

use std::sync::{Arc, RwLock};
use std::time::Instant;

verus! {

/// The name that USP's page gives a weekday, counted from Sunday (0); days outside Monday to
/// Friday read Monday's menu.
pub open spec fn usp_day_name(day_since_sunday: i32) -> Seq<char> {
    if day_since_sunday == 2 {
        "Terca"@
    } else if day_since_sunday == 3 {
        "Quarta"@
    } else if day_since_sunday == 4 {
        "Quinta"@
    } else if day_since_sunday == 5 {
        "Sexta"@
    } else {
        "Segunda"@
    }
}

/// The CSS ids of the page's elements that hold a day's date, lunch and dinner.
pub struct UspElementIds {
    pub day: String,
    pub lunch: String,
    pub dinner: String,
}

/// The elements to read for the day of the week counted from Sunday (0).
pub fn usp_element_ids(day_since_sunday: i32) -> (r: UspElementIds)
    ensures
        r.day@ == "#dia"@ + usp_day_name(day_since_sunday),
        r.lunch@ == "#almoco"@ + usp_day_name(day_since_sunday),
        r.dinner@ == "#jantar"@ + usp_day_name(day_since_sunday),
{
    let name = if day_since_sunday == 2 {
        "Terca"
    } else if day_since_sunday == 3 {
        "Quarta"
    } else if day_since_sunday == 4 {
        "Quinta"
    } else if day_since_sunday == 5 {
        "Sexta"
    } else {
        "Segunda"
    };
    UspElementIds {
        day: String::from_str("#dia").concat(name),
        lunch: String::from_str("#almoco").concat(name),
        dinner: String::from_str("#jantar").concat(name),
    }
}

/// The Markdown text of a day's menu: the date in bold, then lunch and dinner under their
/// headings.
pub open spec fn usp_menu_text(day: Seq<char>, lunch: Seq<char>, dinner: Seq<char>) -> Seq<char> {
    "*"@ + day + "*:\n\n*Almoço:*\n"@ + lunch + "\n\n*Jantar:*\n"@ + dinner
}

/// Writes a day's menu from the texts read from the page.
pub fn format_usp_day(day: &str, lunch: &str, dinner: &str) -> (r: String)
    ensures
        r@ == usp_menu_text(day@, lunch@, dinner@),
{
    let mut text = String::from_str("*");
    text.append(day);
    text.append("*:\n\n*Almoço:*\n");
    text.append(lunch);
    text.append("\n\n*Jantar:*\n");
    text.append(dinner);
    assert(text@ =~= usp_menu_text(day@, lunch@, dinner@));
    text
}

/// Whether a text is a day's menu as [`format_usp_day`] writes it.
pub open spec fn is_usp_menu(text: Seq<char>) -> bool {
    exists|day: Seq<char>, lunch: Seq<char>, dinner: Seq<char>|
        text == usp_menu_text(day, lunch, dinner)
}

#[verifier::external_type_specification]
#[verifier::external_body]
pub struct ExInstant(Instant);

/// Calls std's `Instant::now`.
///
/// Trusted: nothing is stated of the instant it gives.
#[verifier::external_body]
fn now() -> Instant {
    Instant::now()
}

#[verifier::external_type_specification]
#[verifier::external_body]
#[verifier::reject_recursive_types(T)]
pub struct ExRwLock<T: ?Sized>(RwLock<T>);

/// Calls std's `Arc::clone`.
///
/// Trusted: the new pointer shares the value of the old one, as std documents.
#[verifier::external_body]
fn share(replier: &Arc<RwLock<UspReplier>>) -> (r: Arc<RwLock<UspReplier>>)
    ensures
        r == *replier,
{
    replier.clone()
}

/// The response a replier keeps, and when it was last set.
pub struct CachedResponse {
    pub cached_response: String,
    pub time_when_cache_was_updated: Instant,
}

/// The cache entry for a day's texts read from the page: the day's menu, stamped now.
pub fn cached_entry(day: &str, lunch: &str, dinner: &str) -> (r: CachedResponse)
    ensures
        r.cached_response@ == usp_menu_text(day@, lunch@, dinner@),
{
    CachedResponse {
        cached_response: format_usp_day(day, lunch, dinner),
        time_when_cache_was_updated: now(),
    }
}

/// A day's menu text is never empty, so a cache that has been written to holds a menu from
/// then on: every write puts such a text there, and the cache is empty only before the first.
pub proof fn law_cached_menu_is_not_empty(day: Seq<char>, lunch: Seq<char>, dinner: Seq<char>)
    ensures
        usp_menu_text(day, lunch, dinner).len() > 0,
        is_usp_menu(usp_menu_text(day, lunch, dinner)),
{
    reveal_strlit("*");
    assert(("*"@ + day).len() > 0);
}

/// Keeps, for one of USP's restaurants, the page its menu is read from and the last menu read
/// from it (nothing before the first).
pub struct UspReplier {
    cached_response_struct: CachedResponse,
    menu_website: String,
}

impl UspReplier {
    /// The cache holds nothing yet, or a day's menu.
    #[verifier::type_invariant]
    spec fn nothing_or_menu(self) -> bool {
        self.cached_response_struct.cached_response@.len() == 0 || is_usp_menu(
            self.cached_response_struct.cached_response@,
        )
    }

    /// The page that the restaurant's menu is read from.
    pub closed spec fn website(&self) -> Seq<char> {
        self.menu_website@
    }

    /// The response that is cached.
    pub closed spec fn cached(&self) -> Seq<char> {
        self.cached_response_struct.cached_response@
    }

    /// A replier for the restaurant whose menu is on the given page, with nothing cached yet.
    pub fn new(menu_website: &str) -> (r: UspReplier)
        ensures
            r.website() == menu_website@,
            r.cached() == Seq::<char>::empty(),
    {
        let empty = CachedResponse { cached_response: String::new(), time_when_cache_was_updated: now() };
        UspReplier { cached_response_struct: empty, menu_website: String::from_str(menu_website) }
    }

    /// The page that the restaurant's menu is read from.
    pub fn menu_website(&self) -> (r: &str)
        ensures
            r@ == self.website(),
    {
        self.menu_website.as_str()
    }

    /// The response to send: what is cached, which is nothing before any menu was read, else a
    /// day's menu.
    pub fn cached_response(&self) -> (r: String)
        ensures
            r@ == self.cached(),
            r@.len() == 0 || is_usp_menu(r@),
    {
        proof {
            use_type_invariant(self);
        }
        self.cached_response_struct.cached_response.clone()
    }

    /// Caches the menu made of a day's texts read from the page, and when that happened; the
    /// page stays the same.
    pub fn update_cached_response(&mut self, day: &str, lunch: &str, dinner: &str)
        ensures
            final(self).cached() == usp_menu_text(day@, lunch@, dinner@),
            final(self).website() == old(self).website(),
    {
        proof {
            law_cached_menu_is_not_empty(day@, lunch@, dinner@);
        }
        self.cached_response_struct = cached_entry(day, lunch, dinner);
    }
}

/// A replier shared by pointer between the thread that reads the pages and the ones that
/// answer, behind a lock.
pub struct ArcUspReplier {
    pub arc_usp_replier: Arc<RwLock<UspReplier>>,
}

impl Clone for ArcUspReplier {
    fn clone(&self) -> (r: Self)
        ensures
            r.arc_usp_replier == self.arc_usp_replier,
    {
        ArcUspReplier { arc_usp_replier: share(&self.arc_usp_replier) }
    }
}

/// How many times a page is looked at before it is given up.
pub const POLL_ATTEMPTS: u32 = 30;

/// What to do after looking at a page once.
#[derive(Debug, Clone, Copy, PartialEq, Eq, Structural)]
pub enum PollStep {
    /// The page's menu was read: keep it.
    Accept,
    /// Look again at once.
    Retry,
    /// Wait a second, then look again.
    WaitAndRetry,
    /// Wait a second, then give up the update.
    WaitAndGiveUp,
    /// Give up the update.
    GiveUp,
}

/// The page is read once it has loaded and gives a menu; a page that has not loaded is waited
/// for a second; after the last of the attempts the update is given up.
pub open spec fn poll_step(attempt: u32, loaded: bool, menu_is_empty: bool) -> PollStep {
    let last = attempt + 1 >= POLL_ATTEMPTS;
    if loaded && !menu_is_empty {
        PollStep::Accept
    } else if loaded {
        if last {
            PollStep::GiveUp
        } else {
            PollStep::Retry
        }
    } else if last {
        PollStep::WaitAndGiveUp
    } else {
        PollStep::WaitAndRetry
    }
}

/// Decides what follows the look number `attempt` (from 0) at a page: whether it had loaded
/// and, if so, whether the menu read from it was empty.
pub fn next_poll_step(attempt: u32, loaded: bool, menu_is_empty: bool) -> (r: PollStep)
    ensures
        r == poll_step(attempt, loaded, menu_is_empty),
{
    let last = attempt >= POLL_ATTEMPTS - 1;
    if loaded && !menu_is_empty {
        PollStep::Accept
    } else if loaded {
        if last {
            PollStep::GiveUp
        } else {
            PollStep::Retry
        }
    } else if last {
        PollStep::WaitAndGiveUp
    } else {
        PollStep::WaitAndRetry
    }
}

/// After a site: its menu is cached and the next site is read only where the browser reached
/// the page and a menu was read from it; else the whole update stops.
pub fn cache_and_go_on(reached: bool, menu_read: bool) -> (r: bool)
    ensures
        r == (reached && menu_read),
{
    reached && menu_read
}

/// A page is looked at no more than the set number of times: from the last attempt on, no
/// step looks again.
pub proof fn law_polling_ends(attempt: u32, loaded: bool, menu_is_empty: bool)
    requires
        attempt + 1 >= POLL_ATTEMPTS,
    ensures
        poll_step(attempt, loaded, menu_is_empty) != PollStep::Retry,
        poll_step(attempt, loaded, menu_is_empty) != PollStep::WaitAndRetry,
{
}

} // verus!
