pub mod date;
pub mod error;
pub mod menu_structurer;
pub mod structs;

pub use self::error::BotejaoError;

use vstd::prelude::*;

use self::error::BotejaoErrorView;
use self::menu_structurer::{first_menu_error, menu_error, week_of_menus};
use self::structs::{StructuredWeekMenus, WeekMenu};

verus! {

/// Builds the week from what the menu service answered: the list of meals it sent, or the
/// text of the error met while fetching or decoding it, which becomes a network error.
pub fn menu_from_response(fetched: Result<WeekMenu, String>) -> (r: Result<
    StructuredWeekMenus,
    BotejaoError,
>)
    ensures
        match fetched {
            Err(msg) => r matches Err(e) && e@ == BotejaoErrorView::NetworkError(msg@),
            Ok(menu) => {
                &&& r is Ok <==> forall|j: int|
                    0 <= j < menu@.len() ==> menu_error(menu@[j]) is None
                &&& r matches Err(e) ==> first_menu_error(menu@, e@)
                &&& r matches Ok(w) ==> week_of_menus(w@, menu@)
            },
        },
{
    match fetched {
        Err(msg) => Err(BotejaoError::NetworkError(msg)),
        Ok(menu) => StructuredWeekMenus::from_week_menu(menu),
    }
}

} // verus!
