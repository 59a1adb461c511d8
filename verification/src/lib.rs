pub mod bot;
pub mod formatting;
pub mod menu_updates;
pub mod text;
pub mod unicamp_menu;

pub use self::unicamp_menu::structs::{
    Cardapio, Date, MealKind, StructuredDayMenu, StructuredWeekMenus, WeekMenu,
};
pub use self::unicamp_menu::BotejaoError;
