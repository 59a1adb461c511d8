//! The messages that the bot posts on its channel: the menus of the coming days as HTML text.
use vstd::prelude::*;

use crate::text::{
    char_to_uppercase, lowercase_text, same_text, to_lowercase, to_uppercase, uppercase_first,
    uppercase_text,
};
use crate::unicamp_menu::date::{dmy_text, weekday_of, DateView, Weekday};
use crate::unicamp_menu::structs::{
    option_view, slot_of, Cardapio, CardapioView, DayMenuView, MealKind, StructuredDayMenu, StructuredWeekMenus,
};

verus! {

/// The Portuguese name of a day of the week.
pub open spec fn portuguese_name(day: Weekday) -> Seq<char> {
    match day {
        Weekday::Mon => "Segunda"@,
        Weekday::Tue => "Terça"@,
        Weekday::Wed => "Quarta"@,
        Weekday::Thu => "Quinta"@,
        Weekday::Fri => "Sexta"@,
        Weekday::Sat => "Sábado"@,
        Weekday::Sun => "Domingo"@,
    }
}

/// The Portuguese name of a day of the week.
pub fn weekday_to_portuguese(day: Weekday) -> (r: String)
    ensures
        r@ == portuguese_name(day),
{
    match day {
        Weekday::Mon => String::from_str("Segunda"),
        Weekday::Tue => String::from_str("Terça"),
        Weekday::Wed => String::from_str("Quarta"),
        Weekday::Thu => String::from_str("Quinta"),
        Weekday::Fri => String::from_str("Sexta"),
        Weekday::Sat => String::from_str("Sábado"),
        Weekday::Sun => String::from_str("Domingo"),
    }
}

/// `s` with its first character in upper case (as `char::to_uppercase` writes it) and the
/// rest unchanged; the empty text stays empty.
pub fn uppercase_first_letter(s: &str) -> (r: String)
    ensures
        r@ == uppercase_first(s@),
{
    let n = s.unicode_len();
    if n == 0 {
        return String::new();
    }
    let first = s.get_char(0);
    let rest = s.substring_char(1, n);
    char_to_uppercase(first).concat(rest)
}

/// The emoji that marks the main course of a kind of meal.
pub open spec fn meal_emoji(kind: MealKind) -> Seq<char> {
    match kind {
        MealKind::Lunch => "🍗"@,
        MealKind::Dinner => "🍖"@,
        MealKind::VegLunch => "🥕"@,
        MealKind::VegDinner => "🥒"@,
    }
}

/// A dish's name in lower case but for its first letter.
pub open spec fn dish_name(s: Seq<char>) -> Seq<char> {
    uppercase_first(lowercase_text(s))
}

/// The line of the `PTS` dish; it is left out where the service wrote that it was not given.
pub open spec fn pts_line(pts: Seq<char>) -> Seq<char> {
    if lowercase_text(pts) != "não informado"@ {
        "🌾 "@ + dish_name(pts) + "\n"@
    } else {
        Seq::empty()
    }
}

/// The text of one meal: its kind in bold, then one line per dish, each behind its emoji.
pub open spec fn cardapio_text(c: CardapioView, kind: MealKind) -> Seq<char> {
    "🍲 <b>"@ + c.tipo + "</b>:\n"@ + meal_emoji(kind) + " "@ + dish_name(c.prato_principal)
        + "\n"@ + pts_line(c.pts) + "🥬 "@ + dish_name(c.salada) + "\n"@ + "🍦 "@ + dish_name(
        c.sobremesa,
    ) + "\n"@ + "🧃 Suco de "@ + lowercase_text(c.suco) + "\n"@
}

/// Writes one meal as the channel shows it.
pub fn format_cardapio(menu: &Cardapio, meal_kind: MealKind) -> (r: String)
    ensures
        r@ == cardapio_text(menu@, meal_kind),
{
    let main_course_emoji = match meal_kind {
        MealKind::Lunch => "🍗",
        MealKind::Dinner => "🍖",
        MealKind::VegLunch => "🥕",
        MealKind::VegDinner => "🥒",
    };
    let mut buffer = String::new();
    buffer.append("🍲 <b>");
    buffer.append(menu.tipo.as_str());
    buffer.append("</b>:\n");
    buffer.append(main_course_emoji);
    buffer.append(" ");
    let main_course = uppercase_first_letter(to_lowercase(menu.prato_principal.as_str()).as_str());
    buffer.append(main_course.as_str());
    buffer.append("\n");
    let ghost before_pts = buffer@;
    let pts = to_lowercase(menu.pts.as_str());
    if !same_text(pts.as_str(), "não informado") {
        buffer.append("🌾 ");
        buffer.append(uppercase_first_letter(pts.as_str()).as_str());
        buffer.append("\n");
    }
    assert(buffer@ =~= before_pts + pts_line(menu@.pts));
    buffer.append("🥬 ");
    buffer.append(uppercase_first_letter(to_lowercase(menu.salada.as_str()).as_str()).as_str());
    buffer.append("\n");
    buffer.append("🍦 ");
    buffer.append(uppercase_first_letter(to_lowercase(menu.sobremesa.as_str()).as_str()).as_str());
    buffer.append("\n");
    buffer.append("🧃 Suco de ");
    buffer.append(to_lowercase(menu.suco.as_str()).as_str());
    buffer.append("\n");
    assert(buffer@ =~= cardapio_text(menu@, meal_kind));
    buffer
}

/// The heading of a day: its weekday in capitals and its date, in bold between stars.
pub open spec fn day_title(day: DateView) -> Seq<char> {
    "******* <b>"@ + uppercase_text(portuguese_name(weekday_of(day))) + " "@ + dmy_text(day)
        + "</b> ******* \n"@
}

/// The text of a meal slot followed by an empty line, or nothing for an empty slot.
pub open spec fn slot_text(slot: Option<CardapioView>, kind: MealKind) -> Seq<char> {
    match slot {
        Some(c) => cardapio_text(c, kind) + "\n"@,
        None => Seq::empty(),
    }
}

/// The text of a day: its heading, then lunch, dinner, vegetarian lunch and vegetarian dinner.
#[verifier::opaque]
pub open spec fn day_text(d: DayMenuView) -> Seq<char> {
    day_title(d.day) + slot_text(d.lunch, MealKind::Lunch) + slot_text(d.dinner, MealKind::Dinner)
        + slot_text(d.veg_lunch, MealKind::VegLunch) + slot_text(d.veg_dinner, MealKind::VegDinner)
}

/// The place of each kind of meal in a day's text: lunch, dinner, vegetarian lunch, then
/// vegetarian dinner.
pub open spec fn meal_rank(kind: MealKind) -> int {
    match kind {
        MealKind::Lunch => 0,
        MealKind::Dinner => 1,
        MealKind::VegLunch => 2,
        MealKind::VegDinner => 3,
    }
}

/// `part` stands in `text` from index `i` on.
pub open spec fn occurs_at(text: Seq<char>, part: Seq<char>, i: int) -> bool {
    0 <= i && i + part.len() <= text.len() && text.subrange(i, i + part.len()) == part
}

spec fn slot_offset(d: DayMenuView, kind: MealKind) -> int {
    let t = day_title(d.day).len() as int;
    let l = slot_text(d.lunch, MealKind::Lunch).len() as int;
    let n = slot_text(d.dinner, MealKind::Dinner).len() as int;
    let v = slot_text(d.veg_lunch, MealKind::VegLunch).len() as int;
    match kind {
        MealKind::Lunch => t,
        MealKind::Dinner => t + l,
        MealKind::VegLunch => t + l + n,
        MealKind::VegDinner => t + l + n + v,
    }
}

proof fn lemma_slot_occurs(d: DayMenuView, kind: MealKind)
    requires
        slot_of(d, kind) is Some,
    ensures
        occurs_at(day_text(d), cardapio_text(slot_of(d, kind)->Some_0, kind), slot_offset(d, kind)),
        occurs_at(day_text(d), slot_text(slot_of(d, kind), kind), slot_offset(d, kind)),
{
    reveal(day_text);
    let t = day_title(d.day);
    let a = slot_text(d.lunch, MealKind::Lunch);
    let b = slot_text(d.dinner, MealKind::Dinner);
    let c = slot_text(d.veg_lunch, MealKind::VegLunch);
    let e = slot_text(d.veg_dinner, MealKind::VegDinner);
    let text = day_text(d);
    assert(text == t + a + b + c + e);
    let part = slot_text(slot_of(d, kind), kind);
    let meal = cardapio_text(slot_of(d, kind)->Some_0, kind);
    assert(part == meal + "\n"@);
    let o = slot_offset(d, kind);
    assert(text.subrange(o, o + part.len()) =~= part);
    assert(text.subrange(o, o + meal.len()) =~= meal);
}

/// Every filled meal slot of a day is written in the day's text, and of two filled slots the
/// one that comes first (lunch, dinner, vegetarian lunch, vegetarian dinner) is written first.
pub proof fn law_day_text_holds_every_meal(d: DayMenuView, k1: MealKind, k2: MealKind)
    requires
        slot_of(d, k1) is Some,
    ensures
        exists|i: int| occurs_at(day_text(d), cardapio_text(slot_of(d, k1)->Some_0, k1), i),
        slot_of(d, k2) is Some && meal_rank(k1) < meal_rank(k2) ==> exists|i1: int, i2: int|
            i1 < i2 && occurs_at(day_text(d), cardapio_text(slot_of(d, k1)->Some_0, k1), i1)
                && occurs_at(day_text(d), cardapio_text(slot_of(d, k2)->Some_0, k2), i2),
{
    lemma_slot_occurs(d, k1);
    if slot_of(d, k2) is Some && meal_rank(k1) < meal_rank(k2) {
        lemma_slot_occurs(d, k2);
        assert(slot_text(slot_of(d, k1), k1).len() > 0) by {
            reveal_strlit("\n");
        }
        assert(slot_offset(d, k1) < slot_offset(d, k2));
    }
}

fn append_slot(text: &mut String, slot: &Option<Cardapio>, kind: MealKind)
    ensures
        final(text)@ == old(text)@ + slot_text(option_view(*slot), kind),
{
    if let Some(menu) = slot {
        text.append(format_cardapio(menu, kind).as_str());
        text.append("\n");
        assert(final(text)@ =~= old(text)@ + slot_text(option_view(*slot), kind));
    } else {
        assert(text@ =~= old(text)@ + slot_text(option_view(*slot), kind));
    }
}

/// Writes the menu of one day as the channel shows it.
pub fn format_day_menu(day_menu: &StructuredDayMenu) -> (r: String)
    ensures
        r@ == day_text(day_menu@),
{
    let pt_day = weekday_to_portuguese(day_menu.day.weekday());
    let mut title = String::from_str("******* <b>");
    title.append(to_uppercase(pt_day.as_str()).as_str());
    title.append(" ");
    title.append(day_menu.day.format_dmy().as_str());
    title.append("</b> ******* \n");
    assert(title@ =~= day_title(day_menu@.day));
    append_slot(&mut title, &day_menu.lunch, MealKind::Lunch);
    append_slot(&mut title, &day_menu.dinner, MealKind::Dinner);
    append_slot(&mut title, &day_menu.veg_lunch, MealKind::VegLunch);
    append_slot(&mut title, &day_menu.veg_dinner, MealKind::VegDinner);
    proof {
        reveal(day_text);
    }
    title
}

/// The link to the restaurant's page that opens every message.
pub open spec fn menu_page_link() -> Seq<char> {
    "<a href=\"https://www.prefeitura.unicamp.br/servicos/divisao-de-alimentacao/cardapio-dos-restaurantes\">Cardapio Online</a>\n\n"@
}

/// The texts of the days, in their order, each followed by an empty line.
pub open spec fn days_text(days: Seq<DayMenuView>) -> Seq<char>
    decreases days.len(),
{
    if days.len() == 0 {
        Seq::empty()
    } else {
        days_text(days.drop_last()) + day_text(days.last()) + "\n"@
    }
}

/// The text of some days joined after the text of others is the text of all of them.
pub proof fn lemma_days_text_concat(a: Seq<DayMenuView>, b: Seq<DayMenuView>)
    ensures
        days_text(a + b) == days_text(a) + days_text(b),
    decreases b.len(),
{
    if b.len() == 0 {
        assert(a + b =~= a);
        assert(days_text(a) + days_text(b) =~= days_text(a));
    } else {
        lemma_days_text_concat(a, b.drop_last());
        assert((a + b).drop_last() =~= a + b.drop_last());
        assert((a + b).last() == b.last());
        assert(days_text(a + b) =~= days_text(a) + days_text(b));
    }
}

/// Every day's text stands in the days' text at its place: after the days before it and
/// before the days after it.
pub proof fn lemma_days_text_split(days: Seq<DayMenuView>, i: int)
    requires
        0 <= i < days.len(),
    ensures
        days_text(days) == days_text(days.take(i)) + day_text(days[i]) + "\n"@ + days_text(
            days.skip(i + 1),
        ),
{
    let one = seq![days[i]];
    assert(days =~= days.take(i) + one + days.skip(i + 1));
    lemma_days_text_concat(days.take(i) + one, days.skip(i + 1));
    lemma_days_text_concat(days.take(i), one);
    assert(one.drop_last() =~= Seq::<DayMenuView>::empty());
    assert(one.last() == days[i]);
    assert(days_text(Seq::<DayMenuView>::empty()) == Seq::<char>::empty());
    assert(days_text(one) == days_text(one.drop_last()) + day_text(one.last()) + "\n"@);
    assert(days_text(one) =~= day_text(days[i]) + "\n"@);
    assert(days_text(days) =~= days_text(days.take(i)) + day_text(days[i]) + "\n"@ + days_text(
        days.skip(i + 1),
    ));
}

/// The whole message for some days: the link to the restaurant's page, then each day.
pub open spec fn week_text(days: Seq<DayMenuView>) -> Seq<char> {
    menu_page_link() + days_text(days)
}

/// Writes the menus of the coming days as one message, the days in their order.
pub fn format_week_menu(menu: &StructuredWeekMenus) -> (r: String)
    ensures
        r@ == week_text(menu@),
{
    let mut formatted_menu = String::new();
    formatted_menu.append(
        "<a href=\"https://www.prefeitura.unicamp.br/servicos/divisao-de-alimentacao/cardapio-dos-restaurantes\">Cardapio Online</a>\n\n",
    );
    let n = menu.next_menus.len();
    let mut i: usize = 0;
    while i < n
        invariant
            n == menu.next_menus@.len(),
            i <= n,
            formatted_menu@ == menu_page_link() + days_text(menu@.take(i as int)),
        decreases n - i,
    {
        let ghost before = formatted_menu@;
        formatted_menu.append(format_day_menu(&menu.next_menus[i]).as_str());
        formatted_menu.append("\n");
        proof {
            let days = menu@.take(i + 1);
            assert(days.drop_last() =~= menu@.take(i as int));
            assert(days.last() == menu.next_menus@[i as int]@);
            assert(formatted_menu@ =~= menu_page_link() + days_text(days));
        }
        i = i + 1;
    }
    assert(menu@.take(n as int) =~= menu@);
    formatted_menu
}

} // verus!
