use vstd::prelude::*;

use crate::text::same_text;
use crate::unicamp_menu::date::{
    chrono_parse_date, date_before, days_from_ce, law_date_order_is_chronological, parse_date,
    valid_date, Date, DateView,
};
use crate::unicamp_menu::error::{BotejaoError, BotejaoErrorView};
use crate::unicamp_menu::structs::{
    slot_of, Cardapio, CardapioView, DayMenuView, MealKind, StructuredDayMenu, StructuredWeekMenus,
    WeekMenu,
};

verus! {

/// The format in which the service writes a meal's date.
pub open spec fn menu_date_format() -> Seq<char> {
    "%Y-%m-%d"@
}

/// What chrono reads from a meal's date.
pub open spec fn menu_date_of(c: CardapioView) -> Result<DateView, Seq<char>> {
    chrono_parse_date(c.data, menu_date_format())
}

/// The day of a meal whose date chrono reads.
pub open spec fn menu_day(c: CardapioView) -> DateView {
    menu_date_of(c)->Ok_0
}

/// The kind of meal that a `TIPO` text names, if it names one.
pub open spec fn meal_kind_of(tipo: Seq<char>) -> Option<MealKind> {
    if tipo == "Almoço"@ {
        Some(MealKind::Lunch)
    } else if tipo == "Jantar"@ {
        Some(MealKind::Dinner)
    } else if tipo == "Almoço Vegetariano"@ {
        Some(MealKind::VegLunch)
    } else if tipo == "Jantar Vegetariano"@ {
        Some(MealKind::VegDinner)
    } else {
        None
    }
}

/// The error that a meal causes: first an unreadable date, then an unknown kind of meal.
pub open spec fn menu_error(c: CardapioView) -> Option<BotejaoErrorView> {
    match menu_date_of(c) {
        Err(e) => Some(BotejaoErrorView::InvalidDate { invalid_date: c.data, parse_error: e }),
        Ok(_) => match meal_kind_of(c.tipo) {
            Some(_) => None,
            None => Some(BotejaoErrorView::InvalidMealKind(c.tipo)),
        },
    }
}

/// `d` with the slot of `kind` set to `c`.
pub open spec fn with_slot(d: DayMenuView, kind: MealKind, c: CardapioView) -> DayMenuView {
    match kind {
        MealKind::Lunch => DayMenuView { lunch: Some(c), ..d },
        MealKind::Dinner => DayMenuView { dinner: Some(c), ..d },
        MealKind::VegLunch => DayMenuView { veg_lunch: Some(c), ..d },
        MealKind::VegDinner => DayMenuView { veg_dinner: Some(c), ..d },
    }
}

/// An empty day.
pub open spec fn empty_day(day: DateView) -> DayMenuView {
    DayMenuView { day, lunch: None, dinner: None, veg_lunch: None, veg_dinner: None }
}

/// The last of `menus` that is a meal of `kind` on `day`.
pub open spec fn last_meal(menus: Seq<CardapioView>, day: DateView, kind: MealKind) -> Option<
    CardapioView,
>
    decreases menus.len(),
{
    if menus.len() == 0 {
        None
    } else {
        let c = menus.last();
        if menu_day(c) == day && meal_kind_of(c.tipo) == Some(kind) {
            Some(c)
        } else {
            last_meal(menus.drop_last(), day, kind)
        }
    }
}

/// Each day comes before the days after it.
pub open spec fn days_ascending(days: Seq<DayMenuView>) -> bool {
    forall|i: int, j: int| 0 <= i < j < days.len() ==> date_before(days[i].day, days[j].day)
}

/// Each entry of `days` is the day of one of `menus`.
#[verifier::opaque]
pub open spec fn days_have_menus(days: Seq<DayMenuView>, menus: Seq<CardapioView>) -> bool {
    forall|a: int| #![trigger days[a]]
        0 <= a < days.len() ==> exists|j: int| #![trigger menus[j]]
            0 <= j < menus.len() && menu_day(menus[j]) == days[a].day
}

/// The day of each of `menus` has an entry in `days`.
#[verifier::opaque]
pub open spec fn menus_have_days(days: Seq<DayMenuView>, menus: Seq<CardapioView>) -> bool {
    forall|j: int| #![trigger menus[j]]
        0 <= j < menus.len() ==> exists|a: int| #![trigger days[a]]
            0 <= a < days.len() && days[a].day == menu_day(menus[j])
}

/// Each slot of each entry of `days` holds the last of `menus` that is a meal of that kind
/// on that day.
#[verifier::opaque]
pub open spec fn slots_are_last(days: Seq<DayMenuView>, menus: Seq<CardapioView>) -> bool {
    forall|a: int, k: MealKind| #![trigger slot_of(days[a], k)]
        0 <= a < days.len() ==> slot_of(days[a], k) == last_meal(menus, days[a].day, k)
}

/// `days` holds one entry for each date of `menus` and no other, and each slot holds the
/// last of `menus` that is a meal of that kind on that day.
pub open spec fn days_of_menus(days: Seq<DayMenuView>, menus: Seq<CardapioView>) -> bool {
    &&& days_have_menus(days, menus)
    &&& menus_have_days(days, menus)
    &&& slots_are_last(days, menus)
}

/// What a week built from `menus` holds: its days in order, one per date, each meal the
/// last given for its day and kind.
pub open spec fn week_of_menus(days: Seq<DayMenuView>, menus: Seq<CardapioView>) -> bool {
    &&& days_ascending(days)
    &&& days_of_menus(days, menus)
}

/// The first error among `menus`: the error of the meal at some index, no meal before it
/// causing one.
pub open spec fn first_menu_error(menus: Seq<CardapioView>, e: BotejaoErrorView) -> bool {
    exists|j: int|
        0 <= j < menus.len() && menu_error(menus[j]) == Some(e) && forall|i: int|
            0 <= i < j ==> menu_error(menus[i]) is None
}

pub open spec fn day_views(s: Seq<StructuredDayMenu>) -> Seq<DayMenuView> {
    s.map_values(|d: StructuredDayMenu| d@)
}

proof fn lemma_last_meal_has_day(menus: Seq<CardapioView>, day: DateView, kind: MealKind)
    requires
        last_meal(menus, day, kind) is Some,
    ensures
        exists|j: int| 0 <= j < menus.len() && menu_day(menus[j]) == day,
    decreases menus.len(),
{
    if menus.len() > 0 {
        let c = menus.last();
        if menu_day(c) == day && meal_kind_of(c.tipo) == Some(kind) {
            assert(menu_day(menus[menus.len() - 1]) == day);
        } else {
            lemma_last_meal_has_day(menus.drop_last(), day, kind);
            let j = choose|j: int| 0 <= j < menus.drop_last().len() && menu_day(menus.drop_last()[j]) == day;
            assert(menus[j] == menus.drop_last()[j]);
        }
    }
}

/// Reads the date of a meal.
pub fn menu_date(menu: &Cardapio) -> (r: Result<Date, BotejaoError>)
    ensures
        match r {
            Ok(d) => menu_date_of(menu@) == Ok::<DateView, Seq<char>>(d@) && valid_date(d@),
            Err(e) => menu_date_of(menu@) is Err && e@ == (BotejaoErrorView::InvalidDate {
                invalid_date: menu@.data,
                parse_error: menu_date_of(menu@)->Err_0,
            }),
        },
{
    match parse_date(menu.data.as_str(), "%Y-%m-%d") {
        Ok(d) => Ok(d),
        Err(parse_error) => Err(BotejaoError::InvalidDate { invalid_date: menu.data.clone(), parse_error }),
    }
}

/// Reads the kind of a meal from its `TIPO`.
pub fn kind_of_meal(menu: &Cardapio) -> (r: Result<MealKind, BotejaoError>)
    ensures
        match meal_kind_of(menu@.tipo) {
            Some(k) => r == Ok::<MealKind, BotejaoError>(k),
            None => r matches Err(e) && e@ == BotejaoErrorView::InvalidMealKind(menu@.tipo),
        },
{
    let tipo = menu.tipo.as_str();
    if same_text(tipo, "Almoço") {
        Ok(MealKind::Lunch)
    } else if same_text(tipo, "Jantar") {
        Ok(MealKind::Dinner)
    } else if same_text(tipo, "Almoço Vegetariano") {
        Ok(MealKind::VegLunch)
    } else if same_text(tipo, "Jantar Vegetariano") {
        Ok(MealKind::VegDinner)
    } else {
        Err(BotejaoError::InvalidMealKind(menu.tipo.clone()))
    }
}

impl StructuredDayMenu {
    /// A day that holds only `menu`, on `menu`'s date.
    pub fn new(menu: &Cardapio) -> (r: Result<Self, BotejaoError>)
        ensures
            r is Ok <==> menu_error(menu@) is None,
            r matches Err(e) ==> menu_error(menu@) == Some(e@),
            r matches Ok(d) ==> d@ == with_slot(
                empty_day(menu_day(menu@)),
                meal_kind_of(menu@.tipo)->Some_0,
                menu@,
            ),
            r matches Ok(d) ==> valid_date(d@.day),
    {
        let date = menu_date(menu)?;
        let mut new = Self { day: date, lunch: None, dinner: None, veg_lunch: None, veg_dinner: None };
        new.insert_menu(menu)?;
        Ok(new)
    }

    /// Puts `menu` in the slot of its kind, replacing what was there.
    pub fn insert_menu(&mut self, menu: &Cardapio) -> (r: Result<(), BotejaoError>)
        ensures
            match meal_kind_of(menu@.tipo) {
                Some(k) => r is Ok && final(self)@ == with_slot(old(self)@, k, menu@),
                None => r matches Err(e) && e@ == BotejaoErrorView::InvalidMealKind(menu@.tipo)
                    && final(self)@ == old(self)@,
            },
    {
        let kind_of_meal = kind_of_meal(menu)?;
        // If we get duplicated here we don't care, just overwrite it
        match kind_of_meal {
            MealKind::Lunch => self.lunch = Some(menu.clone()),
            MealKind::Dinner => self.dinner = Some(menu.clone()),
            MealKind::VegLunch => self.veg_lunch = Some(menu.clone()),
            MealKind::VegDinner => self.veg_dinner = Some(menu.clone()),
        }
        Ok(())
    }

    /// Whether `menu` is for this day.
    pub fn is_same_day_as(&self, menu: &Cardapio) -> (r: Result<bool, BotejaoError>)
        ensures
            match menu_date_of(menu@) {
                Ok(d) => r == Ok::<bool, BotejaoError>(self@.day == d),
                Err(pe) => r matches Err(e) && e@ == (BotejaoErrorView::InvalidDate {
                    invalid_date: menu@.data,
                    parse_error: pe,
                }),
            },
    {
        let other_date = menu_date(menu)?;
        Ok(self.day.same_day(&other_date))
    }
}


proof fn lemma_last_meal_push(p: Seq<CardapioView>, m: CardapioView, day: DateView, kind: MealKind)
    ensures
        last_meal(p.push(m), day, kind) == (if menu_day(m) == day && meal_kind_of(m.tipo) == Some(
            kind,
        ) {
            Some(m)
        } else {
            last_meal(p, day, kind)
        }),
{
    assert(p.push(m).drop_last() =~= p);
    assert(p.push(m).last() == m);
}

/// Adding a meal to the day it belongs to.
proof fn lemma_add_to_known_day(
    ds: Seq<DayMenuView>,
    p: Seq<CardapioView>,
    m: CardapioView,
    a: int,
    k: MealKind,
)
    requires
        days_ascending(ds),
        days_of_menus(ds, p),
        0 <= a < ds.len(),
        ds[a].day == menu_day(m),
        menu_error(m) is None,
        meal_kind_of(m.tipo) == Some(k),
    ensures
        days_ascending(ds.update(a, with_slot(ds[a], k, m))),
        days_of_menus(ds.update(a, with_slot(ds[a], k, m)), p.push(m)),
{
    let nds = ds.update(a, with_slot(ds[a], k, m));
    let np = p.push(m);
    assert forall|x: int, y: int| 0 <= x < y < nds.len() implies date_before(nds[x].day, nds[y].day) by {
        assert(nds[x].day == ds[x].day);
        assert(nds[y].day == ds[y].day);
    }
    assert(days_have_menus(nds, np)) by {
        reveal(days_have_menus);
        assert forall|b: int| #![trigger nds[b]] 0 <= b < nds.len() implies exists|j: int|
            #![trigger np[j]]
            0 <= j < np.len() && menu_day(np[j]) == nds[b].day by {
            assert(ds[b].day == nds[b].day);
            let j = choose|j: int| #![trigger p[j]] 0 <= j < p.len() && menu_day(p[j]) == ds[b].day;
            assert(np[j] == p[j]);
        }
    }
    assert(menus_have_days(nds, np)) by {
        reveal(menus_have_days);
        assert forall|j: int| #![trigger np[j]] 0 <= j < np.len() implies exists|b: int|
            #![trigger nds[b]]
            0 <= b < nds.len() && nds[b].day == menu_day(np[j]) by {
            if j == p.len() {
                assert(nds[a].day == menu_day(np[j]));
            } else {
                assert(np[j] == p[j]);
                let b = choose|b: int| #![trigger ds[b]] 0 <= b < ds.len() && ds[b].day == menu_day(p[j]);
                assert(nds[b].day == ds[b].day);
            }
        }
    }
    assert(slots_are_last(nds, np)) by {
        reveal(slots_are_last);
        assert forall|b: int, kk: MealKind| #![trigger slot_of(nds[b], kk)] 0 <= b < nds.len() implies slot_of(
            nds[b],
            kk,
        ) == last_meal(np, nds[b].day, kk) by {
            lemma_last_meal_push(p, m, nds[b].day, kk);
            assert(slot_of(ds[b], kk) == last_meal(p, ds[b].day, kk));
            if b < a {
                assert(date_before(ds[b].day, ds[a].day));
            } else if b > a {
                assert(date_before(ds[a].day, ds[b].day));
            }
        }
    }
}

/// Adding, at its place in the order, the day of a meal that no entry holds yet.
proof fn lemma_add_new_day(
    ds: Seq<DayMenuView>,
    p: Seq<CardapioView>,
    m: CardapioView,
    k: MealKind,
    pos: int,
)
    requires
        days_ascending(ds),
        days_of_menus(ds, p),
        forall|b: int| 0 <= b < ds.len() ==> ds[b].day != menu_day(m),
        menu_error(m) is None,
        meal_kind_of(m.tipo) == Some(k),
        0 <= pos <= ds.len(),
        pos < ds.len() ==> date_before(menu_day(m), ds[pos].day),
        forall|q: int| 0 <= q < pos ==> !date_before(menu_day(m), ds[q].day),
    ensures
        days_ascending(ds.insert(pos, with_slot(empty_day(menu_day(m)), k, m))),
        days_of_menus(ds.insert(pos, with_slot(empty_day(menu_day(m)), k, m)), p.push(m)),
{
    let nd = with_slot(empty_day(menu_day(m)), k, m);
    let nds = ds.insert(pos, nd);
    let np = p.push(m);
    let day = menu_day(m);
    assert forall|x: int, y: int| 0 <= x < y < nds.len() implies date_before(nds[x].day, nds[y].day) by {
        if y < pos {
            assert(nds[x] == ds[x]);
            assert(nds[y] == ds[y]);
        } else if y == pos {
            assert(nds[x] == ds[x]);
            lemma_date_before_total(day, ds[x].day);
        } else if x == pos {
            assert(nds[y] == ds[y - 1]);
            if y - 1 > pos {
                lemma_date_before_trans(day, ds[pos].day, ds[y - 1].day);
            }
        } else if x < pos {
            assert(nds[x] == ds[x]);
            assert(nds[y] == ds[y - 1]);
        } else {
            assert(nds[x] == ds[x - 1]);
            assert(nds[y] == ds[y - 1]);
        }
    }
    assert(days_have_menus(nds, np)) by {
        reveal(days_have_menus);
        assert forall|b: int| #![trigger nds[b]] 0 <= b < nds.len() implies exists|j: int|
            #![trigger np[j]]
            0 <= j < np.len() && menu_day(np[j]) == nds[b].day by {
            if b == pos {
                assert(np[p.len() as int] == m);
            } else {
                let c = if b < pos { b } else { b - 1 };
                assert(ds[c] == nds[b]);
                let j = choose|j: int| #![trigger p[j]] 0 <= j < p.len() && menu_day(p[j]) == ds[c].day;
                assert(np[j] == p[j]);
            }
        }
    }
    assert(menus_have_days(nds, np)) by {
        reveal(menus_have_days);
        assert forall|j: int| #![trigger np[j]] 0 <= j < np.len() implies exists|b: int|
            #![trigger nds[b]]
            0 <= b < nds.len() && nds[b].day == menu_day(np[j]) by {
            if j == p.len() {
                assert(nds[pos].day == menu_day(np[j]));
            } else {
                assert(np[j] == p[j]);
                let c = choose|c: int| #![trigger ds[c]] 0 <= c < ds.len() && ds[c].day == menu_day(p[j]);
                if c < pos {
                    assert(nds[c] == ds[c]);
                } else {
                    assert(nds[c + 1] == ds[c]);
                }
            }
        }
    }
    assert(slots_are_last(nds, np)) by {
        reveal(slots_are_last);
        assert forall|b: int, kk: MealKind| #![trigger slot_of(nds[b], kk)] 0 <= b < nds.len() implies slot_of(
            nds[b],
            kk,
        ) == last_meal(np, nds[b].day, kk) by {
            lemma_last_meal_push(p, m, nds[b].day, kk);
            if b == pos {
                if last_meal(p, day, kk) is Some {
                    lemma_last_meal_has_day(p, day, kk);
                    let j = choose|j: int| 0 <= j < p.len() && menu_day(p[j]) == day;
                    reveal(menus_have_days);
                    let c = choose|c: int| #![trigger ds[c]] 0 <= c < ds.len() && ds[c].day == menu_day(p[j]);
                    assert(ds[c].day != day);
                }
            } else {
                let c = if b < pos { b } else { b - 1 };
                assert(nds[b] == ds[c]);
                assert(slot_of(ds[c], kk) == last_meal(p, ds[c].day, kk));
            }
        }
    }
}

/// Chronological order is transitive.
proof fn lemma_date_before_trans(a: DateView, b: DateView, c: DateView)
    requires
        date_before(a, b),
        date_before(b, c),
    ensures
        date_before(a, c),
{
}

/// Of two different days, one comes before the other.
proof fn lemma_date_before_total(a: DateView, b: DateView)
    requires
        a != b,
        !date_before(a, b),
    ensures
        date_before(b, a),
{
}

/// The index of the first of `days` that comes after `day`, or the number of days.
fn insertion_index(days: &Vec<StructuredDayMenu>, day: &Date) -> (pos: usize)
    ensures
        pos <= days.len(),
        pos < days.len() ==> date_before(day@, days@[pos as int].day@),
        forall|q: int| 0 <= q < pos ==> !date_before(day@, days@[q].day@),
{
    let len = days.len();
    let mut pos: usize = 0;
    while pos < len
        invariant
            len == days.len(),
            pos <= len,
            forall|q: int| 0 <= q < pos ==> !date_before(day@, days@[q].day@),
        decreases len - pos,
    {
        if day.is_before(&days[pos].day) {
            return pos;
        }
        pos = pos + 1;
    }
    pos
}

/// The index of the entry of `days` that is for `menu`'s day, if there is one.
fn find_day(days: &Vec<StructuredDayMenu>, menu: &Cardapio) -> (r: Result<Option<usize>, BotejaoError>)
    ensures
        match r {
            Err(e) => days.len() > 0 && menu_date_of(menu@) is Err && menu_error(menu@) == Some(e@),
            Ok(Some(a)) => a < days.len() && menu_date_of(menu@) is Ok && days@[a as int]@.day == menu_day(
                menu@,
            ),
            Ok(None) => (days.len() > 0 ==> menu_date_of(menu@) is Ok) && forall|b: int|
                0 <= b < days.len() ==> days@[b]@.day != menu_day(menu@),
        },
{
    let len = days.len();
    let mut a: usize = 0;
    while a < len
        invariant
            len == days.len(),
            a <= len,
            forall|b: int| 0 <= b < a ==> days@[b]@.day != menu_day(menu@),
            a > 0 ==> menu_date_of(menu@) is Ok,
        decreases len - a,
    {
        if days[a].is_same_day_as(menu)? {
            return Ok(Some(a));
        }
        a = a + 1;
    }
    Ok(None)
}

impl StructuredWeekMenus {
    /// Groups the meals by day, one entry per date, the days from the earliest to the latest.
    /// A later meal of the same kind on the same day replaces an earlier one. The first meal
    /// whose date cannot be read, or whose kind is unknown, makes it fail.
    pub fn from_week_menu(week_menu: WeekMenu) -> (r: Result<Self, BotejaoError>)
        ensures
            r is Ok <==> forall|j: int| 0 <= j < week_menu@.len() ==> menu_error(week_menu@[j]) is None,
            r matches Err(e) ==> first_menu_error(week_menu@, e@),
            r matches Ok(w) ==> week_of_menus(w@, week_menu@),
            r matches Ok(w) ==> forall|i: int| 0 <= i < w@.len() ==> valid_date(#[trigger] w@[i].day),
    {
        let ghost menus = week_menu@;
        let mut structured_day_menus: Vec<StructuredDayMenu> = Vec::new();
        let n = week_menu.menus.len();
        let mut i: usize = 0;
        proof {
            let e = day_views(structured_day_menus@);
            assert(e =~= Seq::<DayMenuView>::empty());
            reveal(days_have_menus);
            reveal(menus_have_days);
            reveal(slots_are_last);
        }
        // Find a matching day for this menu and insert it there. If none exist, create one,
        // in its place among the days, so that they stay ordered from the earliest.
        while i < n
            invariant
                n == week_menu.menus@.len(),
                menus == week_menu@,
                i <= n,
                forall|j: int| 0 <= j < i ==> menu_error(menus[j]) is None,
                days_ascending(day_views(structured_day_menus@)),
                days_of_menus(day_views(structured_day_menus@), menus.take(i as int)),
                forall|b: int|
                    0 <= b < structured_day_menus@.len() ==> valid_date(
                        #[trigger] structured_day_menus@[b]@.day,
                    ),
            decreases n - i,
        {
            let new_menu = &week_menu.menus[i];
            let ghost m = menus[i as int];
            let ghost p = menus.take(i as int);
            let ghost ds = day_views(structured_day_menus@);
            assert(new_menu@ == m);
            assert(menus.take(i + 1) =~= p.push(m));
            let found = match find_day(&structured_day_menus, new_menu) {
                Ok(found) => found,
                Err(e) => {
                    assert(first_menu_error(menus, e@)) by {
                        assert(menu_error(menus[i as int]) == Some(e@));
                    }
                    return Err(e);
                },
            };
            match found {
                Some(a) => {
                    assert(structured_day_menus@[a as int]@ == ds[a as int]);
                    let mut day = structured_day_menus.remove(a);
                    match day.insert_menu(new_menu) {
                        Ok(()) => {},
                        Err(e) => {
                            assert(first_menu_error(menus, e@)) by {
                                assert(menu_error(menus[i as int]) == Some(e@));
                            }
                            return Err(e);
                        },
                    }
                    structured_day_menus.insert(a, day);
                    proof {
                        let k = meal_kind_of(m.tipo)->Some_0;
                        lemma_add_to_known_day(ds, p, m, a as int, k);
                        assert(day_views(structured_day_menus@) =~= ds.update(
                            a as int,
                            with_slot(ds[a as int], k, m),
                        ));
                    }
                },
                None => {
                    let new_day = match StructuredDayMenu::new(new_menu) {
                        Ok(d) => d,
                        Err(e) => {
                            assert(first_menu_error(menus, e@)) by {
                                assert(menu_error(menus[i as int]) == Some(e@));
                            }
                            return Err(e);
                        },
                    };
                    let pos = insertion_index(&structured_day_menus, &new_day.day);
                    proof {
                        assert forall|b: int| 0 <= b < ds.len() implies ds[b].day != menu_day(m)
                            && ds[b].day == structured_day_menus@[b].day@ by {
                            assert(ds[b] == structured_day_menus@[b]@);
                        }
                    }
                    structured_day_menus.insert(pos, new_day);
                    proof {
                        let k = meal_kind_of(m.tipo)->Some_0;
                        lemma_add_new_day(ds, p, m, k, pos as int);
                        assert(day_views(structured_day_menus@) =~= ds.insert(
                            pos as int,
                            with_slot(empty_day(menu_day(m)), k, m),
                        ));
                    }
                },
            }
            i = i + 1;
        }
        assert(menus.take(n as int) =~= menus);
        Ok(Self { next_menus: structured_day_menus })
    }
}

/// Some entry of `days` is for `day`.
pub open spec fn has_day(days: Seq<DayMenuView>, day: DateView) -> bool {
    exists|a: int| 0 <= a < days.len() && days[a].day == day
}

/// No two different meals are for the same day and kind.
pub open spec fn no_conflicting_meals(menus: Seq<CardapioView>) -> bool {
    forall|i: int, j: int|
        0 <= i < menus.len() && 0 <= j < menus.len() && menu_day(menus[i]) == menu_day(menus[j])
            && meal_kind_of(menus[i].tipo) == meal_kind_of(menus[j].tipo) ==> menus[i] == menus[j]
}

proof fn lemma_last_meal_found(menus: Seq<CardapioView>, day: DateView, kind: MealKind)
    ensures
        last_meal(menus, day, kind) matches Some(c) ==> menus.contains(c) && menu_day(c) == day
            && meal_kind_of(c.tipo) == Some(kind),
        last_meal(menus, day, kind) is None ==> forall|j: int|
            0 <= j < menus.len() ==> !(menu_day(menus[j]) == day && meal_kind_of(menus[j].tipo) == Some(
                kind,
            )),
    decreases menus.len(),
{
    if menus.len() > 0 {
        let rest = menus.drop_last();
        lemma_last_meal_found(rest, day, kind);
        if let Some(c) = last_meal(rest, day, kind) {
            let j = choose|j: int| 0 <= j < rest.len() && rest[j] == c;
            assert(menus[j] == c);
        }
        assert forall|j: int| 0 <= j < rest.len() implies menus[j] == rest[j] by {}
        assert(menus[menus.len() - 1] == menus.last());
    }
}

/// Two ascending sequences of days holding the same days hold them at the same places.
proof fn lemma_ascending_days_unique(s: Seq<DayMenuView>, t: Seq<DayMenuView>)
    requires
        days_ascending(s),
        days_ascending(t),
        forall|d: DateView| #![trigger has_day(s, d)] #![trigger has_day(t, d)] has_day(s, d) <==> has_day(t, d),
    ensures
        s.len() == t.len(),
        forall|i: int| 0 <= i < s.len() ==> s[i].day == t[i].day,
    decreases s.len(),
{
    if s.len() == 0 {
        if t.len() > 0 {
            assert(has_day(t, t[0].day));
        }
    } else if t.len() == 0 {
        assert(has_day(s, s[0].day));
    } else {
        assert(has_day(s, s[0].day));
        assert(has_day(t, s[0].day));
        let b = choose|b: int| 0 <= b < t.len() && t[b].day == s[0].day;
        assert(has_day(t, t[0].day));
        assert(has_day(s, t[0].day));
        let a = choose|a: int| 0 <= a < s.len() && s[a].day == t[0].day;
        if b > 0 {
            assert(date_before(t[0].day, t[b].day));
            if a > 0 {
                assert(date_before(s[0].day, s[a].day));
                lemma_date_before_trans(s[0].day, t[0].day, s[0].day);
            }
        }
        assert(s[0].day == t[0].day);
        let s2 = s.drop_first();
        let t2 = t.drop_first();
        assert forall|d: DateView| #![trigger has_day(s2, d)] #![trigger has_day(t2, d)] has_day(s2, d) <==> has_day(t2, d) by {
            if has_day(s2, d) {
                let a = choose|a: int| 0 <= a < s2.len() && s2[a].day == d;
                assert(s[a + 1].day == d);
                assert(has_day(s, d));
                assert(date_before(s[0].day, s[a + 1].day));
                assert(has_day(t, d));
                let b = choose|b: int| 0 <= b < t.len() && t[b].day == d;
                assert(b != 0);
                assert(t2[b - 1].day == d);
                assert(has_day(t2, d));
            }
            if has_day(t2, d) {
                let b = choose|b: int| 0 <= b < t2.len() && t2[b].day == d;
                assert(t[b + 1].day == d);
                assert(has_day(t, d));
                assert(date_before(t[0].day, t[b + 1].day));
                assert(has_day(s, d));
                let a = choose|a: int| 0 <= a < s.len() && s[a].day == d;
                assert(a != 0);
                assert(s2[a - 1].day == d);
                assert(has_day(s2, d));
            }
        }
        lemma_ascending_days_unique(s2, t2);
        assert forall|i: int| 0 <= i < s.len() implies s[i].day == t[i].day by {
            if i > 0 {
                assert(s[i] == s2[i - 1]);
                assert(t[i] == t2[i - 1]);
            }
        }
    }
}

proof fn lemma_same_meals(m1: Seq<CardapioView>, m2: Seq<CardapioView>)
    requires
        m1.to_multiset() == m2.to_multiset(),
    ensures
        forall|c: CardapioView| m1.contains(c) <==> m2.contains(c),
{
    m1.to_multiset_ensures();
    m2.to_multiset_ensures();
    assert forall|c: CardapioView| m1.contains(c) <==> m2.contains(c) by {
        assert(m1.to_multiset().count(c) == m2.to_multiset().count(c));
        assert(m1.contains(c) <==> m1.to_multiset().count(c) > 0);
        assert(m2.contains(c) <==> m2.to_multiset().count(c) > 0);
    }
}

proof fn lemma_same_days(
    w1: Seq<DayMenuView>,
    w2: Seq<DayMenuView>,
    m1: Seq<CardapioView>,
    m2: Seq<CardapioView>,
)
    requires
        days_of_menus(w1, m1),
        days_of_menus(w2, m2),
        forall|c: CardapioView| m1.contains(c) <==> m2.contains(c),
    ensures
        forall|d: DateView| #![trigger has_day(w1, d)] #![trigger has_day(w2, d)] has_day(w1, d) <==> has_day(w2, d),
{
    reveal(days_have_menus);
    reveal(menus_have_days);
    assert forall|d: DateView| #![trigger has_day(w1, d)] #![trigger has_day(w2, d)] has_day(w1, d) <==> has_day(w2, d) by {
        if has_day(w1, d) {
            let a = choose|a: int| 0 <= a < w1.len() && w1[a].day == d;
            let j = choose|j: int| #![trigger m1[j]] 0 <= j < m1.len() && menu_day(m1[j]) == w1[a].day;
            assert(m1.contains(m1[j]));
            let j2 = choose|j2: int| 0 <= j2 < m2.len() && m2[j2] == m1[j];
            let b = choose|b: int| #![trigger w2[b]] 0 <= b < w2.len() && w2[b].day == menu_day(m2[j2]);
            assert(has_day(w2, d));
        }
        if has_day(w2, d) {
            let b = choose|b: int| 0 <= b < w2.len() && w2[b].day == d;
            let j = choose|j: int| #![trigger m2[j]] 0 <= j < m2.len() && menu_day(m2[j]) == w2[b].day;
            assert(m2.contains(m2[j]));
            let j1 = choose|j1: int| 0 <= j1 < m1.len() && m1[j1] == m2[j];
            let a = choose|a: int| #![trigger w1[a]] 0 <= a < w1.len() && w1[a].day == menu_day(m1[j1]);
            assert(has_day(w1, d));
        }
    }
}

proof fn lemma_same_last_meal(m1: Seq<CardapioView>, m2: Seq<CardapioView>, d: DateView, k: MealKind)
    requires
        forall|c: CardapioView| m1.contains(c) <==> m2.contains(c),
        no_conflicting_meals(m1),
    ensures
        last_meal(m1, d, k) == last_meal(m2, d, k),
{
    lemma_last_meal_found(m1, d, k);
    lemma_last_meal_found(m2, d, k);
    if let Some(c1) = last_meal(m1, d, k) {
        let j = choose|j: int| 0 <= j < m1.len() && m1[j] == c1;
        assert(m2.contains(c1));
        let j2 = choose|j2: int| 0 <= j2 < m2.len() && m2[j2] == c1;
        if let Some(c2) = last_meal(m2, d, k) {
            assert(m1.contains(c2));
            let j3 = choose|j3: int| 0 <= j3 < m1.len() && m1[j3] == c2;
            assert(m1[j] == m1[j3]);
        }
    } else if let Some(c2) = last_meal(m2, d, k) {
        assert(m1.contains(c2));
        let j3 = choose|j3: int| 0 <= j3 < m1.len() && m1[j3] == c2;
    }
}

/// The week built from some meals does not depend on the order in which the meals come, as
/// long as no two different meals are for the same day and kind.
pub proof fn law_meal_order_does_not_matter(
    w1: Seq<DayMenuView>,
    w2: Seq<DayMenuView>,
    m1: Seq<CardapioView>,
    m2: Seq<CardapioView>,
)
    requires
        week_of_menus(w1, m1),
        week_of_menus(w2, m2),
        m1.to_multiset() == m2.to_multiset(),
        no_conflicting_meals(m1),
    ensures
        w1 == w2,
{
    lemma_same_meals(m1, m2);
    lemma_same_days(w1, w2, m1, m2);
    lemma_ascending_days_unique(w1, w2);
    assert forall|i: int| 0 <= i < w1.len() implies w1[i] == w2[i] by {
        let d = w1[i].day;
        reveal(slots_are_last);
        assert forall|k: MealKind| slot_of(w1[i], k) == slot_of(w2[i], k) by {
            assert(slot_of(w1[i], k) == last_meal(m1, d, k));
            assert(slot_of(w2[i], k) == last_meal(m2, d, k));
            lemma_same_last_meal(m1, m2, d, k);
        }
        assert(slot_of(w1[i], MealKind::Lunch) == slot_of(w2[i], MealKind::Lunch));
        assert(slot_of(w1[i], MealKind::Dinner) == slot_of(w2[i], MealKind::Dinner));
        assert(slot_of(w1[i], MealKind::VegLunch) == slot_of(w2[i], MealKind::VegLunch));
        assert(slot_of(w1[i], MealKind::VegDinner) == slot_of(w2[i], MealKind::VegDinner));
    }
    assert(w1 =~= w2);
}

/// The days of a week built from some meals run in calendar order, the earliest first.
pub proof fn law_week_in_calendar_order(w: Seq<DayMenuView>, menus: Seq<CardapioView>)
    requires
        week_of_menus(w, menus),
        forall|i: int| 0 <= i < w.len() ==> valid_date(#[trigger] w[i].day),
    ensures
        forall|i: int, j: int|
            0 <= i < j < w.len() ==> days_from_ce(#[trigger] w[i].day) < days_from_ce(
                #[trigger] w[j].day,
            ),
{
    assert forall|i: int, j: int| 0 <= i < j < w.len() implies days_from_ce(#[trigger] w[i].day)
        < days_from_ce(#[trigger] w[j].day) by {
        law_date_order_is_chronological(w[i].day, w[j].day);
    }
}

} // verus!
