use vstd::prelude::*;

pub use super::date::{Date, DateView};

verus! {

/// The list of meals that the restaurant publishes for the coming days.
#[derive(Default, Debug, Clone, PartialEq)]
pub struct WeekMenu {
    pub menus: Vec<Cardapio>,
}

/// One published meal, as the restaurant's service describes it.
#[derive(Default, Debug, PartialEq)]
pub struct Cardapio {
    pub data: String,
    pub tipo: String,
    pub acompanhamento: String,
    pub prato_principal: String,
    pub guarnicao: String,
    pub pts: String,
    pub salada: String,
    pub sobremesa: String,
    pub suco: String,
    pub obs: String,
}

impl Clone for Cardapio {
    fn clone(&self) -> (r: Self)
        ensures
            r == *self,
    {
        Cardapio {
            data: self.data.clone(),
            tipo: self.tipo.clone(),
            acompanhamento: self.acompanhamento.clone(),
            prato_principal: self.prato_principal.clone(),
            guarnicao: self.guarnicao.clone(),
            pts: self.pts.clone(),
            salada: self.salada.clone(),
            sobremesa: self.sobremesa.clone(),
            suco: self.suco.clone(),
            obs: self.obs.clone(),
        }
    }
}

/// The text of every field of a [`Cardapio`].
pub struct CardapioView {
    pub data: Seq<char>,
    pub tipo: Seq<char>,
    pub acompanhamento: Seq<char>,
    pub prato_principal: Seq<char>,
    pub guarnicao: Seq<char>,
    pub pts: Seq<char>,
    pub salada: Seq<char>,
    pub sobremesa: Seq<char>,
    pub suco: Seq<char>,
    pub obs: Seq<char>,
}

impl View for Cardapio {
    type V = CardapioView;

    open spec fn view(&self) -> CardapioView {
        CardapioView {
            data: self.data@,
            tipo: self.tipo@,
            acompanhamento: self.acompanhamento@,
            prato_principal: self.prato_principal@,
            guarnicao: self.guarnicao@,
            pts: self.pts@,
            salada: self.salada@,
            sobremesa: self.sobremesa@,
            suco: self.suco@,
            obs: self.obs@,
        }
    }
}

impl View for WeekMenu {
    type V = Seq<CardapioView>;

    open spec fn view(&self) -> Seq<CardapioView> {
        self.menus@.map_values(|c: Cardapio| c@)
    }
}

impl Cardapio {
    /// Whether every field of the two meals holds the same text.
    pub fn same_as(&self, other: &Cardapio) -> (r: bool)
        ensures
            r == (self@ == other@),
    {
        self.data == other.data && self.tipo == other.tipo && self.acompanhamento
            == other.acompanhamento && self.prato_principal == other.prato_principal
            && self.guarnicao == other.guarnicao && self.pts == other.pts && self.salada
            == other.salada && self.sobremesa == other.sobremesa && self.suco == other.suco
            && self.obs == other.obs
    }
}

fn same_slot(a: &Option<Cardapio>, b: &Option<Cardapio>) -> (r: bool)
    ensures
        r == (option_view(*a) == option_view(*b)),
{
    match (a, b) {
        (Some(x), Some(y)) => x.same_as(y),
        (None, None) => true,
        _ => false,
    }
}

/// The kinds of meal that a day can have.
#[derive(Debug, Clone, Copy, PartialEq, Eq, Structural)]
pub enum MealKind {
    Lunch,
    Dinner,
    VegLunch,
    VegDinner,
}

/// The meals of one day, at most one of each kind.
#[derive(Debug, Clone, PartialEq)]
pub struct StructuredDayMenu {
    pub day: Date,
    pub lunch: Option<Cardapio>,
    pub dinner: Option<Cardapio>,
    pub veg_lunch: Option<Cardapio>,
    pub veg_dinner: Option<Cardapio>,
}

/// The mathematical value of a [`StructuredDayMenu`].
pub struct DayMenuView {
    pub day: DateView,
    pub lunch: Option<CardapioView>,
    pub dinner: Option<CardapioView>,
    pub veg_lunch: Option<CardapioView>,
    pub veg_dinner: Option<CardapioView>,
}

pub open spec fn option_view(o: Option<Cardapio>) -> Option<CardapioView> {
    match o {
        Some(c) => Some(c@),
        None => None,
    }
}

impl View for StructuredDayMenu {
    type V = DayMenuView;

    open spec fn view(&self) -> DayMenuView {
        DayMenuView {
            day: self.day@,
            lunch: option_view(self.lunch),
            dinner: option_view(self.dinner),
            veg_lunch: option_view(self.veg_lunch),
            veg_dinner: option_view(self.veg_dinner),
        }
    }
}

impl StructuredDayMenu {
    /// Whether the two days are the same date and hold the same meals.
    pub fn same_as(&self, other: &StructuredDayMenu) -> (r: bool)
        ensures
            r == (self@ == other@),
    {
        self.day.same_day(&other.day) && same_slot(&self.lunch, &other.lunch) && same_slot(
            &self.dinner,
            &other.dinner,
        ) && same_slot(&self.veg_lunch, &other.veg_lunch) && same_slot(
            &self.veg_dinner,
            &other.veg_dinner,
        )
    }
}

/// The slot of a day's menu that holds the meal of the given kind.
pub open spec fn slot_of(d: DayMenuView, kind: MealKind) -> Option<CardapioView> {
    match kind {
        MealKind::Lunch => d.lunch,
        MealKind::Dinner => d.dinner,
        MealKind::VegLunch => d.veg_lunch,
        MealKind::VegDinner => d.veg_dinner,
    }
}

/// The menus of the coming days.
#[derive(Debug, Default, PartialEq)]
pub struct StructuredWeekMenus {
    /// Should be ordered by earliest to latest day
    pub next_menus: Vec<StructuredDayMenu>,
}

impl View for StructuredWeekMenus {
    type V = Seq<DayMenuView>;

    open spec fn view(&self) -> Seq<DayMenuView> {
        self.next_menus@.map_values(|d: StructuredDayMenu| d@)
    }
}

impl StructuredWeekMenus {
    /// Whether the two weeks hold the same days, in the same order, with the same meals.
    pub fn same_as(&self, other: &StructuredWeekMenus) -> (r: bool)
        ensures
            r == (self@ == other@),
    {
        let n = self.next_menus.len();
        if n != other.next_menus.len() {
            assert(self@.len() != other@.len());
            return false;
        }
        let mut i: usize = 0;
        while i < n
            invariant
                n == self.next_menus@.len(),
                n == other.next_menus@.len(),
                i <= n,
                forall|j: int| 0 <= j < i ==> self@[j] == other@[j],
            decreases n - i,
        {
            if !self.next_menus[i].same_as(&other.next_menus[i]) {
                assert(self@[i as int] != other@[i as int]);
                return false;
            }
            i = i + 1;
        }
        assert(self@ =~= other@);
        true
    }
}

} // verus!
