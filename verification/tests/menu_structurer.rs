use botejao::unicamp_menu::menu_structurer::kind_of_meal;
use botejao::{BotejaoError, Cardapio, MealKind, StructuredDayMenu, StructuredWeekMenus, WeekMenu};

fn meal(data: &str, tipo: &str) -> Cardapio {
    Cardapio {
        data: data.to_string(),
        tipo: tipo.to_string(),
        acompanhamento: "".to_string(),
        prato_principal: "".to_string(),
        guarnicao: "".to_string(),
        pts: "".to_string(),
        salada: "".to_string(),
        sobremesa: "".to_string(),
        suco: "".to_string(),
        obs: "".to_string(),
    }
}

#[test]
fn test_menu_ordering() {
    let cardapio0 = Cardapio {
        data: "2020-03-09".to_string(),
        tipo: "Almoço".to_string(),
        acompanhamento: "".to_string(),
        prato_principal: "".to_string(),
        guarnicao: "".to_string(),
        pts: "".to_string(),
        salada: "".to_string(),
        sobremesa: "".to_string(),
        suco: "".to_string(),
        obs: "".to_string(),
    };
    let cardapio1 = Cardapio {
        data: "2020-03-10".to_string(),
        tipo: "Jantar".to_string(),
        acompanhamento: "".to_string(),
        prato_principal: "".to_string(),
        guarnicao: "".to_string(),
        pts: "".to_string(),
        salada: "".to_string(),
        sobremesa: "".to_string(),
        suco: "".to_string(),
        obs: "".to_string(),
    };
    let cardapio2 = Cardapio {
        data: "2020-03-11".to_string(),
        tipo: "Jantar".to_string(),
        acompanhamento: "".to_string(),
        prato_principal: "".to_string(),
        guarnicao: "".to_string(),
        pts: "".to_string(),
        salada: "".to_string(),
        sobremesa: "".to_string(),
        suco: "".to_string(),
        obs: "".to_string(),
    };
    let week_menu_ordered = WeekMenu {
        menus: vec![cardapio0.clone(), cardapio1.clone(), cardapio2.clone()],
    };
    let week_menu_unordered = WeekMenu {
        menus: vec![cardapio0.clone(), cardapio1.clone(), cardapio2.clone()],
    };
    let structured_ord = StructuredWeekMenus::from_week_menu(week_menu_ordered).unwrap();
    let structured_unord = StructuredWeekMenus::from_week_menu(week_menu_unordered).unwrap();
    assert_eq!(structured_ord.next_menus, structured_unord.next_menus);
    assert!(structured_ord.next_menus[0].day < structured_ord.next_menus[1].day);
    assert!(structured_ord.next_menus[1].day < structured_ord.next_menus[2].day);
}

#[test]
fn test_can_translate_menu_to_struct() {
    let cardapio0 = Cardapio {
        data: "2020-03-09".to_string(),
        tipo: "Almoço".to_string(),
        acompanhamento: "Acomp".to_string(),
        prato_principal: "Prato".to_string(),
        guarnicao: "Guarn".to_string(),
        pts: "Pts".to_string(),
        salada: "Salad".to_string(),
        sobremesa: "Sobrem".to_string(),
        suco: "Suc".to_string(),
        obs: "Some".to_string(),
    };
    let week_menu = WeekMenu { menus: vec![cardapio0.clone()] };
    let structured_week_menu = StructuredWeekMenus::from_week_menu(week_menu).unwrap();
    assert_eq!(structured_week_menu.next_menus.len(), 1);
    let menu = &structured_week_menu.next_menus[0];
    assert_eq!(menu.lunch, Some(cardapio0));
    assert_eq!(menu.dinner, None);
    assert_eq!(menu.veg_lunch, None);
    assert_eq!(menu.veg_dinner, None);
}

#[test]
fn unordered_meals_give_ascending_days() {
    let week = WeekMenu {
        menus: vec![
            meal("2020-03-11", "Jantar"),
            meal("2020-03-09", "Almoço"),
            meal("2020-03-10", "Jantar Vegetariano"),
            meal("2020-03-09", "Almoço Vegetariano"),
        ],
    };
    let structured = StructuredWeekMenus::from_week_menu(week).unwrap();
    let days: Vec<(i32, u32, u32)> = structured
        .next_menus
        .iter()
        .map(|d| (d.day.year(), d.day.month(), d.day.day()))
        .collect();
    assert_eq!(days, vec![(2020, 3, 9), (2020, 3, 10), (2020, 3, 11)]);
    assert_eq!(structured.next_menus[0].lunch, Some(meal("2020-03-09", "Almoço")));
    assert_eq!(structured.next_menus[0].veg_lunch, Some(meal("2020-03-09", "Almoço Vegetariano")));
    assert_eq!(structured.next_menus[1].veg_dinner, Some(meal("2020-03-10", "Jantar Vegetariano")));
    assert_eq!(structured.next_menus[2].dinner, Some(meal("2020-03-11", "Jantar")));
}

#[test]
fn meal_order_does_not_change_the_week() {
    let a = vec![
        meal("2020-03-10", "Jantar"),
        meal("2020-03-09", "Almoço"),
        meal("2020-03-12", "Almoço Vegetariano"),
        meal("2020-03-09", "Jantar"),
    ];
    let mut b = a.clone();
    b.reverse();
    let wa = StructuredWeekMenus::from_week_menu(WeekMenu { menus: a }).unwrap();
    let wb = StructuredWeekMenus::from_week_menu(WeekMenu { menus: b }).unwrap();
    assert_eq!(wa, wb);
}

#[test]
fn later_meal_of_same_kind_replaces_earlier() {
    let mut first = meal("2020-03-09", "Almoço");
    first.prato_principal = "Frango".to_string();
    let mut second = meal("2020-03-09", "Almoço");
    second.prato_principal = "Peixe".to_string();
    let w = StructuredWeekMenus::from_week_menu(WeekMenu { menus: vec![first, second.clone()] }).unwrap();
    assert_eq!(w.next_menus.len(), 1);
    assert_eq!(w.next_menus[0].lunch, Some(second));
}

#[test]
fn empty_week_menu_gives_no_days() {
    let w = StructuredWeekMenus::from_week_menu(WeekMenu { menus: vec![] }).unwrap();
    assert!(w.next_menus.is_empty());
}

#[test]
fn invalid_date_is_reported() {
    let r = StructuredWeekMenus::from_week_menu(WeekMenu {
        menus: vec![meal("2020-03-09", "Almoço"), meal("09/03/2020", "Almoço")],
    });
    match r {
        Err(BotejaoError::InvalidDate { invalid_date, parse_error }) => {
            assert_eq!(invalid_date, "09/03/2020");
            assert!(!parse_error.is_empty());
        }
        other => panic!("unexpected {:?}", other),
    }
}

#[test]
fn invalid_meal_kind_is_reported() {
    let r = StructuredWeekMenus::from_week_menu(WeekMenu {
        menus: vec![meal("2020-03-09", "Almoço"), meal("2020-03-10", "Lanche")],
    });
    match r {
        Err(BotejaoError::InvalidMealKind(kind)) => assert_eq!(kind, "Lanche"),
        other => panic!("unexpected {:?}", other),
    }
}

#[test]
fn first_bad_meal_decides_the_error() {
    let r = StructuredWeekMenus::from_week_menu(WeekMenu {
        menus: vec![meal("2020-03-10", "Lanche"), meal("bad", "Almoço")],
    });
    assert!(matches!(r, Err(BotejaoError::InvalidMealKind(_))));
}

#[test]
fn kind_of_meal_reads_each_kind() {
    assert!(matches!(kind_of_meal(&meal("2020-03-09", "Almoço")), Ok(MealKind::Lunch)));
    assert!(matches!(kind_of_meal(&meal("2020-03-09", "Jantar")), Ok(MealKind::Dinner)));
    assert!(matches!(kind_of_meal(&meal("2020-03-09", "Almoço Vegetariano")), Ok(MealKind::VegLunch)));
    assert!(matches!(kind_of_meal(&meal("2020-03-09", "Jantar Vegetariano")), Ok(MealKind::VegDinner)));
    assert!(matches!(kind_of_meal(&meal("2020-03-09", "almoço")), Err(BotejaoError::InvalidMealKind(_))));
}

#[test]
fn day_menu_insert_and_same_day() {
    let mut day = StructuredDayMenu::new(&meal("2020-03-09", "Jantar")).unwrap();
    assert_eq!((day.day.year(), day.day.month(), day.day.day()), (2020, 3, 9));
    assert_eq!(day.dinner, Some(meal("2020-03-09", "Jantar")));
    assert!(day.insert_menu(&meal("2020-03-09", "Almoço")).is_ok());
    assert_eq!(day.lunch, Some(meal("2020-03-09", "Almoço")));
    assert!(day.insert_menu(&meal("2020-03-09", "Café")).is_err());
    assert_eq!(day.is_same_day_as(&meal("2020-03-09", "Almoço")).unwrap(), true);
    assert_eq!(day.is_same_day_as(&meal("2020-03-10", "Almoço")).unwrap(), false);
    assert!(day.is_same_day_as(&meal("x", "Almoço")).is_err());
}
