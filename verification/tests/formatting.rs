use botejao::formatting::{
    format_cardapio, format_day_menu, format_week_menu, uppercase_first_letter, weekday_to_portuguese,
};
use botejao::menu_updates::{apply_new_menu, next_wait_secs};
use botejao::unicamp_menu::date::Weekday;
use botejao::unicamp_menu::menu_from_response;
use botejao::{BotejaoError, Cardapio, MealKind, StructuredDayMenu, StructuredWeekMenus, WeekMenu};

fn menu_item(data: &str, tipo: &str, prato: &str, pts: &str) -> Cardapio {
    Cardapio {
        data: data.to_string(),
        tipo: tipo.to_string(),
        acompanhamento: "ARROZ E FEIJÃO".to_string(),
        prato_principal: prato.to_string(),
        guarnicao: "PURÊ".to_string(),
        pts: pts.to_string(),
        salada: "ALFACE".to_string(),
        sobremesa: "FRUTA".to_string(),
        suco: "LARANJA".to_string(),
        obs: "".to_string(),
    }
}

const LINK: &str = "<a href=\"https://www.prefeitura.unicamp.br/servicos/divisao-de-alimentacao/cardapio-dos-restaurantes\">Cardapio Online</a>\n\n";

#[test]
fn weekday_names_in_portuguese() {
    assert_eq!(weekday_to_portuguese(Weekday::Mon), "Segunda");
    assert_eq!(weekday_to_portuguese(Weekday::Tue), "Terça");
    assert_eq!(weekday_to_portuguese(Weekday::Wed), "Quarta");
    assert_eq!(weekday_to_portuguese(Weekday::Thu), "Quinta");
    assert_eq!(weekday_to_portuguese(Weekday::Fri), "Sexta");
    assert_eq!(weekday_to_portuguese(Weekday::Sat), "Sábado");
    assert_eq!(weekday_to_portuguese(Weekday::Sun), "Domingo");
}

#[test]
fn uppercase_first_letter_cases() {
    assert_eq!(uppercase_first_letter("frango assado"), "Frango assado");
    assert_eq!(uppercase_first_letter(""), "");
    assert_eq!(uppercase_first_letter("ébano"), "Ébano");
    assert_eq!(uppercase_first_letter("ß"), "SS");
    assert_eq!(uppercase_first_letter("Já"), "Já");
}

#[test]
fn cardapio_with_pts() {
    let text = format_cardapio(&menu_item("2020-03-09", "Almoço", "FRANGO ASSADO", "ARROZ INTEGRAL"), MealKind::Lunch);
    assert_eq!(
        text,
        "🍲 <b>Almoço</b>:\n🍗 Frango assado\n🌾 Arroz integral\n🥬 Alface\n🍦 Fruta\n🧃 Suco de laranja\n"
    );
}

#[test]
fn cardapio_without_pts_and_emojis() {
    let m = menu_item("2020-03-09", "Jantar", "CARNE", "NÃO INFORMADO");
    assert_eq!(
        format_cardapio(&m, MealKind::Dinner),
        "🍲 <b>Jantar</b>:\n🍖 Carne\n🥬 Alface\n🍦 Fruta\n🧃 Suco de laranja\n"
    );
    assert!(format_cardapio(&m, MealKind::VegLunch).contains("🥕 Carne\n"));
    assert!(format_cardapio(&m, MealKind::VegDinner).contains("🥒 Carne\n"));
}

#[test]
fn day_menu_text() {
    let mut day = StructuredDayMenu::new(&menu_item("2020-03-10", "Almoço", "PEIXE", "NÃO INFORMADO")).unwrap();
    day.insert_menu(&menu_item("2020-03-10", "Jantar Vegetariano", "TOFU", "NÃO INFORMADO")).unwrap();
    let text = format_day_menu(&day);
    assert_eq!(
        text,
        "******* <b>TERÇA 10/03/2020</b> ******* \n\
         🍲 <b>Almoço</b>:\n🍗 Peixe\n🥬 Alface\n🍦 Fruta\n🧃 Suco de laranja\n\n\
         🍲 <b>Jantar Vegetariano</b>:\n🥒 Tofu\n🥬 Alface\n🍦 Fruta\n🧃 Suco de laranja\n\n"
    );
}

#[test]
fn empty_day_menu_is_its_title() {
    let mut day = StructuredDayMenu::new(&menu_item("2020-03-14", "Almoço", "X", "")).unwrap();
    day.lunch = None;
    assert_eq!(format_day_menu(&day), "******* <b>SÁBADO 14/03/2020</b> ******* \n");
}

#[test]
fn week_menu_text() {
    let week = StructuredWeekMenus::from_week_menu(WeekMenu {
        menus: vec![menu_item("2020-03-09", "Almoço", "PEIXE", "NÃO INFORMADO")],
    })
    .unwrap();
    let expected = format!(
        "{}******* <b>SEGUNDA 09/03/2020</b> ******* \n🍲 <b>Almoço</b>:\n🍗 Peixe\n🥬 Alface\n🍦 Fruta\n🧃 Suco de laranja\n\n\n",
        LINK
    );
    assert_eq!(format_week_menu(&week), expected);
    assert_eq!(format_week_menu(&StructuredWeekMenus::default()), LINK);
}

#[test]
fn new_menu_is_posted_once() {
    let fetched = || {
        StructuredWeekMenus::from_week_menu(WeekMenu {
            menus: vec![menu_item("2020-03-09", "Almoço", "A", ""), menu_item("2020-03-10", "Jantar", "B", "")],
        })
        .unwrap()
    };
    let mut shown = StructuredWeekMenus::default();
    let first = apply_new_menu(&mut shown, fetched());
    let text = first.expect("a changed menu gives a message");
    assert!(text.starts_with(LINK));
    let tuesday = text.find("TERÇA 10/03/2020").unwrap();
    let monday = text.find("SEGUNDA 09/03/2020").unwrap();
    assert!(monday < tuesday);
    assert_eq!(shown.next_menus.len(), 2);
    assert!(shown.next_menus[0].day < shown.next_menus[1].day);
    assert_eq!(shown.next_menus[0].day.day(), 9);
    assert!(apply_new_menu(&mut shown, fetched()).is_none());
    assert_eq!(shown.next_menus[0].day.day(), 9);
}

#[test]
fn changed_menu_is_posted_again() {
    let mut shown = StructuredWeekMenus::default();
    let one = StructuredWeekMenus::from_week_menu(WeekMenu { menus: vec![menu_item("2020-03-09", "Almoço", "A", "")] }).unwrap();
    let two = StructuredWeekMenus::from_week_menu(WeekMenu { menus: vec![menu_item("2020-03-09", "Almoço", "B", "")] }).unwrap();
    assert!(apply_new_menu(&mut shown, one).is_some());
    let again = apply_new_menu(&mut shown, two).unwrap();
    assert!(again.contains("🍗 B\n"));
    assert_eq!(shown.next_menus[0].lunch.as_ref().unwrap().prato_principal, "B");
}

#[test]
fn empty_fetched_week_on_empty_channel_gives_nothing() {
    let mut shown = StructuredWeekMenus::default();
    assert!(apply_new_menu(&mut shown, StructuredWeekMenus::default()).is_none());
}

#[test]
fn fetch_error_is_network_error() {
    match menu_from_response(Err("connection refused".to_string())) {
        Err(BotejaoError::NetworkError(msg)) => assert_eq!(msg, "connection refused"),
        other => panic!("unexpected {:?}", other),
    }
}

#[test]
fn fetched_menu_is_structured() {
    let w = menu_from_response(Ok(WeekMenu { menus: vec![menu_item("2020-03-09", "Almoço", "A", "")] })).unwrap();
    assert_eq!(w.next_menus.len(), 1);
    let bad = menu_from_response(Ok(WeekMenu { menus: vec![menu_item("2020-03-09", "Ceia", "A", "")] }));
    assert!(matches!(bad, Err(BotejaoError::InvalidMealKind(_))));
}

#[test]
fn channel_bot_waits_between_checks() {
    assert_eq!(next_wait_secs(false, true), 3600);
    assert_eq!(next_wait_secs(false, false), 0);
    assert_eq!(next_wait_secs(true, false), 3600);
    assert_eq!(next_wait_secs(true, true), 3660);
}

#[test]
fn weekday_and_date_of_other_days() {
    let leap = StructuredDayMenu::new(&menu_item("2000-02-29", "Almoço", "X", "")).unwrap();
    assert!(format_day_menu(&leap).starts_with("******* <b>TERÇA 29/02/2000</b> ******* \n"));
    let epoch = StructuredDayMenu::new(&menu_item("1970-01-01", "Almoço", "X", "")).unwrap();
    assert!(format_day_menu(&epoch).starts_with("******* <b>QUINTA 01/01/1970</b> ******* \n"));
    let early = StructuredDayMenu::new(&menu_item("0099-12-05", "Almoço", "X", "")).unwrap();
    assert!(format_day_menu(&early).contains(" 05/12/0099</b>"));
    assert_eq!(early.day.weekday(), Weekday::Sat);
}
