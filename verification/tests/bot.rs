use botejao::bot::get_response_for_update;
use botejao::bot::menu_comparator::get_diff;
use botejao::bot::unicamp_handler::{
    is_new_day, next_channel_action, ChannelAction, Document, UnicampMenuGetter,
};
use botejao::bot::day_record::{day_record_text, read_day_record};
use botejao::bot::usp_handler::{
    cache_and_go_on, cached_entry, format_usp_day, next_poll_step, usp_element_ids, ArcUspReplier,
    PollStep, UspReplier, POLL_ATTEMPTS,
};
use std::sync::{Arc, RwLock};
use botejao::unicamp_menu::date::Weekday;

#[test]
fn unicamp_commands_are_sent_to_the_channel() {
    let moved = "O Botejao UNICAMP agora é um canal! @botejao\\_unicamp";
    assert_eq!(get_response_for_update(Some("/unicamp")).unwrap(), moved);
    assert_eq!(get_response_for_update(Some("/unicamp@BotejaoBot")).unwrap(), moved);
}

#[test]
fn other_messages_get_the_rebuilding_notice() {
    let notice = "O Bot está sob reformas, somente UNICAMP disponível no momento no canal @botejao\\_unicamp.";
    assert_eq!(get_response_for_update(Some("/usp")).unwrap(), notice);
    assert_eq!(get_response_for_update(Some("")).unwrap(), notice);
    assert_eq!(get_response_for_update(Some("/unicamp ")).unwrap(), notice);
}

#[test]
fn update_without_text_gets_no_answer() {
    assert_eq!(get_response_for_update(None), None);
}

#[test]
fn diff_marks_added_words() {
    assert_eq!(get_diff("arroz feijao".to_string(), "arroz batata".to_string()), " arroz *batata*");
}

#[test]
fn diff_of_equal_texts_keeps_them() {
    assert_eq!(get_diff("arroz com feijao".to_string(), "arroz com feijao".to_string()), " arroz com feijao");
}

#[test]
fn diff_of_empty_texts_is_empty() {
    assert_eq!(get_diff("".to_string(), "".to_string()), "");
    assert_eq!(get_diff("".to_string(), "novo".to_string()), " *novo*");
    assert_eq!(get_diff("velho".to_string(), "".to_string()), "");
}

#[test]
fn remove_spaces_and_tabs_joins_the_text() {
    assert_eq!(UnicampMenuGetter::remove_spaces_and_tabs("a\tb\nc d".to_string()), "abc d\n");
    assert_eq!(UnicampMenuGetter::remove_spaces_and_tabs("".to_string()), "\n");
    assert_eq!(UnicampMenuGetter::remove_spaces_and_tabs("\n\t\n".to_string()), "\n");
}

#[test]
fn css_selectors_parse_or_fail() {
    assert!(UnicampMenuGetter::parse_using_css("#sistema_cardapio > table > tbody > tr:nth-child(1)").is_ok());
    assert!(UnicampMenuGetter::parse_using_css("td:nth-child(").is_err());
}

#[test]
fn apply_selectors_reads_first_match() {
    let doc = Document::parse("<div><p>Um <b>dois</b></p><p>tres</p></div>");
    let p = UnicampMenuGetter::parse_using_css("p").unwrap();
    assert_eq!(UnicampMenuGetter::apply_selectors(&p, &doc).unwrap(), "Um dois");
    let missing = UnicampMenuGetter::parse_using_css("table").unwrap();
    assert!(UnicampMenuGetter::apply_selectors(&missing, &doc).is_err());
}

fn column(cells: &[&str]) -> String {
    let rows: String = cells.iter().map(|c| format!("<tr><td>{}</td></tr>", c)).collect();
    format!("<table><tbody>{}</tbody></table>", rows)
}

fn page(with_dinner: bool) -> Vec<u8> {
    let lunch = column(&["Arroz", "Feij\u{e3}o", "Frango", "Pur\u{ea}", "Alface", "Fruta"]);
    let veg_lunch = column(&["Arroz", "Lentilha", "-", "Tofu", "Couve", "Doce"]);
    let dinner = column(&["Arroz", "Feij\u{e3}o", "Carne", "Batata", "Tomate", "Gelatina"]);
    let veg_dinner = column(&["Arroz", "Gr\u{e3}o", "-", "Soja", "Pepino", "Mam\u{e3}o"]);
    let dinner_cell = if with_dinner { dinner } else { String::new() };
    let html = format!(
        "<div id=\"sistema_cardapio\"><table><tbody><tr><td><p>Segunda-feira,\n\t09/03</p>\
         <table><tbody><tr><td>x</td></tr><tr><td>P\u{e3}o\tcom\nmanteiga</td></tr><tr><td>y</td></tr>\
         <tr><td>{}</td><td>{}</td><td>{}</td><td>{}</td></tr></tbody></table></td></tr></tbody></table></div>",
        lunch, veg_lunch, dinner_cell, veg_dinner
    );
    html.chars().map(|c| c as u32 as u8).collect()
}

#[test]
fn menu_page_is_read() {
    let menu = UnicampMenuGetter::filter_unicamp_response(&page(true)).unwrap();
    assert_eq!(menu.break_fast, "*Café da Manha:* \nPãocommanteiga\n");
    assert_eq!(menu.lunch, "*Almoço:* \nArroz\nFeijão\nFrango\nPurê\nAlface\nFruta\n");
    assert_eq!(menu.veg_lunch, "*Almoço Vegetariano:* \nArroz\nLentilha\nTofu\nCouve\nDoce\n");
    assert_eq!(menu.dinner, "*Jantar:* \nArroz\nFeijão\nCarne\nBatata\nTomate\nGelatina\n");
    assert_eq!(menu.veg_dinner, "*Jantar Vegetariano: *\nArroz\nGrão\nSoja\nPepino\nMamão\n");
    let expected = format!(
        "*Segunda-feira,09/03\n*\n {}\n{}\n{}\n{}",
        menu.lunch, menu.dinner, menu.veg_lunch, menu.veg_dinner
    );
    assert_eq!(menu.menu_with_headers, expected);
}

#[test]
fn page_without_a_cell_is_refused() {
    assert!(UnicampMenuGetter::filter_unicamp_response(&page(false)).is_err());
    assert!(UnicampMenuGetter::filter_unicamp_response(b"<html></html>").is_err());
}

#[test]
fn new_day_is_any_other_day() {
    assert!(is_new_day(None, 737000));
    assert!(is_new_day(Some(736999), 737000));
    assert!(!is_new_day(Some(737000), 737000));
}

#[test]
fn channel_skips_sundays_and_mondays() {
    assert_eq!(next_channel_action(Weekday::Sun, 12, None, 5), ChannelAction::FetchAgain);
    assert_eq!(next_channel_action(Weekday::Mon, 12, None, 5), ChannelAction::FetchAgain);
}

#[test]
fn channel_posts_once_a_day_after_one_oclock() {
    assert_eq!(next_channel_action(Weekday::Tue, 1, None, 5), ChannelAction::Wait);
    assert_eq!(next_channel_action(Weekday::Tue, 2, None, 5), ChannelAction::PostAndRecord);
    assert_eq!(next_channel_action(Weekday::Sat, 23, Some(4), 5), ChannelAction::PostAndRecord);
    assert_eq!(next_channel_action(Weekday::Wed, 9, Some(5), 5), ChannelAction::Wait);
}

#[test]
fn usp_ids_follow_the_weekday() {
    let tue = usp_element_ids(2);
    assert_eq!((tue.day.as_str(), tue.lunch.as_str(), tue.dinner.as_str()), ("#diaTerca", "#almocoTerca", "#jantarTerca"));
    let fri = usp_element_ids(5);
    assert_eq!(fri.lunch, "#almocoSexta");
    assert_eq!(usp_element_ids(3).dinner, "#jantarQuarta");
    assert_eq!(usp_element_ids(4).day, "#diaQuinta");
    for other in [0, 1, 6, 7, -1] {
        let ids = usp_element_ids(other);
        assert_eq!((ids.day.as_str(), ids.lunch.as_str(), ids.dinner.as_str()), ("#diaSegunda", "#almocoSegunda", "#jantarSegunda"));
    }
}

#[test]
fn usp_day_text() {
    assert_eq!(format_usp_day("09/03", "Arroz", "Sopa"), "*09/03*:\n\n*Almoço:*\nArroz\n\n*Jantar:*\nSopa");
}

#[test]
fn day_record_text_is_decimal() {
    assert_eq!(day_record_text(0), "0");
    assert_eq!(day_record_text(737000), "737000");
    assert_eq!(day_record_text(-45), "-45");
    assert_eq!(day_record_text(i32::MIN), "-2147483648");
    assert_eq!(day_record_text(i32::MAX), "2147483647");
    for n in [1, 9, 10, 99, 100, -1, -10, 123456789] {
        assert_eq!(day_record_text(n), n.to_string());
    }
}

#[test]
fn day_record_is_read_like_parse() {
    assert_eq!(read_day_record("737000"), Some(737000));
    assert_eq!(read_day_record("+5"), Some(5));
    assert_eq!(read_day_record("-12"), Some(-12));
    assert_eq!(read_day_record("-2147483648"), Some(i32::MIN));
    assert_eq!(read_day_record("2147483647"), Some(i32::MAX));
    assert_eq!(read_day_record("2147483648"), None);
    assert_eq!(read_day_record("-2147483649"), None);
    for s in ["", "-", "+", "12a", " 5", "5\n", "007", "-0", "99999999999", "1_000"] {
        assert_eq!(read_day_record(s), s.parse::<i32>().ok(), "{:?}", s);
    }
}

#[test]
fn recorded_day_is_not_new() {
    for day in [0, 1, 737000, -1, i32::MIN, i32::MAX] {
        let record = day_record_text(day);
        assert_eq!(read_day_record(&record), Some(day));
        assert!(!is_new_day(read_day_record(&record), day));
        assert!(is_new_day(read_day_record(&record), day.wrapping_add(1)));
    }
}

#[test]
fn usp_page_polling() {
    assert_eq!(POLL_ATTEMPTS, 30);
    assert_eq!(next_poll_step(0, true, false), PollStep::Accept);
    assert_eq!(next_poll_step(29, true, false), PollStep::Accept);
    assert_eq!(next_poll_step(0, false, true), PollStep::WaitAndRetry);
    assert_eq!(next_poll_step(0, true, true), PollStep::Retry);
    assert_eq!(next_poll_step(28, false, true), PollStep::WaitAndRetry);
    assert_eq!(next_poll_step(29, false, true), PollStep::WaitAndGiveUp);
    assert_eq!(next_poll_step(29, true, true), PollStep::GiveUp);
}

#[test]
fn usp_replier_caches_the_menu() {
    let mut replier = UspReplier::new("https://uspdigital.usp.br/rucard/Jsp/cardapioSAS.jsp?codrtn=6");
    assert_eq!(replier.menu_website(), "https://uspdigital.usp.br/rucard/Jsp/cardapioSAS.jsp?codrtn=6");
    assert_eq!(replier.cached_response(), "");
    replier.update_cached_response("09/03", "Arroz", "Sopa");
    assert_eq!(replier.cached_response(), "*09/03*:\n\n*Almoço:*\nArroz\n\n*Jantar:*\nSopa");
    replier.update_cached_response("10/03", "Feijão", "Caldo");
    assert_eq!(replier.cached_response(), format_usp_day("10/03", "Feijão", "Caldo"));
    assert_eq!(replier.menu_website(), "https://uspdigital.usp.br/rucard/Jsp/cardapioSAS.jsp?codrtn=6");
}

#[test]
fn usp_replier_clones_share_the_cache() {
    let a = ArcUspReplier { arc_usp_replier: Arc::new(RwLock::new(UspReplier::new("site"))) };
    let b = a.clone();
    a.arc_usp_replier.write().unwrap().update_cached_response("d", "l", "j");
    assert_eq!(b.arc_usp_replier.read().unwrap().cached_response(), format_usp_day("d", "l", "j"));
    assert_eq!(b.arc_usp_replier.read().unwrap().menu_website(), "site");
}

#[test]
fn diff_drops_leading_whitespace_of_words() {
    assert_eq!(get_diff("x".to_string(), "x \n\tnovo".to_string()), " x *novo*");
    assert_eq!(get_diff("x \nvelho".to_string(), "x \nvelho".to_string()), " x \nvelho");
}

#[test]
fn cache_entry_holds_the_day_menu() {
    let entry = cached_entry("09/03", "Arroz", "Sopa");
    assert_eq!(entry.cached_response, "*09/03*:\n\n*Almoço:*\nArroz\n\n*Jantar:*\nSopa");
    assert!(!cached_entry("", "", "").cached_response.is_empty());
}

#[test]
fn update_stops_at_the_first_failed_site() {
    assert!(cache_and_go_on(true, true));
    assert!(!cache_and_go_on(true, false));
    assert!(!cache_and_go_on(false, false));
}

#[test]
fn one_post_over_a_whole_day_of_checks() {
    let today = 737000;
    let mut record: Option<String> = None;
    let mut posts = 0;
    for hour in 0..24 {
        let last = record.as_deref().and_then(read_day_record);
        if next_channel_action(Weekday::Wed, hour, last, today) == ChannelAction::PostAndRecord {
            posts += 1;
            record = Some(day_record_text(today));
        }
    }
    assert_eq!(posts, 1);
}
