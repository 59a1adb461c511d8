//! Reading the day's menu from the restaurant's web page.
use vstd::prelude::*;

use encoding::all::ISO_8859_1;
use encoding::{DecoderTrap, Encoding};

use crate::bot::day_record::{decimal_text, law_day_record_round_trip, parsed_i32};
use crate::text::push_char;
use crate::unicamp_menu::date::Weekday;

verus! {

#[verifier::external_type_specification]
#[verifier::external_body]
pub struct ExHtml(scraper::Html);

#[verifier::external_type_specification]
#[verifier::external_body]
pub struct ExSelector(scraper::Selector);

/// The page's cell that holds the day.
pub const DAY_SELECTOR: &'static str = "#sistema_cardapio > table > tbody > tr:nth-child(1) > td:nth-child(1) > p";

pub const BREAKFAST_SELECTOR: &'static str = "#sistema_cardapio > table > tbody > tr:nth-child(1) > td:nth-child(1) > table > tbody > tr:nth-child(2)";

pub const LUNCH_SELECTOR_1: &'static str = "#sistema_cardapio > table > tbody > tr:nth-child(1) > td:nth-child(1) > table > tbody > tr:nth-child(4) > td:nth-child(1) > table > tbody > tr:nth-child(1) > td";

pub const LUNCH_SELECTOR_2: &'static str = "#sistema_cardapio > table > tbody > tr:nth-child(1) > td:nth-child(1) > table > tbody > tr:nth-child(4) > td:nth-child(1) > table > tbody > tr:nth-child(2) > td";

pub const LUNCH_SELECTOR_3: &'static str = "#sistema_cardapio > table > tbody > tr:nth-child(1) > td:nth-child(1) > table > tbody > tr:nth-child(4) > td:nth-child(1) > table > tbody > tr:nth-child(3) > td";

pub const LUNCH_SELECTOR_4: &'static str = "#sistema_cardapio > table > tbody > tr:nth-child(1) > td:nth-child(1) > table > tbody > tr:nth-child(4) > td:nth-child(1) > table > tbody > tr:nth-child(4) > td";

pub const LUNCH_SELECTOR_5: &'static str = "#sistema_cardapio > table > tbody > tr:nth-child(1) > td:nth-child(1) > table > tbody > tr:nth-child(4) > td:nth-child(1) > table > tbody > tr:nth-child(5) > td";

pub const LUNCH_SELECTOR_6: &'static str = "#sistema_cardapio > table > tbody > tr:nth-child(1) > td:nth-child(1) > table > tbody > tr:nth-child(4) > td:nth-child(1) > table > tbody > tr:nth-child(6) > td";

pub const VEG_LUNCH_SELECTOR_1: &'static str = "#sistema_cardapio > table > tbody > tr:nth-child(1) > td:nth-child(1) > table > tbody > tr:nth-child(4) > td:nth-child(2) > table > tbody > tr:nth-child(1) > td";

pub const VEG_LUNCH_SELECTOR_2: &'static str = "#sistema_cardapio > table > tbody > tr:nth-child(1) > td:nth-child(1) > table > tbody > tr:nth-child(4) > td:nth-child(2) > table > tbody > tr:nth-child(2) > td";

pub const VEG_LUNCH_SELECTOR_3: &'static str = "#sistema_cardapio > table > tbody > tr:nth-child(1) > td:nth-child(1) > table > tbody > tr:nth-child(4) > td:nth-child(2) > table > tbody > tr:nth-child(4) > td";

pub const VEG_LUNCH_SELECTOR_4: &'static str = "#sistema_cardapio > table > tbody > tr:nth-child(1) > td:nth-child(1) > table > tbody > tr:nth-child(4) > td:nth-child(2) > table > tbody > tr:nth-child(5) > td";

pub const VEG_LUNCH_SELECTOR_5: &'static str = "#sistema_cardapio > table > tbody > tr:nth-child(1) > td:nth-child(1) > table > tbody > tr:nth-child(4) > td:nth-child(2) > table > tbody > tr:nth-child(6) > td";

pub const DINNER_SELECTOR_1: &'static str = "#sistema_cardapio > table > tbody > tr:nth-child(1) > td:nth-child(1) > table > tbody > tr:nth-child(4) > td:nth-child(3) > table > tbody > tr:nth-child(1) > td";

pub const DINNER_SELECTOR_2: &'static str = "#sistema_cardapio > table > tbody > tr:nth-child(1) > td:nth-child(1) > table > tbody > tr:nth-child(4) > td:nth-child(3) > table > tbody > tr:nth-child(2) > td";

pub const DINNER_SELECTOR_3: &'static str = "#sistema_cardapio > table > tbody > tr:nth-child(1) > td:nth-child(1) > table > tbody > tr:nth-child(4) > td:nth-child(3) > table > tbody > tr:nth-child(3) > td";

pub const DINNER_SELECTOR_4: &'static str = "#sistema_cardapio > table > tbody > tr:nth-child(1) > td:nth-child(1) > table > tbody > tr:nth-child(4) > td:nth-child(3) > table > tbody > tr:nth-child(4) > td";

pub const DINNER_SELECTOR_5: &'static str = "#sistema_cardapio > table > tbody > tr:nth-child(1) > td:nth-child(1) > table > tbody > tr:nth-child(4) > td:nth-child(3) > table > tbody > tr:nth-child(5) > td";

pub const DINNER_SELECTOR_6: &'static str = "#sistema_cardapio > table > tbody > tr:nth-child(1) > td:nth-child(1) > table > tbody > tr:nth-child(4) > td:nth-child(3) > table > tbody > tr:nth-child(6) > td";

pub const VEG_DINNER_SELECTOR_1: &'static str = "#sistema_cardapio > table > tbody > tr:nth-child(1) > td:nth-child(1) > table > tbody > tr:nth-child(4) > td:nth-child(4) > table > tbody > tr:nth-child(1) > td";

pub const VEG_DINNER_SELECTOR_2: &'static str = "#sistema_cardapio > table > tbody > tr:nth-child(1) > td:nth-child(1) > table > tbody > tr:nth-child(4) > td:nth-child(4) > table > tbody > tr:nth-child(2) > td";

pub const VEG_DINNER_SELECTOR_3: &'static str = "#sistema_cardapio > table > tbody > tr:nth-child(1) > td:nth-child(1) > table > tbody > tr:nth-child(4) > td:nth-child(4) > table > tbody > tr:nth-child(4) > td";

pub const VEG_DINNER_SELECTOR_4: &'static str = "#sistema_cardapio > table > tbody > tr:nth-child(1) > td:nth-child(1) > table > tbody > tr:nth-child(4) > td:nth-child(4) > table > tbody > tr:nth-child(5) > td";

pub const VEG_DINNER_SELECTOR_5: &'static str = "#sistema_cardapio > table > tbody > tr:nth-child(1) > td:nth-child(1) > table > tbody > tr:nth-child(4) > td:nth-child(4) > table > tbody > tr:nth-child(6) > td";

/// The texts of some string slices.
pub open spec fn texts_of(s: Seq<&str>) -> Seq<Seq<char>> {
    s.map_values(|t: &str| t@)
}

/// The cells of the lunch column, in the order they are read.
pub open spec fn lunch_selectors() -> Seq<Seq<char>> {
    seq![LUNCH_SELECTOR_1@, LUNCH_SELECTOR_2@, LUNCH_SELECTOR_3@, LUNCH_SELECTOR_4@, LUNCH_SELECTOR_5@, LUNCH_SELECTOR_6@]
}

/// The cells of the veg lunch column, in the order they are read.
pub open spec fn veg_lunch_selectors() -> Seq<Seq<char>> {
    seq![VEG_LUNCH_SELECTOR_1@, VEG_LUNCH_SELECTOR_2@, VEG_LUNCH_SELECTOR_3@, VEG_LUNCH_SELECTOR_4@, VEG_LUNCH_SELECTOR_5@]
}

/// The cells of the dinner column, in the order they are read.
pub open spec fn dinner_selectors() -> Seq<Seq<char>> {
    seq![DINNER_SELECTOR_1@, DINNER_SELECTOR_2@, DINNER_SELECTOR_3@, DINNER_SELECTOR_4@, DINNER_SELECTOR_5@, DINNER_SELECTOR_6@]
}

/// The cells of the veg dinner column, in the order they are read.
pub open spec fn veg_dinner_selectors() -> Seq<Seq<char>> {
    seq![VEG_DINNER_SELECTOR_1@, VEG_DINNER_SELECTOR_2@, VEG_DINNER_SELECTOR_3@, VEG_DINNER_SELECTOR_4@, VEG_DINNER_SELECTOR_5@]
}

/// Every selector that the page is read with, in the order they are parsed.
pub open spec fn page_selectors() -> Seq<Seq<char>> {
    seq![DAY_SELECTOR@, BREAKFAST_SELECTOR@] + lunch_selectors() + veg_lunch_selectors()
        + dinner_selectors() + veg_dinner_selectors()
}

fn lunch_selector_texts() -> (r: Vec<&'static str>)
    ensures
        texts_of(r@) == lunch_selectors(),
{
    let mut v: Vec<&'static str> = Vec::new();
    v.push(LUNCH_SELECTOR_1);
    v.push(LUNCH_SELECTOR_2);
    v.push(LUNCH_SELECTOR_3);
    v.push(LUNCH_SELECTOR_4);
    v.push(LUNCH_SELECTOR_5);
    v.push(LUNCH_SELECTOR_6);
    assert(texts_of(v@) =~= lunch_selectors());
    v
}

fn veg_lunch_selector_texts() -> (r: Vec<&'static str>)
    ensures
        texts_of(r@) == veg_lunch_selectors(),
{
    let mut v: Vec<&'static str> = Vec::new();
    v.push(VEG_LUNCH_SELECTOR_1);
    v.push(VEG_LUNCH_SELECTOR_2);
    v.push(VEG_LUNCH_SELECTOR_3);
    v.push(VEG_LUNCH_SELECTOR_4);
    v.push(VEG_LUNCH_SELECTOR_5);
    assert(texts_of(v@) =~= veg_lunch_selectors());
    v
}

fn dinner_selector_texts() -> (r: Vec<&'static str>)
    ensures
        texts_of(r@) == dinner_selectors(),
{
    let mut v: Vec<&'static str> = Vec::new();
    v.push(DINNER_SELECTOR_1);
    v.push(DINNER_SELECTOR_2);
    v.push(DINNER_SELECTOR_3);
    v.push(DINNER_SELECTOR_4);
    v.push(DINNER_SELECTOR_5);
    v.push(DINNER_SELECTOR_6);
    assert(texts_of(v@) =~= dinner_selectors());
    v
}

fn veg_dinner_selector_texts() -> (r: Vec<&'static str>)
    ensures
        texts_of(r@) == veg_dinner_selectors(),
{
    let mut v: Vec<&'static str> = Vec::new();
    v.push(VEG_DINNER_SELECTOR_1);
    v.push(VEG_DINNER_SELECTOR_2);
    v.push(VEG_DINNER_SELECTOR_3);
    v.push(VEG_DINNER_SELECTOR_4);
    v.push(VEG_DINNER_SELECTOR_5);
    assert(texts_of(v@) =~= veg_dinner_selectors());
    v
}

/// An HTML fragment as scraper parsed it, together with the text it was parsed from.
pub struct Document {
    source: String,
    html: scraper::Html,
}

impl View for Document {
    type V = Seq<char>;

    closed spec fn view(&self) -> Seq<char> {
        self.source@
    }
}

/// A CSS selector as scraper parsed it, together with its text.
pub struct CssSelector {
    css: String,
    selector: scraper::Selector,
}

impl View for CssSelector {
    type V = Seq<char>;

    closed spec fn view(&self) -> Seq<char> {
        self.css@
    }
}

/// Whether scraper's `Selector::parse` accepts a CSS text.
pub uninterp spec fn css_parses(css: Seq<char>) -> bool;

/// The text of the first element of an HTML fragment that a CSS selector selects, all its
/// text nodes joined, as scraper gives it; `None` where the selector selects nothing.
pub uninterp spec fn selected_text(fragment: Seq<char>, css: Seq<char>) -> Option<Seq<char>>;

/// Calls scraper's `Html::parse_fragment`.
///
/// Trusted: the document keeps the text it was parsed from. What scraper builds of it is not
/// stated; it is only read through `first_selected_text`.
#[verifier::external_body]
fn parse_fragment(text: &str) -> (r: Document)
    ensures
        r@ == text@,
{
    Document { source: text.to_string(), html: scraper::Html::parse_fragment(text) }
}

/// Calls scraper's `Selector::parse`.
///
/// Trusted: it succeeds exactly where `css_parses` holds of the text, and the selector keeps
/// the text. Which texts scraper accepts is not stated.
#[verifier::external_body]
fn parse_selector(css: &str) -> (r: Option<CssSelector>)
    ensures
        r is Some <==> css_parses(css@),
        r matches Some(s) ==> s@ == css@,
{
    match scraper::Selector::parse(css) {
        Ok(selector) => Some(CssSelector { css: css.to_string(), selector }),
        Err(_) => None,
    }
}

/// Calls scraper's `Html::select` and takes the first element, whose text nodes
/// (`ElementRef::text`) are collected into one `String`.
///
/// Trusted: the result is what `selected_text` names for the fragment's text and the
/// selector's text.
#[verifier::external_body]
fn first_selected_text(fragment: &Document, selector: &CssSelector) -> (r: Option<String>)
    ensures
        match r {
            Some(t) => selected_text(fragment@, selector@) == Some(t@),
            None => selected_text(fragment@, selector@) is None,
        },
{
    match fragment.html.select(&selector.selector).next() {
        Some(element) => Some(element.text().collect::<String>()),
        None => None,
    }
}

/// ISO-8859-1 gives each byte the character with the same code.
pub open spec fn latin1_text(bytes: Seq<u8>) -> Seq<char> {
    bytes.map_values(|b: u8| b as char)
}

/// Calls encoding's `ISO_8859_1.decode` with `DecoderTrap::Strict`.
///
/// Trusted: as encoding's single-byte decoder maps byte `b` to the character of code `b`
/// (`iso_8859_1::forward`) and never reports an invalid byte, the decoding succeeds and gives
/// `latin1_text` of the bytes.
#[verifier::external_body]
fn decode_latin1(bytes: &[u8]) -> (r: Result<String, String>)
    ensures
        r is Ok,
        r->Ok_0@ == latin1_text(bytes@),
{
    match ISO_8859_1.decode(bytes, DecoderTrap::Strict) {
        Ok(s) => Ok(s),
        Err(cause) => Err(cause.into_owned()),
    }
}

impl Document {
    /// Parses an HTML fragment.
    pub fn parse(text: &str) -> (r: Document)
        ensures
            r@ == text@,
    {
        parse_fragment(text)
    }
}

/// The menu of one day, read from the restaurant's page, each meal under its heading.
pub struct UnicampMenu {
    pub break_fast: String,
    pub lunch: String,
    pub veg_lunch: String,
    pub dinner: String,
    pub veg_dinner: String,
    pub menu_with_headers: String,
}

/// The texts of a [`UnicampMenu`].
pub struct UnicampMenuView {
    pub break_fast: Seq<char>,
    pub lunch: Seq<char>,
    pub veg_lunch: Seq<char>,
    pub dinner: Seq<char>,
    pub veg_dinner: Seq<char>,
    pub menu_with_headers: Seq<char>,
}

impl View for UnicampMenu {
    type V = UnicampMenuView;

    open spec fn view(&self) -> UnicampMenuView {
        UnicampMenuView {
            break_fast: self.break_fast@,
            lunch: self.lunch@,
            veg_lunch: self.veg_lunch@,
            dinner: self.dinner@,
            veg_dinner: self.veg_dinner@,
            menu_with_headers: self.menu_with_headers@,
        }
    }
}

/// The page could not be read: a selector did not parse, or selected nothing.
#[derive(Debug)]
pub struct MenuFilteringError {}

/// Reads the restaurant's page.
pub struct UnicampMenuGetter;

/// A text without its line feeds and tabs.
pub open spec fn without_line_breaks(s: Seq<char>) -> Seq<char> {
    s.filter(|c: char| c != '\n' && c != '\t')
}

/// A text without its line feeds and tabs, ended by one line feed.
pub open spec fn one_line(s: Seq<char>) -> Seq<char> {
    without_line_breaks(s).push('\n')
}

/// A text made one line holds no line feed or tab but the line feed that ends it.
pub proof fn law_one_line_is_one_line(s: Seq<char>)
    ensures
        one_line(s).len() > 0,
        one_line(s).last() == '\n',
        forall|i: int|
            0 <= i < one_line(s).len() - 1 ==> #[trigger] one_line(s)[i] != '\n' && one_line(s)[i]
                != '\t',
{
    let pred = |c: char| c != '\n' && c != '\t';
    let f = s.filter(pred);
    assert forall|i: int| 0 <= i < one_line(s).len() - 1 implies #[trigger] one_line(s)[i] != '\n'
        && one_line(s)[i] != '\t' by {
        s.lemma_filter_pred(pred, i);
        assert(one_line(s)[i] == f[i]);
    }
}

/// The line that a selector reads from a fragment.
pub open spec fn found_line(fragment: Seq<char>, css: Seq<char>) -> Seq<char> {
    one_line(selected_text(fragment, css)->Some_0)
}

/// The lines that some selectors read from a fragment, one after the other.
pub open spec fn section_text(fragment: Seq<char>, selectors: Seq<Seq<char>>) -> Seq<char>
    decreases selectors.len(),
{
    if selectors.len() == 0 {
        Seq::empty()
    } else {
        section_text(fragment, selectors.drop_last()) + found_line(fragment, selectors.last())
    }
}

/// Every selector is accepted by scraper.
pub open spec fn selectors_parse(selectors: Seq<Seq<char>>) -> bool {
    forall|i: int| 0 <= i < selectors.len() ==> css_parses(#[trigger] selectors[i])
}

/// Every selector selects an element of the fragment.
pub open spec fn selectors_found(fragment: Seq<char>, selectors: Seq<Seq<char>>) -> bool {
    forall|i: int| 0 <= i < selectors.len() ==> (#[trigger] selected_text(fragment, selectors[i])) is Some
}

/// The page can be read: every selector parses and selects an element.
pub open spec fn page_has_menu(fragment: Seq<char>) -> bool {
    selectors_parse(page_selectors()) && selectors_found(fragment, page_selectors())
}

/// The menu that a page gives.
pub open spec fn page_menu(fragment: Seq<char>) -> UnicampMenuView {
    let day = "*"@ + found_line(fragment, DAY_SELECTOR@) + "*"@;
    let lunch = "*Almoço:* \n"@ + section_text(fragment, lunch_selectors());
    let veg_lunch = "*Almoço Vegetariano:* \n"@ + section_text(fragment, veg_lunch_selectors());
    let dinner = "*Jantar:* \n"@ + section_text(fragment, dinner_selectors());
    let veg_dinner = "*Jantar Vegetariano: *\n"@ + section_text(fragment, veg_dinner_selectors());
    UnicampMenuView {
        break_fast: "*Café da Manha:* \n"@ + found_line(fragment, BREAKFAST_SELECTOR@),
        lunch,
        veg_lunch,
        dinner,
        veg_dinner,
        menu_with_headers: day + "\n "@ + lunch + "\n"@ + dinner + "\n"@ + veg_lunch + "\n"@
            + veg_dinner,
    }
}

/// The texts of some parsed selectors.
pub open spec fn selector_texts(v: Seq<CssSelector>) -> Seq<Seq<char>> {
    v.map_values(|s: CssSelector| s@)
}

proof fn lemma_parse_concat(a: Seq<Seq<char>>, b: Seq<Seq<char>>)
    ensures
        selectors_parse(a + b) <==> selectors_parse(a) && selectors_parse(b),
{
    if selectors_parse(a + b) {
        assert forall|i: int| 0 <= i < a.len() implies css_parses(#[trigger] a[i]) by {
            assert((a + b)[i] == a[i]);
        }
        assert forall|i: int| 0 <= i < b.len() implies css_parses(#[trigger] b[i]) by {
            assert((a + b)[a.len() + i] == b[i]);
        }
    }
    if selectors_parse(a) && selectors_parse(b) {
        assert forall|i: int| 0 <= i < (a + b).len() implies css_parses(#[trigger] (a + b)[i]) by {
            if i < a.len() {
                assert((a + b)[i] == a[i]);
            } else {
                assert((a + b)[i] == b[i - a.len()]);
            }
        }
    }
}

proof fn lemma_found_concat(f: Seq<char>, a: Seq<Seq<char>>, b: Seq<Seq<char>>)
    ensures
        selectors_found(f, a + b) <==> selectors_found(f, a) && selectors_found(f, b),
{
    if selectors_found(f, a + b) {
        assert forall|i: int| 0 <= i < a.len() implies (#[trigger] selected_text(f, a[i])) is Some by {
            assert((a + b)[i] == a[i]);
        }
        assert forall|i: int| 0 <= i < b.len() implies (#[trigger] selected_text(f, b[i])) is Some by {
            assert((a + b)[a.len() + i] == b[i]);
        }
    }
    if selectors_found(f, a) && selectors_found(f, b) {
        assert forall|i: int| 0 <= i < (a + b).len() implies (#[trigger] selected_text(f, (a + b)[i])) is Some by {
            if i < a.len() {
                assert((a + b)[i] == a[i]);
            } else {
                assert((a + b)[i] == b[i - a.len()]);
            }
        }
    }
}

impl UnicampMenuGetter {
    /// Drops the line feeds and tabs of a text and ends it with one line feed.
    pub fn remove_spaces_and_tabs(input: String) -> (r: String)
        ensures
            r@ == one_line(input@),
    {
        let s = input.as_str();
        let n = s.unicode_len();
        let mut out = String::new();
        let mut i: usize = 0;
        while i < n
            invariant
                n == input@.len(),
                s@ == input@,
                i <= n,
                out@ == without_line_breaks(input@.take(i as int)),
            decreases n - i,
        {
            let c = s.get_char(i);
            proof {
                let t = input@.take(i + 1);
                assert(t.drop_last() =~= input@.take(i as int));
                assert(t.last() == c);
                reveal(Seq::filter);
            }
            if c != '\n' && c != '\t' {
                push_char(&mut out, c);
            }
            i = i + 1;
        }
        assert(input@.take(n as int) =~= input@);
        push_char(&mut out, '\n');
        out
    }

    /// The text of the first element of the fragment that the selector selects.
    pub fn apply_selectors(selector: &CssSelector, fragment: &Document) -> (r: Result<
        String,
        MenuFilteringError,
    >)
        ensures
            match selected_text(fragment@, selector@) {
                Some(t) => r matches Ok(s) && s@ == t,
                None => r is Err,
            },
    {
        match first_selected_text(fragment, selector) {
            Some(next) => Ok(next),
            None => Err(MenuFilteringError {  }),
        }
    }

    /// Parses a CSS selector.
    pub fn parse_using_css(selector: &str) -> (r: Result<CssSelector, MenuFilteringError>)
        ensures
            r is Ok <==> css_parses(selector@),
            r matches Ok(s) ==> s@ == selector@,
    {
        match parse_selector(selector) {
            Some(s) => Ok(s),
            None => Err(MenuFilteringError {  }),
        }
    }

    fn parse_all(texts: &Vec<&str>) -> (r: Result<Vec<CssSelector>, MenuFilteringError>)
        ensures
            r is Ok <==> selectors_parse(texts_of(texts@)),
            r matches Ok(v) ==> selector_texts(v@) == texts_of(texts@),
    {
        let ghost all = texts_of(texts@);
        let mut out: Vec<CssSelector> = Vec::new();
        let n = texts.len();
        let mut i: usize = 0;
        while i < n
            invariant
                n == texts@.len(),
                all == texts_of(texts@),
                i <= n,
                selector_texts(out@) == all.take(i as int),
                selectors_parse(all.take(i as int)),
            decreases n - i,
        {
            assert(all[i as int] == texts@[i as int]@);
            let ghost before = out@;
            let selector = match Self::parse_using_css(texts[i]) {
                Ok(s) => s,
                Err(e) => {
                    assert(!css_parses(all[i as int]));
                    return Err(e);
                },
            };
            out.push(selector);
            proof {
                assert(out@ == before.push(selector));
                assert(selector_texts(before).len() == before.len());
                assert(before.len() == i);
                assert forall|j: int| 0 <= j < i + 1 implies #[trigger] selector_texts(out@)[j] == all.take(i + 1)[j] by {
                    if j < i {
                        assert(selector_texts(before)[j] == all.take(i as int)[j]);
                        assert(out@[j] == before[j]);
                    } else {
                        assert(out@[j] == selector);
                    }
                }
                assert(selector_texts(out@) =~= all.take(i + 1));
                assert forall|j: int| 0 <= j < i + 1 implies css_parses(#[trigger] all.take(i + 1)[j]) by {
                    if j < i {
                        assert(all.take(i + 1)[j] == all.take(i as int)[j]);
                    }
                }
            }
            i = i + 1;
        }
        assert(all.take(n as int) =~= all);
        Ok(out)
    }

    fn read_section(header: &str, selectors: &Vec<CssSelector>, fragment: &Document) -> (r: Result<
        String,
        MenuFilteringError,
    >)
        ensures
            r is Ok <==> selectors_found(fragment@, selector_texts(selectors@)),
            r matches Ok(t) ==> t@ == header@ + section_text(fragment@, selector_texts(selectors@)),
    {
        let ghost all = selector_texts(selectors@);
        let mut out = String::from_str(header);
        let n = selectors.len();
        let mut i: usize = 0;
        assert(header@ + section_text(fragment@, all.take(0)) =~= header@);
        while i < n
            invariant
                n == selectors@.len(),
                all == selector_texts(selectors@),
                i <= n,
                out@ == header@ + section_text(fragment@, all.take(i as int)),
                selectors_found(fragment@, all.take(i as int)),
            decreases n - i,
        {
            assert(all[i as int] == selectors@[i as int]@);
            let text = match Self::apply_selectors(&selectors[i], fragment) {
                Ok(t) => t,
                Err(e) => {
                    assert(selected_text(fragment@, all[i as int]) is None);
                    return Err(e);
                },
            };
            out.append(Self::remove_spaces_and_tabs(text).as_str());
            proof {
                let t = all.take(i + 1);
                assert(t.drop_last() =~= all.take(i as int));
                assert(t.last() == all[i as int]);
                assert(out@ =~= header@ + section_text(fragment@, t));
                assert forall|j: int| 0 <= j < i + 1 implies (#[trigger] selected_text(fragment@, t[j])) is Some by {
                    if j < i {
                        assert(t[j] == all.take(i as int)[j]);
                    }
                }
            }
            i = i + 1;
        }
        assert(all.take(n as int) =~= all);
        Ok(out)
    }

    /// Reads the day's menu from the page's bytes, which are ISO-8859-1 text: the day, the
    /// breakfast, and each of the four meals under its heading, and all of them together.
    /// Fails where a selector does not parse or selects nothing.
    pub fn filter_unicamp_response(body: &[u8]) -> (r: Result<UnicampMenu, MenuFilteringError>)
        ensures
            r is Ok <==> page_has_menu(latin1_text(body@)),
            r matches Ok(m) ==> m@ == page_menu(latin1_text(body@)),
    {
        let body_str = match decode_latin1(body) {
            Ok(s) => s,
            Err(_) => return Err(MenuFilteringError {  }),
        };
        let ghost page = latin1_text(body@);
        let fragment = Document::parse(body_str.as_str());
        proof {
            lemma_parse_concat(seq![DAY_SELECTOR@, BREAKFAST_SELECTOR@], lunch_selectors());
            lemma_parse_concat(seq![DAY_SELECTOR@, BREAKFAST_SELECTOR@] + lunch_selectors(), veg_lunch_selectors());
            lemma_parse_concat(seq![DAY_SELECTOR@, BREAKFAST_SELECTOR@] + lunch_selectors() + veg_lunch_selectors(), dinner_selectors());
            lemma_parse_concat(seq![DAY_SELECTOR@, BREAKFAST_SELECTOR@] + lunch_selectors() + veg_lunch_selectors() + dinner_selectors(), veg_dinner_selectors());
            lemma_found_concat(page, seq![DAY_SELECTOR@, BREAKFAST_SELECTOR@], lunch_selectors());
            lemma_found_concat(page, seq![DAY_SELECTOR@, BREAKFAST_SELECTOR@] + lunch_selectors(), veg_lunch_selectors());
            lemma_found_concat(page, seq![DAY_SELECTOR@, BREAKFAST_SELECTOR@] + lunch_selectors() + veg_lunch_selectors(), dinner_selectors());
            lemma_found_concat(page, seq![DAY_SELECTOR@, BREAKFAST_SELECTOR@] + lunch_selectors() + veg_lunch_selectors() + dinner_selectors(), veg_dinner_selectors());
            assert(seq![DAY_SELECTOR@, BREAKFAST_SELECTOR@][0] == DAY_SELECTOR@);
            assert(seq![DAY_SELECTOR@, BREAKFAST_SELECTOR@][1] == BREAKFAST_SELECTOR@);
        }
        let day_selector = Self::parse_using_css(DAY_SELECTOR)?;
        let selector_breakfast = Self::parse_using_css(BREAKFAST_SELECTOR)?;
        let lunch_selectors = Self::parse_all(&lunch_selector_texts())?;
        let veg_lunch_selectors = Self::parse_all(&veg_lunch_selector_texts())?;
        let dinner_selectors = Self::parse_all(&dinner_selector_texts())?;
        let veg_dinner_selectors = Self::parse_all(&veg_dinner_selector_texts())?;

        let mut breakfast = String::from_str("*Café da Manha:* \n");
        let extracted_break_fast = Self::apply_selectors(&selector_breakfast, &fragment)?;
        breakfast.append(Self::remove_spaces_and_tabs(extracted_break_fast).as_str());

        let extracted_day = Self::apply_selectors(&day_selector, &fragment)?;
        let mut day = String::from_str("*");
        day.append(Self::remove_spaces_and_tabs(extracted_day).as_str());
        day.append("*");

        let lunch = Self::read_section("*Almoço:* \n", &lunch_selectors, &fragment)?;
        let lunch_veg = Self::read_section("*Almoço Vegetariano:* \n", &veg_lunch_selectors, &fragment)?;
        let dinner = Self::read_section("*Jantar:* \n", &dinner_selectors, &fragment)?;
        let dinner_veg = Self::read_section("*Jantar Vegetariano: *\n", &veg_dinner_selectors, &fragment)?;

        let mut formated_menu = day;
        formated_menu.append("\n ");
        formated_menu.append(lunch.as_str());
        formated_menu.append("\n");
        formated_menu.append(dinner.as_str());
        formated_menu.append("\n");
        formated_menu.append(lunch_veg.as_str());
        formated_menu.append("\n");
        formated_menu.append(dinner_veg.as_str());

        let unicamp_menu = UnicampMenu {
            break_fast: breakfast,
            lunch,
            veg_lunch: lunch_veg,
            dinner,
            veg_dinner: dinner_veg,
            menu_with_headers: formated_menu,
        };
        assert(unicamp_menu@ =~= page_menu(page));
        Ok(unicamp_menu)
    }
}

/// Whether today is a day on which the channel has not been posted to: no day was recorded,
/// or another day was.
pub fn is_new_day(last_day: Option<i32>, current_day: i32) -> (r: bool)
    ensures
        r == (last_day != Some(current_day)),
{
    match last_day {
        Some(day) => day != current_day,
        None => true,
    }
}

/// What the channel's loop does once it has fetched the day's menu.
#[derive(Debug, Clone, Copy, PartialEq, Eq, Structural)]
pub enum ChannelAction {
    /// Fetch the menu again at once, without posting.
    FetchAgain,
    /// Post the menu, record today as posted, then wait an hour.
    PostAndRecord,
    /// Wait an hour without posting.
    Wait,
}

/// The channel is left alone on Sundays and Mondays; on other days it gets the menu once,
/// after one o'clock.
pub open spec fn channel_action(weekday: Weekday, hour: u32, last_day: Option<i32>, current_day: i32) -> ChannelAction {
    if weekday == Weekday::Sun || weekday == Weekday::Mon {
        ChannelAction::FetchAgain
    } else if hour > 1 && last_day != Some(current_day) {
        ChannelAction::PostAndRecord
    } else {
        ChannelAction::Wait
    }
}

/// Decides what the channel's loop does with a freshly fetched menu, given the day of the
/// week, the hour, the day last recorded as posted (if any) and today.
pub fn next_channel_action(weekday: Weekday, hour: u32, last_day: Option<i32>, current_day: i32) -> (r:
    ChannelAction)
    ensures
        r == channel_action(weekday, hour, last_day, current_day),
{
    if weekday == Weekday::Sun || weekday == Weekday::Mon {
        return ChannelAction::FetchAgain;
    }
    if hour > 1 && is_new_day(last_day, current_day) {
        ChannelAction::PostAndRecord
    } else {
        ChannelAction::Wait
    }
}

/// The channel gets at most one post a day: once the loop posted on `today` and recorded it,
/// reading that record back, no later fetch on the same day, at any hour, posts again.
pub proof fn law_one_post_a_day(weekday: Weekday, hour: u32, today: i32)
    ensures
        channel_action(weekday, hour, parsed_i32(decimal_text(today as int)), today)
            != ChannelAction::PostAndRecord,
{
    law_day_record_round_trip(today);
}

/// How many times the channel's loop posts over the checks of one day, each check given by
/// the day of the week and the hour it ran at, starting from the recorded day `record`; after
/// each post the loop records today and reads that record back.
pub open spec fn posts_in_day(checks: Seq<(Weekday, u32)>, record: Option<i32>, today: i32) -> nat
    decreases checks.len(),
{
    if checks.len() == 0 {
        0
    } else if channel_action(checks[0].0, checks[0].1, record, today) == ChannelAction::PostAndRecord {
        1 + posts_in_day(checks.drop_first(), parsed_i32(decimal_text(today as int)), today)
    } else {
        posts_in_day(checks.drop_first(), record, today)
    }
}

proof fn lemma_no_post_after_record(checks: Seq<(Weekday, u32)>, today: i32)
    ensures
        posts_in_day(checks, Some(today), today) == 0,
    decreases checks.len(),
{
    if checks.len() > 0 {
        lemma_no_post_after_record(checks.drop_first(), today);
    }
}

/// Over any checks made in one day, whatever was recorded before, the channel's loop posts at
/// most once.
pub proof fn law_at_most_one_post_per_day(checks: Seq<(Weekday, u32)>, record: Option<i32>, today: i32)
    ensures
        posts_in_day(checks, record, today) <= 1,
    decreases checks.len(),
{
    if checks.len() > 0 {
        law_day_record_round_trip(today);
        lemma_no_post_after_record(checks.drop_first(), today);
        law_at_most_one_post_per_day(checks.drop_first(), record, today);
    }
}

/// Only Sundays and Mondays are skipped: on any other day the menu is posted after one o'clock
/// when today has not been recorded yet, and otherwise the loop waits.
pub proof fn law_channel_posts_on_other_days(weekday: Weekday, hour: u32, last_day: Option<i32>, current_day: i32)
    ensures
        channel_action(weekday, hour, last_day, current_day) == ChannelAction::FetchAgain <==> (
        weekday == Weekday::Sun || weekday == Weekday::Mon),
        weekday != Weekday::Sun && weekday != Weekday::Mon && hour > 1 && last_day != Some(
            current_day,
        ) ==> channel_action(weekday, hour, last_day, current_day) == ChannelAction::PostAndRecord,
        weekday != Weekday::Sun && weekday != Weekday::Mon && (hour <= 1 || last_day == Some(
            current_day,
        )) ==> channel_action(weekday, hour, last_day, current_day) == ChannelAction::Wait,
{
}

} // verus!
