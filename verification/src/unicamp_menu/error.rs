use vstd::prelude::*;

verus! {

/// The errors of building and fetching the menus.
#[derive(Debug)]
pub enum BotejaoError {
    InvalidDate { invalid_date: String, parse_error: String },
    InvalidMealKind(String),
    NetworkError(String),
}

/// The mathematical value of a [`BotejaoError`]: the same variants over character sequences.
pub enum BotejaoErrorView {
    InvalidDate { invalid_date: Seq<char>, parse_error: Seq<char> },
    InvalidMealKind(Seq<char>),
    NetworkError(Seq<char>),
}

impl View for BotejaoError {
    type V = BotejaoErrorView;

    open spec fn view(&self) -> BotejaoErrorView {
        match self {
            BotejaoError::InvalidDate { invalid_date, parse_error } => BotejaoErrorView::InvalidDate {
                invalid_date: invalid_date@,
                parse_error: parse_error@,
            },
            BotejaoError::InvalidMealKind(kind) => BotejaoErrorView::InvalidMealKind(kind@),
            BotejaoError::NetworkError(msg) => BotejaoErrorView::NetworkError(msg@),
        }
    }
}

} // verus!
