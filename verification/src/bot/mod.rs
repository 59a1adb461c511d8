//! The bot that answers private messages; the menus themselves go to a channel.
pub mod day_record;
pub mod menu_comparator;
pub mod unicamp_handler;
pub mod usp_handler;

use vstd::prelude::*;

use crate::text::same_text;

verus! {

/// The answer to a message's text: the UNICAMP commands are told that the menu moved to a
/// channel, anything else that the bot is being rebuilt.
pub open spec fn response_text(text: Seq<char>) -> Seq<char> {
    if text == "/unicamp"@ || text == "/unicamp@BotejaoBot"@ {
        "O Botejao UNICAMP agora é um canal! @botejao\\_unicamp"@
    } else {
        "O Bot está sob reformas, somente UNICAMP disponível no momento no canal @botejao\\_unicamp."@
    }
}

/// The answer to an update whose message has the given text; an update without text gets
/// none.
pub fn get_response_for_update(message_text: Option<&str>) -> (r: Option<String>)
    ensures
        match message_text {
            None => r is None,
            Some(t) => r matches Some(s) && s@ == response_text(t@),
        },
{
    let update_msg_text = match message_text {
        Some(text) => text,
        None => return None,
    };
    if same_text(update_msg_text, "/unicamp") || same_text(update_msg_text, "/unicamp@BotejaoBot") {
        Some(String::from_str("O Botejao UNICAMP agora é um canal! @botejao\\_unicamp"))
    } else {
        Some(
            String::from_str(
                "O Bot está sob reformas, somente UNICAMP disponível no momento no canal @botejao\\_unicamp.",
            ),
        )
    }
}

} // verus!
